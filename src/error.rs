//! The errors of the protocol.
use vstd::prelude::*;

verus! {

#[verifier::external_type_specification]
#[verifier::external_body]
pub struct ExIoError(std::io::Error);

/// What can go wrong while opening or running a session.
#[derive(Debug)]
pub enum UotError {
    /// The underlying transport failed, or the data ended before a field did.
    Io(std::io::Error),
    /// The bytes on the wire, or a caller's buffer, do not fit the protocol.
    Protocol(String),
    /// A domain name resolved to no address.
    ResolutionFailed,
    /// A protocol version outside the accepted set was asked for.
    UnknownVersion(u8),
}

/// Relies on `std::io::Error::from(ErrorKind::UnexpectedEof)`: an error that
/// reports data ending early.
#[verifier::external_body]
pub(crate) fn unexpected_eof() -> (r: std::io::Error) {
    std::io::Error::from(std::io::ErrorKind::UnexpectedEof)
}

} // verus!

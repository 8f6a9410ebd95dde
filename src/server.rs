//! The server end of a session: it reads the request header, then relays in
//! two directions. Each step of a relay is a function here: the sockets and
//! the loops that drive them are the caller's.
use crate::buffer::bytes_of;
use crate::client::{conn_request, send_wire, ConnModel};
use crate::error::UotError;
use crate::frame::{
    decode_frame_header, encode_frame, frame_failure, frame_wire, lemma_frame_round_trip, parse_frame,
    MAX_PAYLOAD,
};
use crate::protocol::{
    addr_valid, parse_request, request_failure, AddrModel, RequestModel, SocksAddr, UotRequest,
    MAX_ADDR_WIRE,
};
use bytes::BytesMut;
use vstd::prelude::*;
use vstd::slice::slice_to_vec;

verus! {

/// An open server session: the mode and destination that its request fixed.
pub struct ServerSession {
    is_connect: bool,
    destination: SocksAddr,
}

impl View for ServerSession {
    type V = RequestModel;

    closed spec fn view(&self) -> RequestModel {
        RequestModel { is_connect: self.is_connect, destination: self.destination@ }
    }
}

/// The address that frames of a session carry implicitly: its destination in
/// connect mode, none in associate mode.
pub open spec fn session_fixed(q: RequestModel) -> Option<AddrModel> {
    if q.is_connect {
        Some(q.destination)
    } else {
        None
    }
}

/// What a client sends once its header has gone out, the server of the same
/// session reads back: the payload, and the target that was named in
/// associate mode or the session's destination in connect mode.
pub proof fn lemma_send_then_read(c: ConnModel, target: AddrModel, payload: Seq<u8>, rest: Seq<u8>)
    requires
        c.request_written,
        c.is_connect || addr_valid(target),
        payload.len() <= MAX_PAYLOAD,
    ensures
        parse_frame(send_wire(c, target, payload) + rest, session_fixed(conn_request(c))) == Some(
            (
                if c.is_connect { c.destination } else { target },
                payload,
                send_wire(c, target, payload).len() as int,
            ),
        ),
{
    lemma_frame_round_trip(c.is_connect, c.destination, target, payload, rest);
    assert(send_wire(c, target, payload) =~= frame_wire(
        if c.is_connect { None } else { Some(target) },
        payload,
    ));
}

impl ServerSession {
    /// Opens a session from the request header at the front of `data`, the
    /// first bytes read from the stream. Returns the session and how many
    /// bytes the header took.
    pub fn accept(data: &[u8]) -> (r: Result<(ServerSession, usize), UotError>)
        ensures
            r matches Ok((s, n)) ==> parse_request(data@) == Some((s@, n as int)),
            r matches Err(e) ==> request_failure(data@, e),
    {
        match UotRequest::decode(data) {
            Ok((q, n)) => Ok((ServerSession { is_connect: q.is_connect, destination: q.destination }, n)),
            Err(e) => Err(e),
        }
    }

    /// Whether the session is pinned to its destination.
    pub fn is_connect(&self) -> (r: bool)
        ensures
            r == self@.is_connect,
    {
        self.is_connect
    }

    /// The destination that the request named.
    pub fn destination(&self) -> (r: &SocksAddr)
        ensures
            r@ == self@.destination,
    {
        &self.destination
    }

    /// One step from TCP to UDP: decodes the frame at the front of `data`, the
    /// bytes read from the stream and not yet consumed. Returns the address
    /// to send the payload to (the destination in connect mode), the payload,
    /// and how many bytes of `data` the frame took.
    pub fn read_datagram(&self, data: &[u8]) -> (r: Result<(SocksAddr, Vec<u8>, usize), UotError>)
        ensures
            r is Ok <==> parse_frame(data@, session_fixed(self@)) is Some,
            r matches Ok((a, p, used)) ==> parse_frame(data@, session_fixed(self@)) == Some(
                (a@, p@, used as int),
            ),
            r matches Err(e) ==> frame_failure(data@, session_fixed(self@), e),
    {
        let fixed = if self.is_connect { Some(&self.destination) } else { None };
        let (target, start, len) = match decode_frame_header(data, fixed) {
            Ok(h) => h,
            Err(e) => {
                return Err(e);
            },
        };
        if data.len() - start < len {
            return Err(UotError::Io(crate::error::unexpected_eof()));
        }
        let payload = slice_to_vec(&data[start..start + len]);
        Ok((target, payload, start + len))
    }

    /// One step from UDP to TCP: appends to `out` the frame for a datagram
    /// `payload` that came from `from`, whose address is carried only in
    /// associate mode. Fails with `Protocol`, leaving `out` as it was, where
    /// `from` would be carried and has no wire form.
    pub fn frame_datagram(&self, from: &SocksAddr, payload: &[u8], out: &mut BytesMut) -> (r: Result<(), UotError>)
        requires
            payload@.len() <= MAX_PAYLOAD,
            bytes_of(*old(out)).len() + MAX_ADDR_WIRE + 2 + payload@.len() <= isize::MAX,
        ensures
            r is Ok <==> (!self@.is_connect ==> addr_valid(from@)),
            r is Ok ==> bytes_of(*final(out)) == bytes_of(*old(out)) + frame_wire(
                if self@.is_connect { None } else { Some(from@) },
                payload@,
            ),
            r matches Err(e) ==> e is Protocol && bytes_of(*final(out)) == bytes_of(*old(out)),
    {
        let carried = if self.is_connect { None } else { Some(from) };
        encode_frame(carried, payload, out)
    }
}

/// The address that a domain target resolves to: the first that the resolver
/// gave. Fails with `ResolutionFailed` where it gave none.
pub fn first_resolved(candidates: &[SocksAddr]) -> (r: Result<SocksAddr, UotError>)
    ensures
        r is Ok <==> candidates@.len() > 0,
        r matches Ok(a) ==> a@ == candidates@[0]@,
        r matches Err(e) ==> e is ResolutionFailed,
{
    if candidates.len() == 0 {
        return Err(UotError::ResolutionFailed);
    }
    Ok(candidates[0].duplicate())
}

} // verus!

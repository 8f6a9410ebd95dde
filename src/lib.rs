//! UDP over TCP: a length-prefixed framing of UDP datagrams with
//! SOCKS-style addressing, for carrying a UDP association over one TCP stream.

pub mod buffer;
pub mod client;
pub mod error;
pub mod frame;
pub mod protocol;
pub mod server;

pub use client::UotConn;
pub use error::UotError;
pub use protocol::{SocksAddr, UotRequest};
pub use server::ServerSession;

//! The client end of a session: it opens the session with a request header
//! and frames datagrams onto the stream. The transport is the caller's: each
//! step hands back the bytes to write, or takes the bytes that were read.
use crate::buffer::bytes_of;
use crate::error::UotError;
use crate::frame::{
    decode_frame_header, encode_frame, frame_wire, header_failure, parse_frame, parse_frame_header,
    MAX_PAYLOAD,
};
use crate::protocol::{
    addr_valid, request_wire, AddrModel, RequestModel, SocksAddr, UotRequest, LEGACY_VERSION,
    MAX_ADDR_WIRE, VERSION,
};
use bytes::BytesMut;
use vstd::prelude::*;

verus! {

/// A client session: its mode, its fixed destination, whether the request
/// header has gone out, and whether it was opened lazily.
pub struct UotConn {
    is_connect: bool,
    destination: SocksAddr,
    request_written: bool,
    is_lazy: bool,
}

/// The mathematical value of a `UotConn`.
pub struct ConnModel {
    pub is_connect: bool,
    pub destination: AddrModel,
    pub request_written: bool,
    pub is_lazy: bool,
}

impl View for UotConn {
    type V = ConnModel;

    closed spec fn view(&self) -> ConnModel {
        ConnModel {
            is_connect: self.is_connect,
            destination: self.destination@,
            request_written: self.request_written,
            is_lazy: self.is_lazy,
        }
    }
}

/// A session that was not opened lazily has written its header.
pub open spec fn conn_wf(c: ConnModel) -> bool {
    !c.is_lazy ==> c.request_written
}

/// The versions that a client may ask for: unspecified, legacy or current.
pub open spec fn version_accepted(v: u8) -> bool {
    v == 0 || v == VERSION || v == LEGACY_VERSION
}

/// The request header of a session.
pub open spec fn conn_request(c: ConnModel) -> RequestModel {
    RequestModel { is_connect: c.is_connect, destination: c.destination }
}

/// The address that frames of a session carry implicitly: its destination in
/// connect mode, none in associate mode.
pub open spec fn conn_fixed(c: ConnModel) -> Option<AddrModel> {
    if c.is_connect {
        Some(c.destination)
    } else {
        None
    }
}

/// The bytes that a send of `payload` to `target` puts on the stream: the
/// header if it is still due, then the frame, which names `target` only in
/// associate mode.
pub open spec fn send_wire(c: ConnModel, target: AddrModel, payload: Seq<u8>) -> Seq<u8> {
    let header = if c.request_written {
        Seq::empty()
    } else {
        request_wire(conn_request(c))
    };
    header + frame_wire(if c.is_connect { None } else { Some(target) }, payload)
}

/// Whether a send to `target` can be put on the wire: the header, if due,
/// and the target, if carried, have wire forms.
pub open spec fn send_ok(c: ConnModel, target: AddrModel) -> bool {
    &&& !c.request_written ==> addr_valid(c.destination)
    &&& !c.is_connect ==> addr_valid(target)
}

impl UotConn {
    fn connect_internal(
        version: u8,
        is_connect: bool,
        destination: SocksAddr,
        is_lazy: bool,
        out: &mut BytesMut,
    ) -> (r: Result<UotConn, UotError>)
        requires
            bytes_of(*old(out)).len() + 1 + MAX_ADDR_WIRE <= isize::MAX,
        ensures
            !version_accepted(version) ==> r == Err::<UotConn, UotError>(UotError::UnknownVersion(version)),
            r is Ok <==> version_accepted(version) && (is_lazy || addr_valid(destination@)),
            r matches Ok(c) ==> c@ == (ConnModel {
                is_connect,
                destination: destination@,
                request_written: !is_lazy,
                is_lazy,
            }),
            r is Ok && !is_lazy ==> bytes_of(*final(out)) == bytes_of(*old(out)) + request_wire(
                RequestModel { is_connect, destination: destination@ },
            ),
            r is Ok && is_lazy ==> bytes_of(*final(out)) == bytes_of(*old(out)),
            r is Err ==> bytes_of(*final(out)) == bytes_of(*old(out)),
            r matches Err(e) ==> version_accepted(version) ==> e is Protocol,
    {
        if version != 0 && version != VERSION && version != LEGACY_VERSION {
            return Err(UotError::UnknownVersion(version));
        }
        let mut conn = UotConn { is_connect, destination, request_written: false, is_lazy };
        if !is_lazy {
            match conn.write_request(out) {
                Ok(()) => {},
                Err(e) => {
                    return Err(e);
                },
            }
        }
        Ok(conn)
    }

    /// Opens a session: checks the version, and appends the request header
    /// to `out`, which the caller writes to the new connection. Fails with
    /// `UnknownVersion` for a version outside {0, 1, 2}, before anything is
    /// written, and with `Protocol` where the destination has no wire form.
    pub fn connect(version: u8, is_connect: bool, destination: SocksAddr, out: &mut BytesMut) -> (r:
        Result<UotConn, UotError>)
        requires
            bytes_of(*old(out)).len() + 1 + MAX_ADDR_WIRE <= isize::MAX,
        ensures
            !version_accepted(version) ==> r == Err::<UotConn, UotError>(UotError::UnknownVersion(version)),
            r is Ok <==> version_accepted(version) && addr_valid(destination@),
            r matches Ok(c) ==> c@ == (ConnModel {
                is_connect,
                destination: destination@,
                request_written: true,
                is_lazy: false,
            }),
            r is Ok ==> bytes_of(*final(out)) == bytes_of(*old(out)) + request_wire(
                RequestModel { is_connect, destination: destination@ },
            ),
            r is Err ==> bytes_of(*final(out)) == bytes_of(*old(out)),
            r matches Err(e) ==> version_accepted(version) ==> e is Protocol,
    {
        UotConn::connect_internal(version, is_connect, destination, false, out)
    }

    /// Opens a lazy session: checks the version; the request header goes out
    /// with the first send. Fails with `UnknownVersion` for a version outside
    /// {0, 1, 2}.
    pub fn connect_lazy(version: u8, is_connect: bool, destination: SocksAddr) -> (r: Result<
        UotConn,
        UotError,
    >)
        ensures
            r is Err ==> r == Err::<UotConn, UotError>(UotError::UnknownVersion(version)),
            r is Ok <==> version_accepted(version),
            r matches Ok(c) ==> c@ == (ConnModel {
                is_connect,
                destination: destination@,
                request_written: false,
                is_lazy: true,
            }),
    {
        let mut scratch = crate::buffer::new_buffer();
        UotConn::connect_internal(version, is_connect, destination, true, &mut scratch)
    }

    /// Appends the request header to `out` unless it has gone out already.
    fn write_request(&mut self, out: &mut BytesMut) -> (r: Result<(), UotError>)
        requires
            bytes_of(*old(out)).len() + 1 + MAX_ADDR_WIRE <= isize::MAX,
        ensures
            r is Ok <==> old(self)@.request_written || addr_valid(old(self)@.destination),
            r is Ok ==> final(self)@ == (ConnModel { request_written: true, ..old(self)@ }),
            r is Ok && !old(self)@.request_written ==> bytes_of(*final(out)) == bytes_of(*old(out))
                + request_wire(conn_request(old(self)@)),
            r is Ok && old(self)@.request_written ==> bytes_of(*final(out)) == bytes_of(*old(out)),
            r matches Err(e) ==> e is Protocol && final(self)@ == old(self)@ && bytes_of(*final(out))
                == bytes_of(*old(out)),
    {
        if self.request_written {
            return Ok(());
        }
        let request = UotRequest { is_connect: self.is_connect, destination: self.destination.duplicate() };
        match request.encode(out) {
            Ok(()) => {
                self.request_written = true;
                Ok(())
            },
            Err(e) => Err(e),
        }
    }

    /// Frames `payload` for `target` and appends it to `out`, preceded by the
    /// request header where a lazy session has not sent it yet. In connect
    /// mode `target` is not put on the wire. Returns the payload's length.
    /// Fails with `Protocol`, changing nothing, where the header or the target
    /// has no wire form.
    pub fn send_to(&mut self, payload: &[u8], target: &SocksAddr, out: &mut BytesMut) -> (r: Result<usize, UotError>)
        requires
            conn_wf(old(self)@),
            payload@.len() <= MAX_PAYLOAD,
            bytes_of(*old(out)).len() + 1 + MAX_ADDR_WIRE + MAX_ADDR_WIRE + 2 + payload@.len() <= isize::MAX,
        ensures
            r is Ok <==> send_ok(old(self)@, target@),
            r matches Ok(n) ==> n == payload@.len(),
            r is Ok ==> final(self)@ == (ConnModel { request_written: true, ..old(self)@ }),
            r is Ok ==> bytes_of(*final(out)) == bytes_of(*old(out)) + send_wire(old(self)@, target@, payload@),
            r matches Err(e) ==> e is Protocol && final(self)@ == old(self)@ && bytes_of(*final(out))
                == bytes_of(*old(out)),
    {
        if !self.is_connect && !target.is_encodable() {
            return Err(UotError::Protocol("Domain name too long".to_owned()));
        }
        let ghost start = bytes_of(*out);
        if !self.request_written && self.is_lazy {
            match self.write_request(out) {
                Ok(()) => {},
                Err(e) => {
                    return Err(e);
                },
            }
        }
        let ghost mid = bytes_of(*out);
        let carried = if self.is_connect { None } else { Some(target) };
        let r = encode_frame(carried, payload, out);
        assert(r is Ok);
        assert(bytes_of(*out) =~= start + send_wire(old(self)@, target@, payload@));
        Ok(payload.len())
    }

    /// Decodes one frame from `data`, the bytes read from the stream and not
    /// yet consumed, and copies its payload into the front of `buf`. Returns
    /// the payload's length, the address it came from (the session's
    /// destination in connect mode), and how many bytes of `data` the frame
    /// took. Fails with `Protocol` where `buf` cannot hold the payload, and
    /// with `Io` where `data` ends before the frame does; on failure nothing
    /// is consumed.
    pub fn recv_from(&self, data: &[u8], buf: &mut [u8]) -> (r: Result<(usize, SocksAddr, usize), UotError>)
        ensures
            final(buf)@.len() == old(buf)@.len(),
            r is Ok <==> (parse_frame(data@, conn_fixed(self@)) matches Some((_, p, _)) && p.len()
                <= old(buf)@.len()),
            r matches Ok((n, a, used)) ==> n <= old(buf)@.len() && parse_frame(
                data@,
                conn_fixed(self@),
            ) == Some((a@, final(buf)@.take(n as int), used as int)) && final(buf)@.skip(n as int)
                == old(buf)@.skip(n as int),
            r matches Err(e) ==> final(buf)@ == old(buf)@ && match parse_frame_header(
                data@,
                conn_fixed(self@),
            ) {
                None => header_failure(data@, conn_fixed(self@), e),
                Some((_, start, len)) => if len > old(buf)@.len() {
                    e is Protocol
                } else {
                    e is Io && data@.len() < start + len
                },
            },
    {
        let fixed = if self.is_connect { Some(&self.destination) } else { None };
        let (source, start, len) = match decode_frame_header(data, fixed) {
            Ok(h) => h,
            Err(e) => {
                return Err(e);
            },
        };
        if buf.len() < len {
            return Err(UotError::Protocol("buffer too small".to_owned()));
        }
        if data.len() - start < len {
            return Err(UotError::Io(crate::error::unexpected_eof()));
        }
        let mut i: usize = 0;
        while i < len
            invariant
                i <= len,
                len <= buf@.len(),
                start + len <= data@.len(),
                start + len <= usize::MAX,
                buf@.len() == old(buf)@.len(),
                forall|j: int| 0 <= j < i ==> buf@[j] == data@[start + j],
                forall|j: int| len <= j < buf@.len() ==> buf@[j] == old(buf)@[j],
            decreases len - i,
        {
            buf[i] = data[start + i];
            i = i + 1;
        }
        assert(buf@.take(len as int) =~= data@.subrange(start as int, start + len));
        assert(buf@.skip(len as int) =~= old(buf)@.skip(len as int));
        Ok((len, source, start + len))
    }
}

} // verus!

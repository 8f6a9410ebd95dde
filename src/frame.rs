//! Relay frames: one datagram on the TCP stream, as an optional address, a
//! two-byte big-endian length and the payload.
use crate::buffer::{be16, be16_value, bytes_of, put_slice, put_u16};
use crate::error::{unexpected_eof, UotError};
use crate::protocol::{
    addr_valid, addr_wire, bad_family, decode_addr_at, lemma_addr_round_trip,
    parse_addr, AddrModel, SocksAddr, MAX_ADDR_WIRE,
};
use bytes::BytesMut;
use vstd::prelude::*;

verus! {

/// The largest payload that the length field can carry.
pub const MAX_PAYLOAD: usize = 65535;

/// The value of an optional address.
pub open spec fn opt_view(a: Option<&SocksAddr>) -> Option<AddrModel> {
    match a {
        Some(x) => Some(x@),
        None => None,
    }
}

/// The wire form of a frame: the address where one is carried (associate
/// mode), then the payload's length and the payload.
pub open spec fn frame_wire(target: Option<AddrModel>, payload: Seq<u8>) -> Seq<u8> {
    let head = match target {
        Some(a) => addr_wire(a),
        None => Seq::empty(),
    };
    head + be16(payload.len() as u16) + payload
}

/// The address and length at the front of `s`: the address is `fixed` where a
/// session has one (connect mode, nothing on the wire), else read from `s`.
/// Gives the address, where the payload starts, and its length.
pub open spec fn parse_frame_header(s: Seq<u8>, fixed: Option<AddrModel>) -> Option<(AddrModel, int, int)> {
    let head = match fixed {
        Some(d) => Some((d, 0int)),
        None => parse_addr(s),
    };
    match head {
        None => None,
        Some((a, k)) => if s.len() < k + 2 {
            None
        } else {
            Some((a, k + 2, be16_value(s[k], s[k + 1]) as int))
        },
    }
}

/// The frame at the front of `s`: its address, its payload, and the number of
/// bytes it takes.
pub open spec fn parse_frame(s: Seq<u8>, fixed: Option<AddrModel>) -> Option<(AddrModel, Seq<u8>, int)> {
    match parse_frame_header(s, fixed) {
        None => None,
        Some((a, start, len)) => if s.len() < start + len {
            None
        } else {
            Some((a, s.subrange(start, start + len), start + len))
        },
    }
}

/// A frame header that failed to decode as the protocol says: `Protocol` for
/// an unknown family byte, `Io` where the bytes end first.
pub open spec fn header_failure(s: Seq<u8>, fixed: Option<AddrModel>, e: UotError) -> bool {
    &&& parse_frame_header(s, fixed) is None
    &&& (e is Protocol <==> fixed is None && bad_family(s))
    &&& (e is Io <==> !(fixed is None && bad_family(s)))
}

/// A frame that failed to decode as the protocol says.
pub open spec fn frame_failure(s: Seq<u8>, fixed: Option<AddrModel>, e: UotError) -> bool {
    &&& parse_frame(s, fixed) is None
    &&& (e is Protocol <==> fixed is None && bad_family(s))
    &&& (e is Io <==> !(fixed is None && bad_family(s)))
}

/// A frame read back on the other end gives the payload that was sent and the
/// address it belongs to: in associate mode the address carried in the frame,
/// in connect mode the session's fixed destination, whatever target the
/// sender named.
pub proof fn lemma_frame_round_trip(
    is_connect: bool,
    destination: AddrModel,
    target: AddrModel,
    payload: Seq<u8>,
    rest: Seq<u8>,
)
    requires
        is_connect || addr_valid(target),
        payload.len() <= MAX_PAYLOAD,
    ensures
        ({
            let sent = frame_wire(if is_connect { None } else { Some(target) }, payload);
            let fixed = if is_connect { Some(destination) } else { None };
            let expect = if is_connect { destination } else { target };
            parse_frame(sent + rest, fixed) == Some((expect, payload, sent.len() as int))
        }),
{
    let p = payload.len() as u16;
    assert((p / 256) * 256 + p % 256 == p) by (nonlinear_arith);
    if is_connect {
        let s = frame_wire(None, payload) + rest;
        assert(s[0] == be16(p)[0]);
        assert(s[1] == be16(p)[1]);
        assert(s.subrange(2, 2 + payload.len() as int) =~= payload);
    } else {
        let s = frame_wire(Some(target), payload) + rest;
        let w = addr_wire(target);
        let k = w.len() as int;
        lemma_addr_round_trip(target, be16(p) + payload + rest);
        assert(s =~= w + (be16(p) + payload + rest));
        assert(s[k] == be16(p)[0]);
        assert(s[k + 1] == be16(p)[1]);
        assert(s.subrange(k + 2, k + 2 + payload.len() as int) =~= payload);
    }
}

/// Appends a frame to `buf`: `target`'s wire form where it is given, then the
/// length and bytes of `payload`. Fails with `Protocol`, leaving `buf` as it
/// was, where `target` has no wire form.
pub fn encode_frame(target: Option<&SocksAddr>, payload: &[u8], buf: &mut BytesMut) -> (r: Result<(), UotError>)
    requires
        payload@.len() <= MAX_PAYLOAD,
        bytes_of(*old(buf)).len() + MAX_ADDR_WIRE + 2 + payload@.len() <= isize::MAX,
    ensures
        r is Ok <==> (target matches Some(a) ==> addr_valid(a@)),
        r is Ok ==> bytes_of(*final(buf)) == bytes_of(*old(buf)) + frame_wire(opt_view(target), payload@),
        r matches Err(e) ==> e is Protocol && bytes_of(*final(buf)) == bytes_of(*old(buf)),
{
    let ghost start = bytes_of(*buf);
    match target {
        Some(a) => {
            let r = a.encode(buf);
            if r.is_err() {
                return r;
            }
        },
        None => {},
    }
    put_u16(buf, payload.len() as u16);
    put_slice(buf, payload);
    assert(bytes_of(*buf) =~= start + frame_wire(opt_view(target), payload@));
    Ok(())
}

/// Decodes the address and length at the front of `data`; see
/// `parse_frame_header`.
pub(crate) fn decode_frame_header(data: &[u8], fixed: Option<&SocksAddr>) -> (r: Result<(SocksAddr, usize, usize), UotError>)
    ensures
        r matches Ok((a, start, len)) ==> parse_frame_header(data@, opt_view(fixed)) == Some(
            (a@, start as int, len as int),
        ),
        r matches Ok((_, start, len)) ==> start + len <= usize::MAX,
        r matches Err(e) ==> header_failure(data@, opt_view(fixed), e),
{
    let (addr, k) = match fixed {
        Some(d) => (d.duplicate(), 0),
        None => {
            assert(data@.skip(0) =~= data@);
            match decode_addr_at(data, 0) {
                Ok(pair) => pair,
                Err(e) => {
                    return Err(e);
                },
            }
        },
    };
    if data.len() - k < 2 {
        return Err(UotError::Io(unexpected_eof()));
    }
    let len = (data[k] as u16) * 256 + (data[k + 1] as u16);
    Ok((addr, k + 2, len as usize))
}

} // verus!

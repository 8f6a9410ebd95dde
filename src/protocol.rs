//! The wire codec: SOCKS-style addresses and the session-open request.
use crate::buffer::{be16, be16_value, bytes_of, put_slice, put_u16, put_u8};
use crate::error::{unexpected_eof, UotError};
use bytes::BytesMut;
use vstd::prelude::*;
use vstd::slice::slice_to_vec;

verus! {

/// The protocol version in current use.
pub const VERSION: u8 = 2;

/// The earlier protocol version, still accepted.
pub const LEGACY_VERSION: u8 = 1;

/// The magic domain that names a UDP-over-TCP destination.
pub const MAGIC_ADDRESS: &'static str = "sp.v2.udp-over-tcp.arpa";

/// The magic domain of the earlier protocol version.
pub const LEGACY_MAGIC_ADDRESS: &'static str = "sp.udp-over-tcp.arpa";

/// Address family byte of an IPv4 address.
pub const FAMILY_IPV4: u8 = 0;

/// Address family byte of an IPv6 address.
pub const FAMILY_IPV6: u8 = 1;

/// Address family byte of a domain name.
pub const FAMILY_DOMAIN: u8 = 2;

/// The longest domain name that fits the one-byte length field.
pub const MAX_DOMAIN_LEN: usize = 255;

/// The longest wire form of an address: a domain of the longest length.
pub const MAX_ADDR_WIRE: usize = 259;

/// A SOCKS-style address: an IP socket address, or a domain name and a port.
/// A domain name is carried as raw bytes; it need not be valid text.
#[derive(Clone, Debug, PartialEq, Eq, Hash)]
pub enum SocksAddr {
    V4([u8; 4], u16),
    V6([u8; 16], u16),
    Domain(Vec<u8>, u16),
}

/// The mathematical value of a `SocksAddr`.
pub enum AddrModel {
    V4(Seq<u8>, u16),
    V6(Seq<u8>, u16),
    Domain(Seq<u8>, u16),
}

impl View for SocksAddr {
    type V = AddrModel;

    open spec fn view(&self) -> AddrModel {
        match self {
            SocksAddr::V4(ip, port) => AddrModel::V4(ip@, *port),
            SocksAddr::V6(ip, port) => AddrModel::V6(ip@, *port),
            SocksAddr::Domain(name, port) => AddrModel::Domain(name@, *port),
        }
    }
}

/// An address that can be put on the wire: the octet counts of its family,
/// and a domain name no longer than its length byte can say.
pub open spec fn addr_valid(a: AddrModel) -> bool {
    match a {
        AddrModel::V4(ip, _) => ip.len() == 4,
        AddrModel::V6(ip, _) => ip.len() == 16,
        AddrModel::Domain(name, _) => name.len() <= 255,
    }
}

/// The wire form of an address: family byte, body, big-endian port.
pub open spec fn addr_wire(a: AddrModel) -> Seq<u8> {
    match a {
        AddrModel::V4(ip, port) => seq![FAMILY_IPV4] + ip + be16(port),
        AddrModel::V6(ip, port) => seq![FAMILY_IPV6] + ip + be16(port),
        AddrModel::Domain(name, port) => seq![FAMILY_DOMAIN, name.len() as u8] + name + be16(port),
    }
}

/// How many bytes the address at the front of `s` takes, judged from its
/// family byte and, for a domain, its length byte.
pub open spec fn addr_need(s: Seq<u8>) -> int
    recommends
        s.len() > 0,
{
    if s[0] == FAMILY_IPV4 {
        7
    } else if s[0] == FAMILY_IPV6 {
        19
    } else if s.len() < 2 {
        2
    } else {
        4 + s[1]
    }
}

/// The address at the front of `s`, with the number of bytes it takes; `None`
/// where the family byte is unknown or the bytes end first.
pub open spec fn parse_addr(s: Seq<u8>) -> Option<(AddrModel, int)> {
    if s.len() == 0 || s[0] > FAMILY_DOMAIN || s.len() < addr_need(s) {
        None
    } else if s[0] == FAMILY_IPV4 {
        Some((AddrModel::V4(s.subrange(1, 5), be16_value(s[5], s[6])), 7))
    } else if s[0] == FAMILY_IPV6 {
        Some((AddrModel::V6(s.subrange(1, 17), be16_value(s[17], s[18])), 19))
    } else {
        let n = s[1] as int;
        Some((AddrModel::Domain(s.subrange(2, 2 + n), be16_value(s[2 + n], s[3 + n])), 4 + n))
    }
}

/// The family byte at the front of `s` is none of the known ones.
pub open spec fn bad_family(s: Seq<u8>) -> bool {
    s.len() > 0 && s[0] > FAMILY_DOMAIN
}

/// A decode of an address from `s` that failed as the protocol says: with
/// `Protocol` for an unknown family byte, and with `Io` where the bytes end
/// before a field does.
pub open spec fn addr_failure(s: Seq<u8>, e: UotError) -> bool {
    &&& parse_addr(s) is None
    &&& (e is Protocol <==> bad_family(s))
    &&& (e is Io <==> !bad_family(s))
}

proof fn lemma_be16_round_trip(v: u16)
    ensures
        be16(v).len() == 2,
        be16_value(be16(v)[0], be16(v)[1]) == v,
{
    assert((v / 256) * 256 + v % 256 == v) by (nonlinear_arith);
}

/// Decoding the wire form of a valid address, whatever follows it, gives the
/// address back and consumes exactly its wire form.
pub proof fn lemma_addr_round_trip(a: AddrModel, rest: Seq<u8>)
    requires
        addr_valid(a),
    ensures
        parse_addr(addr_wire(a) + rest) == Some((a, addr_wire(a).len() as int)),
{
    let s = addr_wire(a) + rest;
    match a {
        AddrModel::V4(ip, port) => {
            lemma_be16_round_trip(port);
            assert(s.subrange(1, 5) =~= ip);
        },
        AddrModel::V6(ip, port) => {
            lemma_be16_round_trip(port);
            assert(s.subrange(1, 17) =~= ip);
        },
        AddrModel::Domain(name, port) => {
            lemma_be16_round_trip(port);
            let n = name.len() as int;
            assert(s[1] == n as u8);
            assert(s.subrange(2, 2 + n) =~= name);
            assert(s[2 + n] == be16(port)[0]);
            assert(s[3 + n] == be16(port)[1]);
        },
    }
}

/// No proper prefix of the wire form of a valid address decodes: a decode of
/// truncated bytes fails rather than giving part of an address.
pub proof fn lemma_addr_truncated(a: AddrModel, k: int)
    requires
        addr_valid(a),
        0 <= k < addr_wire(a).len(),
    ensures
        parse_addr(addr_wire(a).take(k)) is None,
        !bad_family(addr_wire(a).take(k)),
{
    let s = addr_wire(a).take(k);
    if k >= 2 {
        assert(s[1] == addr_wire(a)[1]);
    }
}

fn read_port(buf: &[u8], at: usize) -> (r: u16)
    requires
        at + 1 < buf@.len(),
    ensures
        r == be16_value(buf@[at as int], buf@[at + 1]),
{
    (buf[at] as u16) * 256 + (buf[at + 1] as u16)
}

fn copy_addr(a: &SocksAddr) -> (r: SocksAddr)
    ensures
        r@ == a@,
{
    match a {
        SocksAddr::V4(ip, port) => SocksAddr::V4(*ip, *port),
        SocksAddr::V6(ip, port) => SocksAddr::V6(*ip, *port),
        SocksAddr::Domain(name, port) => SocksAddr::Domain(slice_to_vec(name.as_slice()), *port),
    }
}

impl SocksAddr {
    /// Whether this address has a wire form: a domain name fits its length byte.
    pub fn is_encodable(&self) -> (r: bool)
        ensures
            r == addr_valid(self@),
    {
        match self {
            SocksAddr::Domain(name, _) => name.len() <= MAX_DOMAIN_LEN,
            _ => true,
        }
    }

    /// A copy of this address.
    pub fn duplicate(&self) -> (r: SocksAddr)
        ensures
            r@ == self@,
    {
        copy_addr(self)
    }

    /// Appends the wire form of this address to `buf`. Fails with `Protocol`,
    /// leaving `buf` as it was, where a domain name is over 255 bytes.
    pub fn encode(&self, buf: &mut BytesMut) -> (r: Result<(), UotError>)
        requires
            bytes_of(*old(buf)).len() + MAX_ADDR_WIRE <= isize::MAX,
        ensures
            r is Ok <==> addr_valid(self@),
            r is Ok ==> bytes_of(*final(buf)) == bytes_of(*old(buf)) + addr_wire(self@),
            r matches Err(e) ==> e is Protocol && bytes_of(*final(buf)) == bytes_of(*old(buf)),
    {
        let ghost start = bytes_of(*buf);
        match self {
            SocksAddr::V4(ip, port) => {
                put_u8(buf, FAMILY_IPV4);
                put_slice(buf, ip.as_slice());
                put_u16(buf, *port);
                assert(bytes_of(*buf) =~= start + addr_wire(self@));
            },
            SocksAddr::V6(ip, port) => {
                put_u8(buf, FAMILY_IPV6);
                put_slice(buf, ip.as_slice());
                put_u16(buf, *port);
                assert(bytes_of(*buf) =~= start + addr_wire(self@));
            },
            SocksAddr::Domain(name, port) => {
                if name.len() > MAX_DOMAIN_LEN {
                    return Err(UotError::Protocol("Domain name too long".to_owned()));
                }
                put_u8(buf, FAMILY_DOMAIN);
                put_u8(buf, name.len() as u8);
                put_slice(buf, name.as_slice());
                put_u16(buf, *port);
                assert(bytes_of(*buf) =~= start + addr_wire(self@));
            },
        }
        Ok(())
    }

    /// Decodes the address at the front of `buf`, returning it with the number
    /// of bytes it took.
    pub fn decode(buf: &[u8]) -> (r: Result<(SocksAddr, usize), UotError>)
        ensures
            r matches Ok((a, n)) ==> parse_addr(buf@) == Some((a@, n as int)),
            r matches Err(e) ==> addr_failure(buf@, e),
    {
        assert(buf@.skip(0) =~= buf@);
        decode_addr_at(buf, 0)
    }
}

/// Decodes the address that starts at `at` in `buf`; the count returned is of
/// the bytes that the address took.
pub(crate) fn decode_addr_at(buf: &[u8], at: usize) -> (r: Result<(SocksAddr, usize), UotError>)
    requires
        at <= buf@.len(),
    ensures
        r matches Ok((a, n)) ==> parse_addr(buf@.skip(at as int)) == Some((a@, n as int)),
        r matches Err(e) ==> addr_failure(buf@.skip(at as int), e),
{
    let ghost s = buf@.skip(at as int);
    let avail = buf.len() - at;
    if avail == 0 {
        return Err(UotError::Io(unexpected_eof()));
    }
    let family = buf[at];
    if family == FAMILY_IPV4 {
        if avail < 7 {
            return Err(UotError::Io(unexpected_eof()));
        }
        let ip: [u8; 4] = [buf[at + 1], buf[at + 2], buf[at + 3], buf[at + 4]];
        let port = read_port(buf, at + 5);
        assert(ip@ =~= s.subrange(1, 5));
        Ok((SocksAddr::V4(ip, port), 7))
    } else if family == FAMILY_IPV6 {
        if avail < 19 {
            return Err(UotError::Io(unexpected_eof()));
        }
        let ip: [u8; 16] = [
            buf[at + 1], buf[at + 2], buf[at + 3], buf[at + 4],
            buf[at + 5], buf[at + 6], buf[at + 7], buf[at + 8],
            buf[at + 9], buf[at + 10], buf[at + 11], buf[at + 12],
            buf[at + 13], buf[at + 14], buf[at + 15], buf[at + 16],
        ];
        let port = read_port(buf, at + 17);
        assert(ip@ =~= s.subrange(1, 17));
        Ok((SocksAddr::V6(ip, port), 19))
    } else if family == FAMILY_DOMAIN {
        if avail < 2 {
            return Err(UotError::Io(unexpected_eof()));
        }
        let n = buf[at + 1] as usize;
        if avail < 4 + n {
            return Err(UotError::Io(unexpected_eof()));
        }
        let name = slice_to_vec(&buf[at + 2..at + 2 + n]);
        let port = read_port(buf, at + 2 + n);
        assert(name@ =~= s.subrange(2, 2 + n as int));
        Ok((SocksAddr::Domain(name, port), 4 + n))
    } else {
        Err(UotError::Protocol("Invalid address type".to_owned()))
    }
}

/// The request that opens a session: its mode, and its fixed destination.
#[derive(Clone, Debug)]
pub struct UotRequest {
    pub is_connect: bool,
    pub destination: SocksAddr,
}

/// The mathematical value of a `UotRequest`.
pub struct RequestModel {
    pub is_connect: bool,
    pub destination: AddrModel,
}

impl View for UotRequest {
    type V = RequestModel;

    open spec fn view(&self) -> RequestModel {
        RequestModel { is_connect: self.is_connect, destination: self.destination@ }
    }
}

/// The wire form of a request: a mode byte (1 for connect, 0 for associate),
/// then the destination.
pub open spec fn request_wire(q: RequestModel) -> Seq<u8> {
    seq![if q.is_connect { 1u8 } else { 0u8 }] + addr_wire(q.destination)
}

/// The request at the front of `s`, with the number of bytes it takes; any
/// nonzero mode byte means connect.
pub open spec fn parse_request(s: Seq<u8>) -> Option<(RequestModel, int)> {
    if s.len() == 0 {
        None
    } else {
        match parse_addr(s.skip(1)) {
            Some((a, n)) => Some((RequestModel { is_connect: s[0] != 0, destination: a }, n + 1)),
            None => None,
        }
    }
}

/// A decode of a request from `s` that failed as the protocol says: with
/// `Protocol` where the mode byte is missing or the family byte is unknown,
/// and with `Io` where the address ends early.
pub open spec fn request_failure(s: Seq<u8>, e: UotError) -> bool {
    &&& parse_request(s) is None
    &&& s.len() == 0 ==> e is Protocol
    &&& s.len() > 0 ==> addr_failure(s.skip(1), e)
}

/// Decoding the wire form of a request with a valid destination, whatever
/// follows it, gives the request back, for either mode.
pub proof fn lemma_request_round_trip(q: RequestModel, rest: Seq<u8>)
    requires
        addr_valid(q.destination),
    ensures
        parse_request(request_wire(q) + rest) == Some((q, request_wire(q).len() as int)),
{
    let s = request_wire(q) + rest;
    lemma_addr_round_trip(q.destination, rest);
    assert(s.skip(1) =~= addr_wire(q.destination) + rest);
}

impl UotRequest {
    /// Appends the wire form of this request to `buf`. Fails with `Protocol`,
    /// leaving `buf` as it was, where the destination's domain is over 255
    /// bytes.
    pub fn encode(&self, buf: &mut BytesMut) -> (r: Result<(), UotError>)
        requires
            bytes_of(*old(buf)).len() + 1 + MAX_ADDR_WIRE <= isize::MAX,
        ensures
            r is Ok <==> addr_valid(self.destination@),
            r is Ok ==> bytes_of(*final(buf)) == bytes_of(*old(buf)) + request_wire(self@),
            r matches Err(e) ==> e is Protocol && bytes_of(*final(buf)) == bytes_of(*old(buf)),
    {
        if !self.destination.is_encodable() {
            return Err(UotError::Protocol("Domain name too long".to_owned()));
        }
        let ghost start = bytes_of(*buf);
        put_u8(buf, if self.is_connect { 1 } else { 0 });
        let r = self.destination.encode(buf);
        assert(bytes_of(*buf) =~= start + request_wire(self@));
        r
    }

    /// Decodes the request at the front of `buf`, returning it with the number
    /// of bytes it took.
    pub fn decode(buf: &[u8]) -> (r: Result<(UotRequest, usize), UotError>)
        ensures
            r matches Ok((q, n)) ==> parse_request(buf@) == Some((q@, n as int)),
            r matches Err(e) ==> request_failure(buf@, e),
    {
        if buf.len() < 1 {
            return Err(UotError::Protocol("Buffer too short for IsConnect".to_owned()));
        }
        let is_connect = buf[0] != 0;
        match decode_addr_at(buf, 1) {
            Ok((destination, n)) => Ok((UotRequest { is_connect, destination }, n + 1)),
            Err(e) => Err(e),
        }
    }
}

} // verus!

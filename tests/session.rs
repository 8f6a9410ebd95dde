use bytes::BytesMut;
use uot::frame::encode_frame;
use uot::protocol::{SocksAddr, UotRequest};
use uot::server::first_resolved;
use uot::{ServerSession, UotConn, UotError};

fn target() -> SocksAddr {
    SocksAddr::V4([203, 0, 113, 5], 9999)
}

fn open_pair(is_connect: bool, destination: SocksAddr) -> (UotConn, ServerSession, Vec<u8>) {
    let mut out = BytesMut::new();
    let conn = UotConn::connect(2, is_connect, destination, &mut out).unwrap();
    let (server, used) = ServerSession::accept(&out).unwrap();
    assert_eq!(used, out.len());
    (conn, server, out.to_vec())
}

#[test]
fn associate_send_is_read_back_with_its_target() {
    let (mut conn, server, _) = open_pair(false, SocksAddr::V4([0, 0, 0, 0], 0));
    let mut out = BytesMut::new();
    let n = conn.send_to(b"payload", &target(), &mut out).unwrap();
    assert_eq!(n, 7);
    let (to, payload, used) = server.read_datagram(&out).unwrap();
    assert_eq!(to, target());
    assert_eq!(payload, b"payload".to_vec());
    assert_eq!(used, out.len());
}

#[test]
fn connect_send_puts_no_address_on_the_wire() {
    let dest = SocksAddr::Domain(b"dns.example".to_vec(), 53);
    let (mut conn, server, _) = open_pair(true, dest.clone());
    let mut out = BytesMut::new();
    conn.send_to(b"abc", &target(), &mut out).unwrap();
    assert_eq!(&out[..], &[0, 3, b'a', b'b', b'c']);
    let (to, payload, used) = server.read_datagram(&out).unwrap();
    assert_eq!(to, dest);
    assert_eq!(payload, b"abc".to_vec());
    assert_eq!(used, 5);
}

#[test]
fn frame_length_is_big_endian() {
    let mut out = BytesMut::new();
    let payload = vec![0xaa; 256];
    encode_frame(None, &payload, &mut out).unwrap();
    assert_eq!(&out[..2], &[0x01, 0x00]);
    assert_eq!(out.len(), 258);
}

#[test]
fn empty_payload_is_framed() {
    let (mut conn, server, _) = open_pair(false, target());
    let mut out = BytesMut::new();
    assert_eq!(conn.send_to(b"", &target(), &mut out).unwrap(), 0);
    let (_, payload, _) = server.read_datagram(&out).unwrap();
    assert!(payload.is_empty());
}

#[test]
fn receive_into_small_buffer_fails_and_consumes_nothing() {
    let (conn, server, _) = open_pair(false, target());
    let mut wire = BytesMut::new();
    server.frame_datagram(&target(), b"world", &mut wire).unwrap();
    let mut small = [0u8; 4];
    match conn.recv_from(&wire, &mut small) {
        Err(UotError::Protocol(m)) => assert_eq!(m, "buffer too small"),
        other => panic!("unexpected {:?}", other.map(|r| r.0)),
    }
    assert_eq!(small, [0u8; 4]);
    let mut big = [0u8; 8];
    let (n, from, used) = conn.recv_from(&wire, &mut big).unwrap();
    assert_eq!(n, 5);
    assert_eq!(from, target());
    assert_eq!(used, wire.len());
    assert_eq!(&big[..5], b"world");
}

#[test]
fn receive_of_partial_frame_underruns() {
    let (conn, server, _) = open_pair(false, target());
    let mut wire = BytesMut::new();
    server.frame_datagram(&target(), b"world", &mut wire).unwrap();
    let mut buf = [0u8; 16];
    for k in 0..wire.len() {
        let r = conn.recv_from(&wire[..k], &mut buf);
        assert!(matches!(r, Err(UotError::Io(_))), "prefix of {} bytes", k);
    }
}

#[test]
fn hello_world_end_to_end() {
    let (mut conn, server, _) = open_pair(false, SocksAddr::V4([0, 0, 0, 0], 0));
    let mut up = BytesMut::new();
    conn.send_to(b"hello", &target(), &mut up).unwrap();
    let (to, payload, _) = server.read_datagram(&up).unwrap();
    assert_eq!(to, SocksAddr::V4([203, 0, 113, 5], 9999));
    assert_eq!(payload, b"hello".to_vec());

    let mut down = BytesMut::new();
    server.frame_datagram(&to, b"world", &mut down).unwrap();
    let mut buf = [0u8; 64];
    let (n, from, used) = conn.recv_from(&down, &mut buf).unwrap();
    assert_eq!(n, 5);
    assert_eq!(from, SocksAddr::V4([203, 0, 113, 5], 9999));
    assert_eq!(&buf[..n], b"world");
    assert_eq!(used, down.len());
}

#[test]
fn connect_mode_receive_reports_destination() {
    let dest = SocksAddr::V6([2; 16], 5353);
    let (conn, server, _) = open_pair(true, dest.clone());
    let mut down = BytesMut::new();
    server.frame_datagram(&target(), b"xy", &mut down).unwrap();
    assert_eq!(&down[..], &[0, 2, b'x', b'y']);
    let mut buf = [0u8; 2];
    let (n, from, _) = conn.recv_from(&down, &mut buf).unwrap();
    assert_eq!(n, 2);
    assert_eq!(from, dest);
}

#[test]
fn legacy_version_connects() {
    let mut out = BytesMut::new();
    assert!(UotConn::connect(1, false, target(), &mut out).is_ok());
    assert!(!out.is_empty());
}

#[test]
fn accepted_versions_connect() {
    for v in [0u8, 1, 2] {
        let mut out = BytesMut::new();
        assert!(UotConn::connect(v, true, target(), &mut out).is_ok());
        assert!(UotConn::connect_lazy(v, true, target()).is_ok());
    }
}

#[test]
fn unknown_version_is_refused_before_writing() {
    let mut out = BytesMut::new();
    let r = UotConn::connect(5, false, target(), &mut out);
    assert!(matches!(r, Err(UotError::UnknownVersion(5))));
    assert!(out.is_empty());
    assert!(matches!(UotConn::connect_lazy(3, false, target()), Err(UotError::UnknownVersion(3))));
}

#[test]
fn eager_connect_writes_the_request() {
    let mut out = BytesMut::new();
    UotConn::connect(2, true, target(), &mut out).unwrap();
    let (q, used) = UotRequest::decode(&out).unwrap();
    assert!(q.is_connect);
    assert_eq!(q.destination, target());
    assert_eq!(used, out.len());
}

#[test]
fn eager_connect_with_long_domain_fails() {
    let mut out = BytesMut::new();
    let r = UotConn::connect(2, true, SocksAddr::Domain(vec![b'd'; 256], 1), &mut out);
    assert!(matches!(r, Err(UotError::Protocol(_))));
    assert!(out.is_empty());
}

#[test]
fn lazy_session_sends_header_with_first_frame_only() {
    let mut conn = UotConn::connect_lazy(2, true, target()).unwrap();
    let mut first = BytesMut::new();
    conn.send_to(b"one", &target(), &mut first).unwrap();
    let (server, used) = ServerSession::accept(&first).unwrap();
    assert!(server.is_connect());
    assert_eq!(server.destination(), &target());
    let (_, payload, rest) = server.read_datagram(&first[used..]).unwrap();
    assert_eq!(payload, b"one".to_vec());
    assert_eq!(used + rest, first.len());

    let mut second = BytesMut::new();
    conn.send_to(b"two", &target(), &mut second).unwrap();
    assert_eq!(&second[..], &[0, 3, b't', b'w', b'o']);
}

#[test]
fn lazy_send_with_long_destination_fails_and_writes_nothing() {
    let mut conn = UotConn::connect_lazy(0, true, SocksAddr::Domain(vec![b'd'; 256], 1)).unwrap();
    let mut out = BytesMut::new();
    assert!(matches!(conn.send_to(b"x", &target(), &mut out), Err(UotError::Protocol(_))));
    assert!(out.is_empty());
}

#[test]
fn associate_send_to_long_domain_fails() {
    let (mut conn, _, _) = open_pair(false, target());
    let mut out = BytesMut::new();
    let r = conn.send_to(b"x", &SocksAddr::Domain(vec![b'd'; 256], 1), &mut out);
    assert!(matches!(r, Err(UotError::Protocol(_))));
    assert!(out.is_empty());
}

#[test]
fn server_read_of_bad_family_fails() {
    let (_, server, _) = open_pair(false, target());
    assert!(matches!(server.read_datagram(&[9, 0, 0]), Err(UotError::Protocol(_))));
    assert!(matches!(server.read_datagram(&[]), Err(UotError::Io(_))));
}

#[test]
fn server_accept_of_empty_stream_fails() {
    assert!(matches!(ServerSession::accept(&[]), Err(UotError::Protocol(_))));
}

#[test]
fn resolution_takes_first_address() {
    let a = SocksAddr::V4([10, 0, 0, 1], 53);
    let b = SocksAddr::V4([10, 0, 0, 2], 53);
    assert_eq!(first_resolved(&[a.clone(), b]).unwrap(), a);
    assert!(matches!(first_resolved(&[]), Err(UotError::ResolutionFailed)));
}

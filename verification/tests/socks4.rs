//! The SOCKS4 / 4a handshake.

use sc::addr::{Ipv4Addr, Ipv6Addr};
use sc::config::{Config, ProxyMethod, ResolveMode};
use sc::proxy::socks4::{begin, finish, maybe_resolve_destination, reply, resolved, Step};
use sc::proxy::util::Incoming;
use sc::resolve::SocketAddr;
use sc::Error;

fn socks4_config(host: &str, port: u16, resolve: ResolveMode) -> Config {
    let mut cfg = Config::default();
    cfg.relay_method = ProxyMethod::Socks;
    cfg.socks_version = 4;
    cfg.dest_host = host.into();
    cfg.dest_port = port;
    cfg.socks_resolve = resolve;
    cfg
}

fn request(cfg: &mut Config, user: &str) -> Vec<u8> {
    match begin(cfg, Some(user.to_string())) {
        Step::Exchange(bytes, 8) => bytes,
        other => panic!("got {other:?}"),
    }
}

#[test]
fn socks4_ipv4_handshake() {
    let mut cfg = socks4_config("1.2.3.4", 22, ResolveMode::Local);
    let req = request(&mut cfg, "a");
    assert_eq!(req.len(), 10);
    assert_eq!(req[0], 4);
    assert_eq!(req[1], 1);
    assert_eq!(u16::from_be_bytes([req[2], req[3]]), 22);
    assert_eq!(&req[4..8], &[1, 2, 3, 4]);
    assert_eq!(req[8], b'a');
    assert_eq!(req[9], 0);
    finish(&mut Incoming::new(vec![0x00, reply::SUCCEEDED, 0, 0, 0, 0, 0, 0])).unwrap();
}

#[test]
fn socks4a_handshake_appends_hostname() {
    let mut cfg = socks4_config("example.com", 443, ResolveMode::Remote);
    let mut s = Incoming::new(request(&mut cfg, "alice"));
    let hdr = s.read_exact(8).unwrap();
    assert_eq!(hdr[0], 4);
    assert_eq!(hdr[1], 1);
    assert_eq!(u16::from_be_bytes([hdr[2], hdr[3]]), 443);
    // ADDR field — should be 0.0.0.1 (SOCKS4a marker).
    assert_eq!(&hdr[4..8], &[0, 0, 0, 1]);
    assert_eq!(&s.read_exact(6).unwrap(), b"alice\0");
    assert_eq!(&s.read_exact(12).unwrap(), b"example.com\0");
    assert!(s.next_byte().is_none());
    finish(&mut Incoming::new(vec![0x00, reply::SUCCEEDED, 0, 0, 0, 0, 0, 0])).unwrap();
}

#[test]
fn socks4_reply_failure() {
    let err =
        finish(&mut Incoming::new(vec![0x00, reply::REJECTED, 0, 0, 0, 0, 0, 0])).unwrap_err();
    match err {
        Error::Socks4Reply(c) => assert_eq!(c, reply::REJECTED),
        _ => panic!("expected Socks4Reply"),
    }
}

#[test]
fn socks4_reply_is_exactly_eight_bytes() {
    let mut s = Incoming::new(vec![0, 0x5A, 1, 2, 3, 4, 5, 6, 0xAA]);
    finish(&mut s).unwrap();
    assert_eq!(s.read_exact(1).unwrap(), [0xAA]);
    let e = finish(&mut Incoming::new(vec![0, 0x5A, 1])).unwrap_err();
    assert_eq!(e.message(), "io: early eof");
    let e = finish(&mut Incoming::new(vec![0, reply::IDENT_FAILED, 0, 0, 0, 0, 0, 0])).unwrap_err();
    assert!(matches!(e, Error::Socks4Reply(0x5D)));
}

#[test]
fn both_counts_as_remote() {
    let mut cfg = socks4_config("example.com", 80, ResolveMode::Both);
    assert_eq!(request(&mut cfg, "u"), b"\x04\x01\x00\x50\x00\x00\x00\x01u\0example.com\0");
}

#[test]
fn a_local_name_is_resolved_to_ipv4() {
    let mut cfg = socks4_config("example.com", 80, ResolveMode::Local);
    let user = match begin(&mut cfg, Some("u".to_string())) {
        Step::Resolve(user) => user,
        other => panic!("got {other:?}"),
    };
    let v6 = SocketAddr::V6 {
        ip: Ipv6Addr::new([1, 0, 0, 0, 0, 0, 0, 2]),
        port: 80,
        flowinfo: 0,
        scope_id: 0,
    };
    let v4 = SocketAddr::V4 { ip: Ipv4Addr::new(93, 184, 216, 34), port: 80 };
    match resolved(&mut cfg, user, Ok(vec![v6, v4])) {
        Step::Exchange(bytes, 8) => {
            assert_eq!(bytes, b"\x04\x01\x00\x50\x5d\xb8\xd8\x22u\0")
        }
        other => panic!("got {other:?}"),
    }
    assert_eq!(cfg.dest_host, "93.184.216.34");

    let mut cfg = socks4_config("example.com", 80, ResolveMode::Local);
    let e = maybe_resolve_destination(&mut cfg, Ok(vec![v6])).unwrap_err();
    assert_eq!(e.message(), "DNS: no IPv4 address for example.com (SOCKS4 needs IPv4)");
    assert_eq!(cfg.dest_host, "example.com");
}

#[test]
fn oversized_names_are_refused() {
    let mut cfg = socks4_config("example.com", 80, ResolveMode::Remote);
    match begin(&mut cfg, Some("u".repeat(256))) {
        Step::Fail(e) => assert_eq!(e.message(), "config: SOCKS4 username too long"),
        other => panic!("got {other:?}"),
    }
    cfg.dest_host = "h".repeat(256);
    match begin(&mut cfg, Some("u".to_string())) {
        Step::Fail(e) => assert_eq!(e.message(), "config: SOCKS4 hostname too long"),
        other => panic!("got {other:?}"),
    }
    match begin(&mut cfg, None) {
        Step::Fail(e) => assert_eq!(e.message(), "auth: missing SOCKS4 user"),
        other => panic!("got {other:?}"),
    }
}

//! Received bytes and lines, connection numbers, messages.

use sc::addr::Ipv4Addr;
use sc::config::Config;
use sc::conn_id::ConnectionId;
use sc::log::{debug, error, fatal, level};
use sc::proxy::util::{read_crlf_line, Incoming};
use sc::switch_ns::apply;
use sc::Error;

#[test]
fn reads_two_lines_strips_cr() {
    let mut c = Incoming::new(b"hello\r\nworld\r\n".to_vec());
    let mut s = String::new();

    let eof = read_crlf_line(&mut c, &mut s).unwrap();
    assert!(!eof);
    assert_eq!(s, "hello");

    let eof = read_crlf_line(&mut c, &mut s).unwrap();
    assert!(!eof);
    assert_eq!(s, "world");
}

#[test]
fn eof_with_partial_line_reports_eof() {
    let mut c = Incoming::new(b"dangling".to_vec());
    let mut s = String::new();

    let eof = read_crlf_line(&mut c, &mut s).unwrap();
    assert!(eof);
    assert_eq!(s, "dangling");
}

#[test]
fn clean_eof_returns_empty_buf() {
    let mut c = Incoming::new(Vec::<u8>::new());
    let mut s = String::new();

    let eof = read_crlf_line(&mut c, &mut s).unwrap();
    assert!(eof);
    assert!(s.is_empty());
}

#[test]
fn bare_lf_terminates() {
    let mut c = Incoming::new(b"only-lf\n".to_vec());
    let mut s = String::new();

    let eof = read_crlf_line(&mut c, &mut s).unwrap();
    assert!(!eof);
    assert_eq!(s, "only-lf");
}

#[test]
fn what_follows_a_line_stays() {
    let mut c = Incoming::new(b"a\rb\xe4\r\n\x01\x02".to_vec());
    let mut s = "old".to_string();
    read_crlf_line(&mut c, &mut s).unwrap();
    assert_eq!(s, "ab\u{e4}");
    assert_eq!(c.read_exact(2).unwrap(), vec![1, 2]);
    assert!(c.next_byte().is_none());
}

#[test]
fn too_few_bytes_are_an_error() {
    let mut c = Incoming::new(vec![1, 2, 3]);
    assert_eq!(c.next_byte(), Some(1));
    let e = c.read_exact(3).unwrap_err();
    assert!(matches!(e, Error::Io(_)));
    assert_eq!(e.message(), "io: early eof");
    assert!(c.next_byte().is_none());
}

#[test]
fn connection_ids_are_unique_and_dense() {
    let mut counter = 0;
    let a = ConnectionId::next(&mut counter);
    let b = ConnectionId::next(&mut counter);
    let c = ConnectionId::next(&mut counter);
    assert_ne!(a, b);
    assert_ne!(b, c);
    assert_ne!(a, c);
    assert_eq!(b.0, a.0 + 1);
    assert_eq!(c.0, b.0 + 1);
}

#[test]
fn connection_ids_go_round() {
    let mut counter = u64::MAX;
    assert_eq!(ConnectionId::next(&mut counter), ConnectionId(u64::MAX));
    assert_eq!(counter, 0);
}

#[test]
fn lines_of_the_log() {
    let mut cfg = Config::default();
    assert_eq!(debug(&cfg, "m"), None);
    cfg.f_debug = 1;
    assert_eq!(debug(&cfg, "m").as_deref(), Some("[debug] m"));
    assert_eq!(error("m"), "[error] m");
    assert_eq!(fatal("m"), "[fatal] m");
    assert_eq!(level(0), "error");
    assert_eq!(level(1), "debug");
    assert_eq!(level(2), "trace");
    assert_eq!(level(255), "trace");
}

#[test]
fn nameserver_override() {
    let ip = Ipv4Addr::new(8, 8, 4, 1);
    let ns = apply(ip, 0).unwrap();
    assert_eq!(ns.octets, [8, 8, 4, 1]);
    assert_eq!(ns.message, "DEBUG: switch_ns using nameserver 8.8.4.1");
    assert_eq!(apply(ip, -1).unwrap_err().message(), "config: res_init failed: -1");
}

#[test]
fn messages_of_the_errors() {
    assert_eq!(Error::Socks5Reply(0x02).message(), "SOCKS5 reply code 0x02");
    assert_eq!(Error::Socks5Atyp(0x99).message(), "SOCKS5 ATYP 0x99");
    assert_eq!(Error::Socks5NoAuth.message(), "SOCKS5: no auth method accepted");
    assert_eq!(
        Error::Socks5UnsupportedMethod(1).message(),
        "SOCKS5: unsupported auth method 0x01"
    );
    assert_eq!(Error::Socks5AuthFailed.message(), "SOCKS5 authentication failed");
    assert_eq!(Error::Socks4Reply(0x5B).message(), "SOCKS4 reply code 91");
    assert_eq!(Error::HttpStatus(503).message(), "HTTP status 503");
    assert_eq!(Error::Http("bad status line").message(), "HTTP: bad status line");
    assert_eq!(Error::Telnet("no".to_string()).message(), "telnet: no");
    assert_eq!(Error::BadDefaultPort.message(), "connect-NNN basename port invalid");
    assert_eq!(Error::IdleTimeout(250).message(), "idle timeout after 250ms");
    assert_eq!(Error::Dns("h: no".to_string()).message(), "DNS: h: no");
}

//! The HTTP CONNECT handshake.

use sc::config::{Config, ProxyAuthType, ProxyMethod};
use sc::proxy::http::{begin, read_line, send_request, HttpStart, ReplyHead};
use sc::proxy::util::Incoming;
use sc::Error;

fn http_config() -> Config {
    Config {
        relay_method: ProxyMethod::Http,
        relay_host: Some("oldproxy.example.com".into()),
        relay_port: 3128,
        dest_host: "example.com".into(),
        dest_port: 443,
        ..Config::default()
    }
}

/// Feeds a reply; returns its head and how many bytes it took.
fn read_head(cfg: &Config, reply: &[u8]) -> (ReplyHead, usize) {
    let mut head = ReplyHead::new(cfg);
    let mut n = 0;
    while n < reply.len() && !head.complete {
        head.push(reply[n]);
        n += 1;
    }
    if !head.complete {
        head.end();
    }
    (head, n)
}

fn judge(cfg: &mut Config, reply: &[u8]) -> Result<HttpStart, Error> {
    let (head, _) = read_head(cfg, reply);
    begin(cfg, &head)
}

#[test]
fn read_line_basic() {
    let mut c = Incoming::new(b"hello\r\nworld\r\n".to_vec());
    let mut s = String::new();
    read_line(&mut c, &mut s).unwrap();
    assert_eq!(s, "hello");
    s.clear();
    read_line(&mut c, &mut s).unwrap();
    assert_eq!(s, "world");
}

#[test]
fn http_200_roundtrip() {
    let mut cfg = http_config();
    let sent = send_request(&cfg, None, None).unwrap();
    assert_eq!(sent, b"CONNECT example.com:443 HTTP/1.0\r\n\r\n");
    match judge(&mut cfg, b"HTTP/1.0 200 Connection established\r\n\r\n").unwrap() {
        HttpStart::Established => {}
        HttpStart::Retry => panic!("expected Established"),
    }
}

#[test]
fn http_302_redirect_updates_relay() {
    let mut cfg = http_config();
    let reply = b"HTTP/1.0 302 Found\r\nLocation: //newproxy.example.com:8080/path\r\n\r\n";
    match judge(&mut cfg, reply).unwrap() {
        HttpStart::Retry => {}
        HttpStart::Established => panic!("expected Retry"),
    }
    assert_eq!(cfg.relay_host.as_deref(), Some("newproxy.example.com"));
    assert_eq!(cfg.relay_port, 8080);
}

#[test]
fn redirect_may_have_a_scheme() {
    let mut cfg = http_config();
    judge(&mut cfg, b"HTTP/1.0 302 Found\r\nLocation: http://next:8080/\r\n\r\n").unwrap();
    assert_eq!(cfg.relay_host.as_deref(), Some("next"));
    assert_eq!(cfg.relay_port, 8080);
    judge(&mut cfg, b"HTTP/1.0 302 Found\r\nLocation: last:81/x\r\n\r\n").unwrap();
    assert_eq!(cfg.relay_host.as_deref(), Some("last"));
    assert_eq!(cfg.relay_port, 81);
}

#[test]
fn slashes_of_a_redirect_path_are_no_authority() {
    let mut cfg = http_config();
    judge(&mut cfg, b"HTTP/1.0 302 Found\r\nLocation: newproxy:8080/a//b\r\n\r\n").unwrap();
    assert_eq!(cfg.relay_host.as_deref(), Some("newproxy"));
    assert_eq!(cfg.relay_port, 8080);
    judge(&mut cfg, b"HTTP/1.0 302 Found\r\nLocation: next:81/a://b\r\n\r\n").unwrap();
    assert_eq!(cfg.relay_host.as_deref(), Some("next"));
    assert_eq!(cfg.relay_port, 81);
    judge(&mut cfg, b"HTTP/1.0 302 Found\r\nLocation: 1st://b:82\r\n\r\n").unwrap();
    assert_eq!(cfg.relay_host.as_deref(), Some("1st"));
    assert_eq!(cfg.relay_port, 81);
}

#[test]
fn redirect_without_a_port_keeps_the_port() {
    let mut cfg = http_config();
    judge(&mut cfg, b"HTTP/1.0 302 Found\r\nlocation:  //other/x\r\n\r\n").unwrap();
    assert_eq!(cfg.relay_host.as_deref(), Some("other"));
    assert_eq!(cfg.relay_port, 3128);
    judge(&mut cfg, b"HTTP/1.0 302 Found\r\nServer: x\r\n\r\n").unwrap();
    assert_eq!(cfg.relay_host.as_deref(), Some("other"));
}

#[test]
fn challenge_is_answered_once() {
    let mut cfg = http_config();
    let reply = b"HTTP/1.0 407 Denied\r\nProxy-Authenticate: BASIC realm=\"x\"\r\n\r\n";
    assert_eq!(judge(&mut cfg, reply).unwrap(), HttpStart::Retry);
    assert_eq!(cfg.proxy_auth, ProxyAuthType::Basic);
    let sent = send_request(&cfg, Some("alice"), Some("secret")).unwrap();
    assert_eq!(
        sent,
        b"CONNECT example.com:443 HTTP/1.0\r\nProxy-Authorization: Basic YWxpY2U6c2VjcmV0\r\n\r\n"
    );
    let e = judge(&mut cfg, reply).unwrap_err();
    assert_eq!(e.message(), "HTTP: authentication failed");
}

#[test]
fn credentials_in_base64_with_padding() {
    let mut cfg = http_config();
    cfg.proxy_auth = ProxyAuthType::Basic;
    let text = |u: &str, p: &str| {
        String::from_utf8(send_request(&cfg, Some(u), Some(p)).unwrap()).unwrap()
    };
    assert!(text("a", "b").contains("Basic YTpi\r\n"));
    assert!(text("a", "").contains("Basic YTo=\r\n"));
    assert!(text("", "").contains("Basic Og==\r\n"));
    assert!(text("\u{ff}", "\u{3ff}").contains("Basic w786z78=\r\n"));
}

#[test]
fn missing_credentials_are_refused() {
    let mut cfg = http_config();
    cfg.proxy_auth = ProxyAuthType::Basic;
    let e = send_request(&cfg, None, Some("p")).unwrap_err();
    assert_eq!(e.message(), "auth: missing proxy user");
    let e = send_request(&cfg, Some("u"), None).unwrap_err();
    assert_eq!(e.message(), "auth: no proxy password in env");
}

#[test]
fn challenge_without_basic_fails() {
    let mut cfg = http_config();
    let e = judge(&mut cfg, b"HTTP/1.0 401 No\r\nWWW-Authenticate: Digest\r\n\r\n").unwrap_err();
    assert_eq!(e.message(), "HTTP: no Basic auth in challenge");
    assert_eq!(cfg.proxy_auth, ProxyAuthType::NoAuth);
}

#[test]
fn other_statuses_fail() {
    let mut cfg = http_config();
    assert!(matches!(
        judge(&mut cfg, b"HTTP/1.0 503 Busy\r\n").unwrap_err(),
        Error::HttpStatus(503)
    ));
    for bad in [&b"\r\n"[..], b"", b"HTTP/1.0\r\n", b"HTTP/1.0 abc\r\n", b"HTTP/1.0 70000\r\n"] {
        let e = judge(&mut cfg, bad).unwrap_err();
        assert_eq!(e.message(), "HTTP: bad status line");
    }
}

#[test]
fn tunnel_bytes_are_not_taken() {
    let cfg = http_config();
    let reply = b"HTTP/1.0 200 OK\r\nVia: x\r\n\r\nSSH-2.0";
    let (head, n) = read_head(&cfg, reply);
    assert!(head.complete);
    assert_eq!(&reply[n..], b"SSH-2.0");
    assert_eq!(head.lines, vec!["HTTP/1.0 200 OK".to_string(), "Via: x".to_string()]);
}

#[test]
fn a_hard_status_needs_no_headers() {
    let cfg = http_config();
    let (head, n) = read_head(&cfg, b"HTTP/1.0 404 No\r\nmore");
    assert!(head.complete);
    assert_eq!(n, 17);
}

#[test]
fn a_stream_that_ends_ends_the_head() {
    let mut cfg = http_config();
    assert_eq!(judge(&mut cfg, b"HTTP/1.0 200 OK").unwrap(), HttpStart::Established);
    assert_eq!(
        judge(&mut cfg, b"HTTP/1.0 302 Found\nLocation: //h:9").unwrap(),
        HttpStart::Retry
    );
    assert_eq!(cfg.relay_host.as_deref(), Some("h"));
    assert_eq!(cfg.relay_port, 9);
}

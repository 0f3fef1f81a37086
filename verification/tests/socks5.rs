//! The SOCKS5 handshake, driven against a proxy that lives in memory.

use sc::addr::{Ipv4Addr, Ipv6Addr};
use sc::config::{Config, Family, ProxyMethod, ResolveMode};
use sc::proxy::socks5::auth::{do_userpass, read_userpass_reply};
use sc::proxy::socks5::handshake::{method, read_method_reply, write_greeting};
use sc::proxy::socks5::request::{atyp, connect_reply_needs, read_connect_reply, write_connect};
use sc::proxy::socks5::{
    advance, begin, maybe_resolve_destination, parse_auth_list, Event, Step,
};
use sc::proxy::util::Incoming;
use sc::resolve::SocketAddr;
use sc::Error;

// ---- Greeting ----

#[test]
fn greeting_round_trip() {
    let mut sent = Vec::new();
    write_greeting(&mut sent, &[method::NOAUTH, method::USERPASS]).unwrap();
    let mut b = Incoming::new(sent);
    assert_eq!(b.read_exact(2).unwrap(), [0x05, 0x02]);
    assert_eq!(b.read_exact(2).unwrap(), [method::NOAUTH, method::USERPASS]);
    assert!(b.next_byte().is_none());
}

#[test]
fn reply_is_exactly_two_bytes() {
    let mut a = Incoming::new(vec![0x05, method::NOAUTH, 0xAA]);
    let chosen = read_method_reply(&mut a).unwrap();
    assert_eq!(chosen, method::NOAUTH);
    assert_eq!(a.read_exact(1).unwrap(), [0xAA]);
}

#[test]
fn reply_ff_is_no_auth_error() {
    let err = read_method_reply(&mut Incoming::new(vec![0x05, 0xFF])).unwrap_err();
    assert!(matches!(err, Error::Socks5NoAuth), "got {err:?}");
}

#[test]
fn reply_bad_version_is_config_error() {
    let err = read_method_reply(&mut Incoming::new(vec![0x04, method::NOAUTH])).unwrap_err();
    assert!(matches!(err, Error::Config(_)), "got {err:?}");
    assert_eq!(err.message(), "config: SOCKS5 method reply VER=4");
}

#[test]
fn too_many_methods_are_refused() {
    let mut sent = Vec::new();
    let err = write_greeting(&mut sent, &[0u8; 256]).unwrap_err();
    assert_eq!(err.message(), "config: SOCKS5 too many auth methods");
    assert!(sent.is_empty());
    write_greeting(&mut sent, &[0u8; 255]).unwrap();
    assert_eq!(sent.len(), 257);
    assert_eq!(sent[1], 255);
}

#[test]
fn parse_auth_list_defaults() {
    assert_eq!(parse_auth_list("none"), vec![method::NOAUTH]);
    assert_eq!(parse_auth_list("none,userpass"), vec![method::NOAUTH, method::USERPASS]);
    assert_eq!(parse_auth_list("userpass"), vec![method::USERPASS]);
    assert!(parse_auth_list("gssapi,chap,unknown").is_empty());
}

#[test]
fn auth_list_words_in_any_case() {
    assert_eq!(
        parse_auth_list(" NoAuth , no-auth,User-Password,user/pasword,password,,x"),
        vec![0, 0, 2, 2, 2]
    );
}

// ---- Subnegotiation ----

#[test]
fn request_frame_length_formula() {
    let user = b"alice";
    let pass = b"s3cret";
    let expected = 1 + 1 + user.len() + 1 + pass.len();
    assert_eq!(expected, 14); // VER(1) + ULEN(1) + "alice"(5) + PLEN(1) + "s3cret"(6)

    let mut sent = Vec::new();
    do_userpass(&mut sent, &Some("alice".to_string()), "s3cret").unwrap();
    assert_eq!(sent.len(), expected);
    assert_eq!(sent, b"\x01\x05alice\x06s3cret");
}

#[test]
fn oversized_user_or_password_is_above_byte_limit() {
    let long = "x".repeat(256);
    assert!(long.len() > 255);

    let mut sent = Vec::new();
    let e = do_userpass(&mut sent, &Some(long.clone()), "p").unwrap_err();
    assert_eq!(e.message(), "config: SOCKS5 username/password too long");
    let e = do_userpass(&mut sent, &Some("u".to_string()), &long).unwrap_err();
    assert_eq!(e.message(), "config: SOCKS5 username/password too long");
    assert!(sent.is_empty());
    do_userpass(&mut sent, &Some("u".to_string()), &long[1..]).unwrap();
    assert_eq!(sent.len(), 1 + 1 + 1 + 1 + 255);
}

#[test]
fn a_missing_user_is_refused() {
    let e = do_userpass(&mut Vec::new(), &None, "p").unwrap_err();
    assert_eq!(e.message(), "auth: missing SOCKS5 user");
}

#[test]
fn subnegotiation_status() {
    assert!(read_userpass_reply(&mut Incoming::new(vec![1, 0])).is_ok());
    for bad in [[1, 1], [0, 0], [5, 0]] {
        let e = read_userpass_reply(&mut Incoming::new(bad.to_vec())).unwrap_err();
        assert!(matches!(e, Error::Socks5AuthFailed));
    }
}

// ---- CONNECT ----

fn request_to(host: &str, port: u16) -> Vec<u8> {
    let mut cfg = Config::default();
    cfg.dest_host = host.to_string();
    cfg.dest_port = port;
    let mut sent = Vec::new();
    write_connect(&mut sent, &cfg).unwrap();
    sent
}

#[test]
fn request_address_types() {
    assert_eq!(request_to("1.2.3.4", 443), [5, 1, 0, atyp::IPV4, 1, 2, 3, 4, 1, 0xBB]);
    let mut v6 = vec![5, 1, 0, atyp::IPV6];
    v6.extend([0x20, 0x01, 0x0d, 0xb8, 0, 0, 0, 0, 0, 0, 0, 0, 0, 0, 0, 1]);
    v6.extend([0, 22]);
    assert_eq!(request_to("2001:db8::1", 22), v6);
    let mut name = vec![5, 1, 0, atyp::DOMAINNAME, 11];
    name.extend(b"example.com");
    name.extend([0x04, 0x38]);
    assert_eq!(request_to("example.com", 1080), name);
}

#[test]
fn request_to_a_long_name_is_refused() {
    let mut cfg = Config::default();
    cfg.dest_host = "h".repeat(256);
    let mut sent = Vec::new();
    let e = write_connect(&mut sent, &cfg).unwrap_err();
    assert_eq!(
        e.message(),
        format!("config: SOCKS5 destination hostname too long: {}", cfg.dest_host)
    );
    assert!(sent.is_empty());
    cfg.dest_host.pop();
    write_connect(&mut sent, &cfg).unwrap();
    assert_eq!(sent.len(), 4 + 1 + 255 + 2);
}

#[test]
fn reply_with_nonzero_rep_errors() {
    let mut a = Incoming::new(vec![0x05, 0x02, 0x00, atyp::IPV4, 0, 0, 0, 0, 0, 0]);
    let err = read_connect_reply(&mut a).unwrap_err();
    assert!(matches!(err, Error::Socks5Reply(0x02)), "got {err:?}");
}

#[test]
fn reply_unknown_atyp_errors() {
    let mut a = Incoming::new(vec![0x05, 0x00, 0x00, 0x99]);
    let err = read_connect_reply(&mut a).unwrap_err();
    assert!(matches!(err, Error::Socks5Atyp(0x99)), "got {err:?}");
}

#[test]
fn reply_domainname_consumes_variable_tail() {
    // name = "x", port = 1080 → tail = 1 (len) + 1 (name) + 2 (port) = 4.
    let mut a =
        Incoming::new(vec![0x05, 0x00, 0x00, atyp::DOMAINNAME, 1, b'x', 0x04, 0x38, 0xAA]);
    read_connect_reply(&mut a).unwrap();
    assert_eq!(a.read_exact(1).unwrap(), [0xAA]);
}

#[test]
fn reply_ipv4_consumes_six_tail_bytes() {
    let mut a = Incoming::new(vec![0x05, 0x00, 0x00, atyp::IPV4, 0, 0, 0, 0, 0, 0, 0xBB]);
    read_connect_reply(&mut a).unwrap();
    assert_eq!(a.read_exact(1).unwrap(), [0xBB]);
}

#[test]
fn reply_ipv6_consumes_eighteen_tail_bytes() {
    let mut frame = vec![0x05, 0x00, 0x00, atyp::IPV6];
    frame.extend(std::iter::repeat(0u8).take(16)); // 16-byte addr
    frame.extend_from_slice(&[0, 0]); // port
    frame.push(0xCC); // sentinel
    let mut a = Incoming::new(frame);
    read_connect_reply(&mut a).unwrap();
    assert_eq!(a.read_exact(1).unwrap(), [0xCC]);
}

#[test]
fn reply_of_another_version_errors() {
    let e = read_connect_reply(&mut Incoming::new(vec![4, 0, 0, 1])).unwrap_err();
    assert_eq!(e.message(), "config: SOCKS5 reply VER=4");
    let e = read_connect_reply(&mut Incoming::new(vec![5, 0, 0, 1, 0])).unwrap_err();
    assert_eq!(e.message(), "io: early eof");
}

#[test]
fn replies_are_asked_for_piece_by_piece() {
    assert_eq!(connect_reply_needs(&vec![]), 4);
    assert_eq!(connect_reply_needs(&vec![5, 0, 0]), 1);
    assert_eq!(connect_reply_needs(&vec![5, 0, 0, atyp::IPV4]), 6);
    assert_eq!(connect_reply_needs(&vec![5, 0, 0, atyp::IPV6]), 18);
    assert_eq!(connect_reply_needs(&vec![5, 0, 0, atyp::DOMAINNAME]), 1);
    assert_eq!(connect_reply_needs(&vec![5, 0, 0, atyp::DOMAINNAME, 9]), 11);
    assert_eq!(connect_reply_needs(&vec![5, 7, 0, atyp::IPV4]), 0);
    assert_eq!(connect_reply_needs(&vec![5, 0, 0, 0x99]), 0);
}

// ---- Resolution ----

fn local(host: &str) -> Config {
    let mut cfg = Config::default();
    cfg.socks_resolve = ResolveMode::Local;
    cfg.dest_host = host.to_string();
    cfg.dest_port = 22;
    cfg
}

#[test]
fn destination_becomes_the_first_address() {
    let v6 = SocketAddr::V6 {
        ip: Ipv6Addr::new([0xfe80, 0, 0, 0, 0, 0, 0, 9]),
        port: 22,
        flowinfo: 0,
        scope_id: 0,
    };
    let v4 = SocketAddr::V4 { ip: Ipv4Addr::new(10, 0, 0, 7), port: 22 };
    let mut cfg = local("host");
    maybe_resolve_destination(&mut cfg, Ok(vec![v6, v4])).unwrap();
    assert_eq!(cfg.dest_host, "fe80::9");
    let mut cfg = local("host");
    maybe_resolve_destination(&mut cfg, Ok(vec![v4, v6])).unwrap();
    assert_eq!(cfg.dest_host, "10.0.0.7");
}

#[test]
fn numeric_or_remote_destinations_stay() {
    let mut cfg = local("::1");
    maybe_resolve_destination(&mut cfg, Err(Error::Dns("unused".to_string()))).unwrap();
    assert_eq!(cfg.dest_host, "::1");
    let mut cfg = local("host");
    cfg.socks_resolve = ResolveMode::Remote;
    maybe_resolve_destination(&mut cfg, Err(Error::Dns("unused".to_string()))).unwrap();
    assert_eq!(cfg.dest_host, "host");
}

#[test]
fn destination_without_address_fails() {
    let mut cfg = local("host");
    let e = maybe_resolve_destination(&mut cfg, Ok(Vec::new())).unwrap_err();
    assert_eq!(e.message(), "DNS: no addresses for host");
    let e = maybe_resolve_destination(&mut cfg, Err(Error::Dns("x".to_string()))).unwrap_err();
    assert_eq!(e.message(), "DNS: x");
    assert_eq!(cfg.dest_host, "host");
}

// ---- End to end ----

/// A proxy in memory: it answers what it is sent.
struct FakeProxy {
    require_userpass: bool,
    chosen: Option<u8>,
    authenticated: bool,
    target: Option<(Vec<u8>, u16)>,
    out: Vec<u8>,
}

impl FakeProxy {
    fn new(require_userpass: bool) -> Self {
        FakeProxy {
            require_userpass,
            chosen: None,
            authenticated: false,
            target: None,
            out: Vec::new(),
        }
    }

    fn take(&mut self, bytes: &[u8]) {
        if self.chosen.is_none() {
            assert_eq!(bytes[0], 0x05);
            let methods = &bytes[2..];
            assert_eq!(bytes[1] as usize, methods.len());
            let chosen = if self.require_userpass {
                if methods.contains(&0x02) { 0x02 } else { 0xFF }
            } else if methods.contains(&0x00) {
                0x00
            } else {
                0x02
            };
            self.chosen = Some(chosen);
            self.out.extend([0x05, chosen]);
        } else if self.chosen == Some(0x02) && !self.authenticated {
            assert_eq!(bytes[0], 0x01);
            let n = bytes[1] as usize;
            let user = &bytes[2..2 + n];
            let m = bytes[2 + n] as usize;
            let pass = &bytes[3 + n..];
            assert_eq!(pass.len(), m);
            self.authenticated = user == b"bob" && pass == b"s3cret";
            self.out.extend([0x01, if self.authenticated { 0x00 } else { 0x01 }]);
        } else {
            assert_eq!(&bytes[..3], [0x05, 0x01, 0x00]);
            let (host, rest) = match bytes[3] {
                0x01 => {
                    let a = &bytes[4..8];
                    (format!("{}.{}.{}.{}", a[0], a[1], a[2], a[3]).into_bytes(), &bytes[8..])
                }
                0x03 => {
                    let n = bytes[4] as usize;
                    (bytes[5..5 + n].to_vec(), &bytes[5 + n..])
                }
                other => panic!("address type {other}"),
            };
            assert_eq!(rest.len(), 2);
            self.target = Some((host, u16::from_be_bytes([rest[0], rest[1]])));
            self.out.extend([0x05, 0x00, 0x00, 0x01, 0, 0, 0, 0, 0, 0]);
        }
    }

    fn give(&mut self, n: usize) -> Vec<u8> {
        let n = n.min(self.out.len());
        self.out.drain(..n).collect()
    }
}

fn run(cfg: &mut Config, proxy: &mut FakeProxy, password: &str) -> Result<(), Error> {
    let mut step = begin(cfg);
    loop {
        step = match step {
            Step::Exchange(stage, bytes, n) => {
                proxy.take(&bytes);
                let got = proxy.give(n);
                advance(stage, Event::Received(got), cfg)
            }
            Step::Receive(stage, n) => {
                let got = proxy.give(n);
                advance(stage, Event::Received(got), cfg)
            }
            Step::Ask(stage) => {
                let user = cfg.relay_user.clone();
                advance(stage, Event::Credentials(user, password.to_string()), cfg)
            }
            Step::Resolve(stage) => {
                let addr = SocketAddr::V4 { ip: Ipv4Addr::new(127, 0, 0, 1), port: cfg.dest_port };
                advance(stage, Event::Resolved(Ok(vec![addr])), cfg)
            }
            Step::Done => return Ok(()),
            Step::Fail(e) => return Err(e),
        };
    }
}

fn socks5_config_noauth() -> Config {
    let mut cfg = Config::default();
    cfg.relay_method = ProxyMethod::Socks;
    cfg.relay_host = Some("127.0.0.1".into());
    cfg.relay_port = 1080;
    cfg.socks_version = 5;
    cfg.socks_resolve = ResolveMode::Remote;
    cfg.dest_host = "127.0.0.1".into();
    cfg.dest_port = 7777;
    cfg.family = Family::Any;
    cfg
}

fn socks5_config_userpass() -> Config {
    let mut cfg = socks5_config_noauth();
    cfg.relay_user = Some("bob".into());
    cfg.socks5_auth = Some("userpass".into());
    cfg
}

#[test]
fn end_to_end_noauth_round_trips_payload() {
    let mut proxy = FakeProxy::new(false);
    let mut cfg = socks5_config_noauth();
    run(&mut cfg, &mut proxy, "ignored").expect("NOAUTH handshake should succeed");
    assert_eq!(proxy.target, Some((b"127.0.0.1".to_vec(), 7777)));
    assert_eq!(proxy.chosen, Some(0x00));
    // Nothing of the tunnel was taken by the handshake.
    assert!(proxy.out.is_empty());
}

#[test]
fn end_to_end_userpass_success_round_trips_payload() {
    let mut proxy = FakeProxy::new(true);
    let mut cfg = socks5_config_userpass();
    run(&mut cfg, &mut proxy, "s3cret")
        .expect("USERPASS handshake should succeed with valid credentials");
    assert!(proxy.authenticated);
    assert_eq!(proxy.target, Some((b"127.0.0.1".to_vec(), 7777)));
    assert!(proxy.out.is_empty());
}

#[test]
fn end_to_end_userpass_bad_credentials_are_rejected() {
    let mut proxy = FakeProxy::new(true);
    let mut cfg = socks5_config_userpass();
    let err = run(&mut cfg, &mut proxy, "wrong").expect_err("bad credentials must be rejected");
    assert!(matches!(err, Error::Socks5AuthFailed), "got {err:?}");
}

#[test]
fn end_to_end_no_acceptable_method_is_rejected() {
    let mut proxy = FakeProxy::new(true);
    let mut cfg = socks5_config_noauth();
    cfg.socks5_auth = Some("none".into());
    let err = run(&mut cfg, &mut proxy, "").expect_err("no acceptable method must be rejected");
    assert!(matches!(err, Error::Socks5NoAuth), "got {err:?}");
}

#[test]
fn a_local_name_is_resolved_before_the_request() {
    let mut proxy = FakeProxy::new(false);
    let mut cfg = socks5_config_noauth();
    cfg.socks_resolve = ResolveMode::Local;
    cfg.dest_host = "localhost".into();
    run(&mut cfg, &mut proxy, "").unwrap();
    assert_eq!(cfg.dest_host, "127.0.0.1");
    assert_eq!(proxy.target, Some((b"127.0.0.1".to_vec(), 7777)));
}

#[test]
fn a_name_is_left_to_the_proxy() {
    let mut proxy = FakeProxy::new(false);
    let mut cfg = socks5_config_noauth();
    cfg.dest_host = "internal.example.com".into();
    run(&mut cfg, &mut proxy, "").unwrap();
    assert_eq!(proxy.target, Some((b"internal.example.com".to_vec(), 7777)));
}

#[test]
fn an_unsupported_method_is_rejected() {
    let mut cfg = socks5_config_noauth();
    let stage = match begin(&cfg) {
        Step::Exchange(stage, bytes, 2) => {
            assert_eq!(bytes, [5, 2, 0, 2]);
            stage
        }
        other => panic!("got {other:?}"),
    };
    match advance(stage, Event::Received(vec![5, 1]), &mut cfg) {
        Step::Fail(e) => assert!(matches!(e, Error::Socks5UnsupportedMethod(1))),
        other => panic!("got {other:?}"),
    }
}

#[test]
fn only_unknown_methods_offer_noauth() {
    let mut cfg = socks5_config_noauth();
    cfg.socks5_auth = Some("gssapi".into());
    match begin(&cfg) {
        Step::Exchange(_, bytes, 2) => assert_eq!(bytes, [5, 1, 0]),
        other => panic!("got {other:?}"),
    }
}

#[test]
fn a_failed_exchange_ends_the_handshake() {
    let mut cfg = socks5_config_noauth();
    let stage = match begin(&cfg) {
        Step::Exchange(stage, _, _) => stage,
        other => panic!("got {other:?}"),
    };
    match advance(stage, Event::Failed(Error::Io("reset".to_string())), &mut cfg) {
        Step::Fail(e) => assert_eq!(e.message(), "io: reset"),
        other => panic!("got {other:?}"),
    }
    let stage = match begin(&cfg) {
        Step::Exchange(stage, _, _) => stage,
        other => panic!("got {other:?}"),
    };
    match advance(stage, Event::Received(vec![5]), &mut cfg) {
        Step::Fail(e) => assert_eq!(e.message(), "io: early eof"),
        other => panic!("got {other:?}"),
    }
}

#[test]
fn an_event_out_of_step_ends_the_handshake() {
    let mut cfg = socks5_config_noauth();
    let stage = match begin(&cfg) {
        Step::Exchange(stage, _, _) => stage,
        other => panic!("got {other:?}"),
    };
    let event = Event::Credentials(Some("u".to_string()), "p".to_string());
    match advance(stage, event, &mut cfg) {
        Step::Fail(e) => assert_eq!(e.message(), "io: event out of step"),
        other => panic!("got {other:?}"),
    }
}

//! Opening a connection, the relay, listening, and resolution.

use sc::addr::{read_ipv4, read_ipv6, IpAddr, Ipv4Addr, Ipv6Addr};
use sc::config::{Config, Family, LocalType, ProxyMethod};
use sc::listen::{accept_loop, idle_timeout, remote_alive, ListenStep, Peek};
use sc::proxy::http::HttpStart;
use sc::proxy::{
    connect_relay, connect_with_timeout, handshake, is_timed, open_through_proxy, proceed, telnet,
    time_limit, Handshake, OpenEvent, OpenStep,
};
use sc::relay::{relay, Direction, RelayAction, RelayEvent, RelayState};
use sc::resolve::{needs_lookup, resolve_host, SocketAddr};
use sc::Error;

// ---- Opening ----

#[test]
fn connect_with_timeout_fires_on_hanging_future() {
    assert_eq!(time_limit(1), Some(1));
    let result: Result<(), Error> = connect_with_timeout(1, None);
    assert!(
        matches!(result, Err(Error::Config(ref m)) if m == "connect timeout after 1s"),
        "got {result:?}"
    );
}

#[test]
fn connect_with_timeout_zero_passes_through() {
    assert_eq!(time_limit(0), None);
    let result: Result<(), Error> =
        connect_with_timeout(0, Some(Err(Error::Config("sentinel".into()))));
    assert!(
        matches!(result, Err(Error::Config(ref m)) if m == "sentinel"),
        "got {result:?}"
    );
    assert_eq!(connect_with_timeout(5, Some(Ok(7))).unwrap(), 7);
}

#[test]
fn open_through_proxy_direct_mode_connects() {
    let cfg = Config {
        relay_method: ProxyMethod::Direct,
        dest_host: "127.0.0.1".into(),
        dest_port: 7777,
        connect_timeout: 0,
        ..Config::default()
    };
    match open_through_proxy(&cfg) {
        OpenStep::Connect(host, port) => {
            assert_eq!(host, "127.0.0.1");
            assert_eq!(port, 7777);
        }
        other => panic!("got {other:?}"),
    }
    assert!(matches!(proceed(&cfg, OpenEvent::Connected), OpenStep::Ready));
}

#[test]
fn open_through_proxy_returns_fast_failure_when_kernel_rsts() {
    let cfg = Config {
        relay_method: ProxyMethod::Direct,
        dest_host: "127.0.0.1".into(),
        dest_port: 7777,
        connect_timeout: 5,
        ..Config::default()
    };
    assert!(is_timed(&open_through_proxy(&cfg)));
    match proceed(&cfg, OpenEvent::Failed(Error::Io("Connection refused".to_string()))) {
        OpenStep::Fail(e) => assert_eq!(e.message(), "io: Connection refused"),
        other => panic!("got {other:?}"),
    }
}

#[test]
fn a_timeout_is_reported_with_its_seconds() {
    let cfg = Config {
        relay_method: ProxyMethod::Socks,
        relay_host: Some("unreachable".into()),
        connect_timeout: 1,
        ..Config::default()
    };
    match proceed(&cfg, OpenEvent::TimedOut) {
        OpenStep::Fail(e) => assert_eq!(e.message(), "config: connect timeout after 1s"),
        other => panic!("got {other:?}"),
    }
}

#[test]
fn a_proxy_is_connected_to_before_its_handshake() {
    let mut cfg = Config {
        relay_method: ProxyMethod::Socks,
        relay_host: Some("proxy".into()),
        relay_port: 1080,
        dest_host: "dest".into(),
        dest_port: 22,
        ..Config::default()
    };
    match open_through_proxy(&cfg) {
        OpenStep::Connect(host, port) => assert_eq!((host.as_str(), port), ("proxy", 1080)),
        other => panic!("got {other:?}"),
    }
    let step = proceed(&cfg, OpenEvent::Connected);
    assert!(matches!(step, OpenStep::Shake(Handshake::Socks5)));
    assert!(!is_timed(&step));
    cfg.socks_version = 4;
    assert!(matches!(proceed(&cfg, OpenEvent::Connected), OpenStep::Shake(Handshake::Socks4)));
    assert!(matches!(proceed(&cfg, OpenEvent::Shaken), OpenStep::Ready));

    cfg.relay_method = ProxyMethod::Telnet;
    let step = proceed(&cfg, OpenEvent::Connected);
    assert!(matches!(step, OpenStep::Shake(Handshake::Telnet)));
    assert!(is_timed(&step));
    assert_eq!(handshake(&cfg), Handshake::Telnet);
}

#[test]
fn http_reconnects_on_retry() {
    let cfg = Config {
        relay_method: ProxyMethod::Http,
        relay_host: Some("next".into()),
        relay_port: 8080,
        ..Config::default()
    };
    assert_eq!(handshake(&cfg), Handshake::Nothing);
    assert!(matches!(proceed(&cfg, OpenEvent::Connected), OpenStep::HttpAttempt));
    match proceed(&cfg, OpenEvent::Http(HttpStart::Retry)) {
        OpenStep::Connect(host, port) => assert_eq!((host.as_str(), port), ("next", 8080)),
        other => panic!("got {other:?}"),
    }
    assert!(matches!(
        proceed(&cfg, OpenEvent::Http(HttpStart::Established)),
        OpenStep::Ready
    ));
}

#[test]
fn nothing_to_connect_to() {
    let mut cfg = Config::default();
    match open_through_proxy(&cfg) {
        OpenStep::Fail(e) => assert_eq!(e.message(), "config: no proxy method"),
        other => panic!("got {other:?}"),
    }
    cfg.relay_method = ProxyMethod::Http;
    match open_through_proxy(&cfg) {
        OpenStep::Fail(e) => assert_eq!(e.message(), "config: no relay host set"),
        other => panic!("got {other:?}"),
    }
    assert!(connect_relay(&cfg).is_err());
}

#[test]
fn telnet_command_is_expanded() {
    assert_eq!(telnet::expand("open %h %p", "h.example", 22), "open h.example 22");
    assert_eq!(telnet::expand("%p%h%x%", "%p", 1), "1%p%x%");
    assert_eq!(telnet::expand("", "h", 1), "");
    let mut cfg = Config::default();
    cfg.dest_host = "h".into();
    cfg.dest_port = 23;
    assert_eq!(telnet::begin(&cfg), b"telnet h 23\r\n");
    cfg.telnet_command = Some("c %h:%p".into());
    assert_eq!(telnet::begin(&cfg), b"c h:23\r\n");
}

// ---- Relay ----

#[test]
fn idle_timeout_resets_on_activity() {
    let mut state = RelayState::Open;
    let mut received = Vec::new();
    for _ in 0..10 {
        let event = RelayEvent::Data(Direction::LocalToRemote, b"x".to_vec());
        let (next, action) = relay(state, event, false, Some(250));
        match action {
            RelayAction::Forward(Direction::LocalToRemote, b) => received.extend(b),
            other => panic!("active connection was killed: {other:?}"),
        }
        state = next;
    }
    assert_eq!(received.len(), 10, "all 10 bytes should have been pumped through");
    assert_eq!(state, RelayState::Open);
}

#[test]
fn idle_timeout_fires_when_silent() {
    let (state, action) =
        relay(RelayState::Open, RelayEvent::Idle(Direction::RemoteToLocal), false, Some(100));
    assert_eq!(state, RelayState::Finished);
    match action {
        RelayAction::Report(Error::IdleTimeout(ms)) => assert_eq!(ms, 100),
        other => panic!("silent connection should have hit the idle timeout: {other:?}"),
    }
}

#[test]
fn disabled_idle_timeout_never_fires() {
    let mut cfg = Config::default();
    assert_eq!(idle_timeout(&cfg), None);
    cfg.read_timeout_ms = 300;
    assert_eq!(idle_timeout(&cfg), Some(300));
    for d in [Direction::LocalToRemote, Direction::RemoteToLocal] {
        let (state, action) = relay(RelayState::Open, RelayEvent::Idle(d), false, None);
        assert_eq!(state, RelayState::Open, "with idle disabled the pump must keep waiting");
        assert!(matches!(action, RelayAction::Nothing));
    }
}

#[test]
fn local_eof_half_closes_and_drains() {
    let (state, action) =
        relay(RelayState::Open, RelayEvent::Eof(Direction::LocalToRemote), false, None);
    assert_eq!(state, RelayState::Draining);
    assert!(matches!(action, RelayAction::HalfCloseRemote));
    let (state, action) =
        relay(state, RelayEvent::Data(Direction::RemoteToLocal, vec![1, 2]), false, None);
    assert!(matches!(action, RelayAction::Forward(Direction::RemoteToLocal, b) if b == [1, 2]));
    let (state, action) = relay(state, RelayEvent::Eof(Direction::RemoteToLocal), false, None);
    assert_eq!(state, RelayState::Finished);
    assert!(matches!(action, RelayAction::CloseLocal));
    let (state, action) =
        relay(state, RelayEvent::Data(Direction::RemoteToLocal, vec![3]), false, None);
    assert_eq!(state, RelayState::Finished);
    assert!(matches!(action, RelayAction::Nothing));
}

#[test]
fn local_eof_with_hold_leaves_the_remote() {
    let (state, action) =
        relay(RelayState::Open, RelayEvent::Eof(Direction::LocalToRemote), true, None);
    assert_eq!(state, RelayState::Finished);
    assert!(matches!(action, RelayAction::Nothing));
}

#[test]
fn a_failed_local_side_drains_the_remote() {
    let event = RelayEvent::Failed(Direction::LocalToRemote, "broken".to_string());
    let (state, action) = relay(RelayState::Open, event, false, None);
    assert_eq!(state, RelayState::Draining);
    match action {
        RelayAction::Report(e) => assert_eq!(e.message(), "io: broken"),
        other => panic!("got {other:?}"),
    }
}

// ---- Listening ----

#[test]
fn listen_mode_binds_and_accepts() {
    let cfg = Config {
        relay_method: ProxyMethod::Direct,
        dest_host: "127.0.0.1".into(),
        dest_port: 7777,
        local_type: LocalType::Socket(5550),
        ..Config::default()
    };
    let plan = accept_loop(&cfg).unwrap();
    assert_eq!(plan.port, 5550);
    assert!(!plan.hold);
    assert_eq!(plan.first(), ListenStep::Accept);
    assert_eq!(plan.next(ListenStep::Accept, true), ListenStep::Open);
    assert_eq!(plan.next(ListenStep::Open, true), ListenStep::Relay);
    assert_eq!(plan.next(ListenStep::Relay, true), ListenStep::Stop);
}

#[test]
fn listen_mode_connect_timeout_is_honoured() {
    let cfg = Config {
        relay_method: ProxyMethod::Direct,
        dest_host: "127.0.0.1".into(),
        dest_port: 7777,
        local_type: LocalType::Stdio,
        connect_timeout: 30,
        ..Config::default()
    };
    assert!(is_timed(&open_through_proxy(&cfg)));
    assert_eq!(time_limit(cfg.connect_timeout), Some(30));
    let e = accept_loop(&cfg).unwrap_err();
    assert_eq!(e.message(), "config: listen mode called without -p/-P");
}

#[test]
fn holding_opens_the_remote_once() {
    let cfg = Config {
        local_type: LocalType::Socket(1),
        f_hold_session: true,
        ..Config::default()
    };
    let plan = accept_loop(&cfg).unwrap();
    let mut step = plan.first();
    let mut steps = vec![step];
    for alive in [true, true, true, true, true, true, false, false] {
        step = plan.next(step, alive);
        steps.push(step);
    }
    assert_eq!(
        steps,
        vec![
            ListenStep::Open,
            ListenStep::Accept,
            ListenStep::Relay,
            ListenStep::Probe,
            ListenStep::Accept,
            ListenStep::Relay,
            ListenStep::Probe,
            ListenStep::Stop,
            ListenStep::Stop,
        ]
    );
}

#[test]
fn a_closed_remote_is_not_alive() {
    assert!(remote_alive(Peek::Pending));
    assert!(remote_alive(Peek::Data));
    assert!(!remote_alive(Peek::Eof));
    assert!(!remote_alive(Peek::Failed));
}

// ---- Resolution ----

fn v4(d: u8) -> SocketAddr {
    SocketAddr::V4 { ip: Ipv4Addr::new(10, 0, 0, d), port: 80 }
}

fn v6(d: u16) -> SocketAddr {
    SocketAddr::V6 {
        ip: Ipv6Addr::new([0x2001, 0xdb8, 0, 0, 0, 0, 0, d]),
        port: 80,
        flowinfo: 0,
        scope_id: 0,
    }
}

fn names(r: Result<Vec<SocketAddr>, Error>) -> Vec<String> {
    r.unwrap().iter().map(|a| a.ip().to_text()).collect()
}

#[test]
fn one_address_of_each_family() {
    let answers = || Ok(vec![v4(1), v4(2), v6(3), v6(4)]);
    assert!(needs_lookup("host"));
    assert_eq!(names(resolve_host("host", 80, Family::Any, answers())), ["10.0.0.1", "2001:db8::3"]);
    assert_eq!(names(resolve_host("host", 80, Family::V4, answers())), ["10.0.0.1"]);
    assert_eq!(names(resolve_host("host", 80, Family::V6, answers())), ["2001:db8::3"]);
    let answers = Ok(vec![v6(9), v4(8)]);
    assert_eq!(names(resolve_host("host", 80, Family::Any, answers)), ["2001:db8::9", "10.0.0.8"]);
}

#[test]
fn a_numeric_host_is_its_own_answer() {
    assert!(!needs_lookup("1.2.3.4"));
    assert!(!needs_lookup("::1"));
    let unused = || Err("not looked up".to_string());
    match resolve_host("1.2.3.4", 81, Family::Any, unused()).unwrap()[..] {
        [SocketAddr::V4 { ip, port }] => {
            assert_eq!(ip, Ipv4Addr::new(1, 2, 3, 4));
            assert_eq!(port, 81);
        }
        ref other => panic!("got {other:?}"),
    }
    assert_eq!(names(resolve_host("::1", 80, Family::V6, unused())), ["::1"]);
    let e = resolve_host("1.2.3.4", 80, Family::V6, unused()).unwrap_err();
    assert_eq!(e.message(), "DNS: no IPv6 addresses for 1.2.3.4");
    let e = resolve_host("::1", 80, Family::V4, unused()).unwrap_err();
    assert_eq!(e.message(), "DNS: no IPv4 addresses for ::1");
}

#[test]
fn a_failed_lookup_is_reported() {
    let e = resolve_host("host", 80, Family::Any, Err("timed out".to_string())).unwrap_err();
    assert_eq!(e.message(), "DNS: host: timed out");
    let e = resolve_host("host", 80, Family::Any, Ok(Vec::new())).unwrap_err();
    assert_eq!(e.message(), "DNS: no usable addresses for host");
}

// ---- Addresses ----

fn chars(s: &str) -> Vec<char> {
    s.chars().collect()
}

#[test]
fn addresses_are_read_and_written_alike() {
    for s in [
        "::", "::1", "1::", "1:2:3:4:5:6:7:8", "2001:db8::1", "1:0:0:2::3", "fe80::1:0:0:1",
        "::ffff:1.2.3.4", "a:b:c:d:e:f:0:1",
    ] {
        let ip = read_ipv6(&chars(s)).unwrap();
        assert_eq!(ip.to_text(), s);
    }
    for s in ["", ":", ":::", "1:2:3:4:5:6:7", "1:2:3:4:5:6:7:8:9", "12345::", "1.2.3.4", "::g"] {
        assert!(read_ipv6(&chars(s)).is_none(), "{s}");
    }
    for s in ["0.0.0.0", "255.255.255.255", "10.20.30.40"] {
        assert_eq!(read_ipv4(&chars(s)).unwrap().to_text(), s);
    }
    for s in ["", "1.2.3", "1.2.3.4.5", "01.2.3.4", "256.1.1.1", "1.2.3.+4", " 1.2.3.4"] {
        assert!(read_ipv4(&chars(s)).is_none(), "{s}");
    }
    assert_eq!(
        read_ipv6(&chars("2001:db8::1.2.3.4")).unwrap().octets(),
        [0x20, 0x01, 0x0d, 0xb8, 0, 0, 0, 0, 0, 0, 0, 0, 1, 2, 3, 4]
    );
    assert_eq!(IpAddr::V4(Ipv4Addr::new(1, 2, 3, 4)).to_text(), "1.2.3.4");
}

// ---- Order of bytes ----

#[test]
fn bytes_keep_their_order_in_both_directions() {
    let mut state = RelayState::Open;
    let (mut to_remote, mut to_local) = (Vec::new(), Vec::new());
    let events = vec![
        RelayEvent::Data(Direction::LocalToRemote, b"ab".to_vec()),
        RelayEvent::Data(Direction::RemoteToLocal, b"12".to_vec()),
        RelayEvent::Data(Direction::LocalToRemote, b"c".to_vec()),
        RelayEvent::Eof(Direction::LocalToRemote),
        RelayEvent::Data(Direction::LocalToRemote, b"late".to_vec()),
        RelayEvent::Data(Direction::RemoteToLocal, b"3".to_vec()),
        RelayEvent::Eof(Direction::RemoteToLocal),
        RelayEvent::Data(Direction::RemoteToLocal, b"late".to_vec()),
    ];
    for event in events {
        let (next, action) = relay(state, event, false, None);
        match action {
            RelayAction::Forward(Direction::LocalToRemote, b) => to_remote.extend(b),
            RelayAction::Forward(Direction::RemoteToLocal, b) => to_local.extend(b),
            _ => {}
        }
        state = next;
    }
    assert_eq!(to_remote, b"abc");
    assert_eq!(to_local, b"123");
    assert_eq!(state, RelayState::Finished);
}

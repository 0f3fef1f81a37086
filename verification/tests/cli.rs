//! The command line.

use sc::cli::{parse, parse_port, parse_relay_spec, Invocation, LONG_HELP, USAGE, VERSION};
use sc::config::{Config, Family, LocalType, ProxyAuthType, ProxyMethod, ResolveMode};
use sc::parameters::Params;
use sc::Error;

const SERVICES: &str = "# network services\nssh\t\t22/tcp\t\t\t# SSH\nhttp 80/tcp www\ndomain 53/udp\n";

fn make_argv(items: &[&str]) -> Vec<String> {
    items.iter().map(|s| s.to_string()).collect()
}

fn configured(items: &[&str], params: &Params) -> Config {
    parse(&make_argv(items), params, SERVICES).unwrap().config().unwrap()
}

fn cfg_of(items: &[&str]) -> Config {
    configured(items, &Params::new())
}

fn error_of(items: &[&str]) -> Error {
    parse(&make_argv(items), &Params::new(), SERVICES).unwrap_err()
}

#[test]
fn parse_direct_basic() {
    let cfg = cfg_of(&["sc", "example.com", "22"]);
    assert_eq!(cfg.relay_method, ProxyMethod::Direct);
    assert_eq!(cfg.dest_host, "example.com");
    assert_eq!(cfg.dest_port, 22);
}

#[test]
fn parse_debug_flag() {
    let cfg = cfg_of(&["sc", "-d", "-d", "host", "80"]);
    assert_eq!(cfg.f_debug, 2);
}

#[test]
fn parse_chained_flags() {
    let cfg = cfg_of(&["sc", "-dn", "host", "80"]);
    assert_eq!(cfg.f_debug, 1);
    assert_eq!(cfg.relay_method, ProxyMethod::Direct);
}

#[test]
fn parse_socks_spec() {
    let cfg = cfg_of(&["sc", "-S", "alice@socks.example.com:1080", "target", "22"]);
    assert_eq!(cfg.relay_method, ProxyMethod::Socks);
    assert_eq!(cfg.relay_host.as_deref(), Some("socks.example.com"));
    assert_eq!(cfg.relay_port, 1080);
    assert_eq!(cfg.relay_user.as_deref(), Some("alice"));
    assert_eq!(cfg.socks_version, 5);
}

#[test]
fn parse_http_with_prefix_and_path() {
    let cfg = cfg_of(&["sc", "-H", "http://proxy.example.com:8080/path", "target", "443"]);
    assert_eq!(cfg.relay_method, ProxyMethod::Http);
    assert_eq!(cfg.relay_host.as_deref(), Some("proxy.example.com"));
    assert_eq!(cfg.relay_port, 8080);
}

#[test]
fn parse_family_long() {
    let cfg = cfg_of(&["sc", "--family", "v6", "host", "80"]);
    assert_eq!(cfg.family, Family::V6);
}

#[test]
fn parse_family_equals() {
    let cfg = cfg_of(&["sc", "--family=v4", "host", "80"]);
    assert_eq!(cfg.family, Family::V4);
}

#[test]
fn parse_p_with_port() {
    let cfg = cfg_of(&["sc", "-p", "5550", "host", "22"]);
    assert_eq!(cfg.local_type, LocalType::Socket(5550));
    assert!(!cfg.f_hold_session);
}

#[test]
fn parse_capital_p_sets_hold() {
    let cfg = cfg_of(&["sc", "-P", "5550", "host", "22"]);
    assert_eq!(cfg.local_type, LocalType::Socket(5550));
    assert!(cfg.f_hold_session);
}

#[test]
fn parse_resolve_modes() {
    let cfg = cfg_of(&["sc", "-R", "local", "host", "22"]);
    assert_eq!(cfg.socks_resolve, ResolveMode::Local);

    let cfg = cfg_of(&["sc", "-R", "remote", "host", "22"]);
    assert_eq!(cfg.socks_resolve, ResolveMode::Remote);

    let cfg = cfg_of(&["sc", "-R", "1.2.3.4", "host", "22"]);
    assert_eq!(cfg.socks_resolve, ResolveMode::Local);
    assert_eq!(cfg.socks_ns.unwrap().to_text(), "1.2.3.4");
}

#[test]
fn parse_p_after_flag() {
    // `-p 5550 host 22`: the `5550` must be the listen port, not the host.
    let cfg = cfg_of(&["sc", "-p", "5550", "host", "22"]);
    assert_eq!(cfg.local_type, LocalType::Socket(5550));
    assert_eq!(cfg.dest_host, "host");
    assert_eq!(cfg.dest_port, 22);
}

#[test]
fn parse_capital_w_sets_idle_timeout() {
    let cfg = cfg_of(&["sc", "-W", "30000", "host", "22"]);
    assert_eq!(cfg.read_timeout_ms, 30_000);
}

#[test]
fn parse_idle_timeout_long_flag() {
    let cfg = cfg_of(&["sc", "--idle-timeout=45000", "host", "22"]);
    assert_eq!(cfg.read_timeout_ms, 45_000);
}

#[test]
fn long_help_mentions_every_short_flag() {
    for flag in [
        's', 'n', 'h', 't', 'S', 'H', 'T', 'c', 'P', 'p', 'w', 'W', 'a', 'R', '4', '5', 'V', 'd',
        'D',
    ] {
        let needle = format!("-{flag}");
        assert!(LONG_HELP.contains(&needle), "LONG_HELP missing flag {needle}");
    }
}

#[test]
fn no_argument_asks_for_the_usage() {
    let r = parse(&make_argv(&["sc"]), &Params::new(), SERVICES).unwrap();
    assert!(matches!(r, Invocation::Usage));
    assert!(USAGE.starts_with("usage: sc "));
}

#[test]
fn help_and_version_are_asked_for() {
    let r = parse(&make_argv(&["sc", "--help"]), &Params::new(), SERVICES).unwrap();
    assert!(matches!(r, Invocation::Help));
    let r = parse(&make_argv(&["sc", "--version"]), &Params::new(), SERVICES).unwrap();
    assert!(matches!(r, Invocation::Version));
    let r = parse(&make_argv(&["sc", "-V"]), &Params::new(), SERVICES).unwrap();
    assert!(matches!(r, Invocation::Version));
    assert_eq!(VERSION, "0.1.0");
}

#[test]
fn unknown_option_is_refused() {
    let e = error_of(&["sc", "-z", "host", "22"]);
    assert!(matches!(e, Error::UnknownOption('z')));
    assert_eq!(e.message(), "unknown option: -z");
}

#[test]
fn chained_flags_equal_separate_flags() {
    let a = cfg_of(&["sc", "-dDn4", "host", "80"]);
    let b = cfg_of(&["sc", "-d", "-D", "-n", "-4", "host", "80"]);
    assert_eq!(a.f_debug, b.f_debug);
    assert_eq!(a.f_auto_direct, b.f_auto_direct);
    assert_eq!(a.relay_method, b.relay_method);
    assert_eq!(a.socks_version, b.socks_version);
    assert!(a.f_auto_direct);
    assert_eq!(a.socks_version, 4);
}

#[test]
fn chain_goes_on_behind_a_value_flag() {
    let cfg = cfg_of(&["sc", "-pd", "5550", "host", "22"]);
    assert_eq!(cfg.local_type, LocalType::Socket(5550));
    assert_eq!(cfg.f_debug, 1);
    assert_eq!(cfg.dest_host, "host");

    let cfg = cfg_of(&["sc", "-dpSw", "5550", "proxy:1081", "7", "host", "22"]);
    assert_eq!(cfg.f_debug, 1);
    assert_eq!(cfg.local_type, LocalType::Socket(5550));
    assert_eq!(cfg.relay_host.as_deref(), Some("proxy"));
    assert_eq!(cfg.relay_port, 1081);
    assert_eq!(cfg.connect_timeout, 7);
    assert_eq!(cfg.dest_port, 22);

    let e = error_of(&["sc", "-pw", "5550"]);
    assert_eq!(e.message(), "config: option at index 1 requires an argument");
    assert!(matches!(error_of(&["sc", "-pz", "5550", "host", "22"]), Error::UnknownOption('z')));
}

#[test]
fn value_flag_may_be_followed_by_flags() {
    let cfg = cfg_of(&["sc", "-S", "proxy.local:1080", "-dD", "host", "443"]);
    assert_eq!(cfg.relay_host.as_deref(), Some("proxy.local"));
    assert_eq!(cfg.f_debug, 1);
    assert!(cfg.f_auto_direct);
    assert_eq!(cfg.dest_port, 443);
}

#[test]
fn port_of_connect_basename() {
    let cfg = cfg_of(&["/usr/bin/connect-22", "127.0.0.1"]);
    assert_eq!(cfg.dest_host, "127.0.0.1");
    assert_eq!(cfg.dest_port, 22);
    let cfg = cfg_of(&["connect-22", "127.0.0.1"]);
    assert_eq!(cfg.dest_port, 22);
    let cfg = cfg_of(&["connect-ssh", "host"]);
    assert_eq!(cfg.dest_port, 22);
    let cfg = cfg_of(&["connect-http", "host", "8080"]);
    assert_eq!(cfg.dest_port, 8080);
    assert!(parse(&make_argv(&["connect-nowhere", "host"]), &Params::new(), SERVICES).is_err());
}

#[test]
fn ports_are_numbers_or_services() {
    assert_eq!(parse_port("1080", SERVICES).unwrap(), 1080);
    assert_eq!(parse_port("ssh", SERVICES).unwrap(), 22);
    assert_eq!(parse_port("www", SERVICES).unwrap(), 80);
    assert!(parse_port("domain", SERVICES).is_err());
    assert!(parse_port("65536", SERVICES).is_err());
}

#[test]
fn relay_spec_without_a_host_is_refused() {
    let mut cfg = Config::default();
    let e = parse_relay_spec("user@:1080", ProxyMethod::Socks, &mut cfg).unwrap_err();
    assert_eq!(e.message(), "config: empty host in relay spec: user@:1080");
    assert!(cfg.relay_host.is_none());
}

#[test]
fn defaults_of_the_methods() {
    assert_eq!(Config::default_port(ProxyMethod::Socks), 1080);
    assert_eq!(Config::default_port(ProxyMethod::Http), 80);
    assert_eq!(Config::default_port(ProxyMethod::Telnet), 23);
    assert_eq!(Config::default_port(ProxyMethod::Direct), 0);
    assert_eq!(Config::default_resolve(4), ResolveMode::Local);
    assert_eq!(Config::default_resolve(5), ResolveMode::Remote);

    let cfg = cfg_of(&["sc", "-S", "proxy", "host", "22"]);
    assert_eq!(cfg.relay_port, 1080);
    assert_eq!(cfg.socks_resolve, ResolveMode::Remote);
    let cfg = cfg_of(&["sc", "-4", "-S", "proxy", "host", "22"]);
    assert_eq!(cfg.socks_resolve, ResolveMode::Local);
    let cfg = cfg_of(&["sc", "-T", "gw", "host", "22"]);
    assert_eq!(cfg.relay_port, 23);
    assert_eq!(cfg.telnet_command.as_deref(), Some("telnet %h %p"));
    let cfg = cfg_of(&["sc", "-T", "gw", "-c", "open %h %p", "host", "22"]);
    assert_eq!(cfg.telnet_command.as_deref(), Some("open %h %p"));
}

#[test]
fn proxy_comes_from_the_parameters() {
    let mut params = Params::new();
    params.vars.insert("HTTP_PROXY", "http://proxy.corp:3128/");
    let cfg = configured(&["sc", "-h", "host", "22"], &params);
    assert_eq!(cfg.relay_method, ProxyMethod::Http);
    assert_eq!(cfg.relay_host.as_deref(), Some("proxy.corp"));
    assert_eq!(cfg.relay_port, 3128);

    let mut params = Params::new();
    params.set_file("socks5_server", "proxy.local:1080");
    let cfg = configured(&["sc", "internal.example.com", "22"], &params);
    assert_eq!(cfg.relay_method, ProxyMethod::Socks);
    assert_eq!(cfg.relay_host.as_deref(), Some("proxy.local"));
    assert_eq!(cfg.relay_port, 1080);
}

#[test]
fn parameters_without_a_value_count_for_nothing() {
    let mut params = Params::new();
    params.set_file("socks5_server", "");
    params.set_file("http_proxy", "");
    params.set_file("socks_server", "proxy.local");
    let cfg = configured(&["sc", "host", "22"], &params);
    assert_eq!(cfg.relay_method, ProxyMethod::Direct);
    let cfg = configured(&["sc", "-h", "host", "22"], &params);
    assert_eq!(cfg.relay_method, ProxyMethod::Http);
    assert_eq!(cfg.relay_host, None);
    let cfg = configured(&["sc", "-s", "host", "22"], &params);
    assert_eq!(cfg.relay_host.as_deref(), Some("proxy.local"));
}

#[test]
fn lines_without_a_host_count_for_nothing() {
    let mut params = Params::new();
    params.set_file("socks5_server", "me@:1080");
    params.set_file("http_proxy", "http:///path");
    let cfg = configured(&["sc", "host", "22"], &params);
    assert_eq!(cfg.relay_method, ProxyMethod::Direct);
    for flag in ["-s", "-h"] {
        let cfg = configured(&["sc", flag, "host", "22"], &params);
        assert_eq!(cfg.relay_host, None);
        assert_eq!(cfg.relay_user, None);
    }
    params.vars.insert("SOCKS5_SERVER", ":1080");
    let e = parse(&make_argv(&["sc", "-s", "host", "22"]), &params, SERVICES).unwrap_err();
    assert_eq!(e.message(), "config: empty host in relay spec: :1080");
}

#[test]
fn an_empty_variable_names_no_host() {
    for (flag, name) in [
        ("-s", "SOCKS5_SERVER"),
        ("-s", "SOCKS_SERVER"),
        ("-h", "HTTP_PROXY"),
        ("-t", "TELNET_PROXY"),
    ] {
        let argv = make_argv(&["sc", flag, "host", "22"]);
        let mut params = Params::new();
        params.vars.insert(name, "");
        let e = parse(&argv, &params, SERVICES).unwrap_err();
        assert_eq!(e.message(), "config: empty host in relay spec: ");
        params.set_file(name, "proxy.local");
        let cfg = parse(&argv, &params, SERVICES).unwrap().config().unwrap();
        assert_eq!(cfg.relay_host.as_deref(), Some("proxy.local"));
    }
    let mut params = Params::new();
    params.vars.insert("SOCKS5_SERVER", "");
    params.vars.insert("SOCKS_SERVER", "other");
    let argv = make_argv(&["sc", "-s", "host", "22"]);
    assert!(parse(&argv, &params, SERVICES).is_err());
    let cfg = configured(&["sc", "host", "22"], &params);
    assert_eq!(cfg.relay_method, ProxyMethod::Direct);
}

#[test]
fn long_help_starts_with_what_the_program_is() {
    assert!(LONG_HELP.starts_with(
        "sc — ssh-connect: an OpenSSH ProxyCommand replacement for SOCKS4/4a/5,\n\
         HTTP CONNECT, TELNET and direct connections. Drop-in replacement for\n\
         gotoh's connect.c.\n\nUsage:\n"
    ));
}

#[test]
fn relay_spec_of_an_http_proxy() {
    let mut cfg = Config::default();
    parse_relay_spec("me@proxy:8080", ProxyMethod::Http, &mut cfg).unwrap();
    assert_eq!(cfg.relay_user.as_deref(), Some("me"));
    assert_eq!(cfg.relay_host.as_deref(), Some("proxy"));
    assert_eq!(cfg.relay_port, 8080);
}

#[test]
fn a_held_session_listens() {
    let cfg = cfg_of(&["sc", "-P", "1080", "-S", "proxy", "host", "22"]);
    assert!(cfg.f_hold_session);
    assert_eq!(cfg.local_type, LocalType::Socket(1080));
    assert_eq!(cfg.proxy_auth, ProxyAuthType::NoAuth);
}

#[test]
fn names_of_the_settings() {
    assert_eq!(ProxyMethod::Undecided.name(), "UNDECIDED");
    assert_eq!(ProxyMethod::Direct.name(), "DIRECT");
    assert_eq!(ProxyMethod::Socks.name(), "SOCKS");
    assert_eq!(ProxyMethod::Http.name(), "HTTP");
    assert_eq!(ProxyMethod::Telnet.name(), "TELNET");
    assert_eq!(ResolveMode::Both.name(), "BOTH");
    assert_eq!(LocalType::Stdio.name(), "stdio");
    assert_eq!(LocalType::Socket(1).name(), "socket");
    assert_eq!(Family::from_str("IPv6"), Ok(Family::V6));
    assert_eq!(Family::from_str("v5"), Err(()));
    assert_eq!(ResolveMode::from_str("Both"), Ok(ResolveMode::Both));
}

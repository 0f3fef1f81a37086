//! The bypass table.

use sc::addr::Ipv4Addr;
use sc::config::{Config, ProxyMethod};
use sc::direct_table::{
    apply_bypass, check_direct, init_from_config, initialize, parse_entry, Entry, Interface,
};
use sc::parameters::Params;

fn table(entries: &[&str]) -> Vec<Entry> {
    let specs: Vec<String> = entries.iter().map(|s| s.to_string()).collect();
    let mut t = Vec::new();
    initialize(&mut t, &specs, false, &Vec::new()).unwrap();
    t
}

fn cidr(spec: &str) -> (u32, u32) {
    match parse_entry(spec).unwrap() {
        Entry::Cidr { addr, mask } => (addr, mask),
        _ => panic!("expected Cidr"),
    }
}

#[test]
fn parse_cidr_basic() {
    match parse_entry("10.0.0.0/8").unwrap() {
        Entry::Cidr { addr, mask } => {
            assert_eq!(Ipv4Addr::new(10, 0, 0, 0).to_bits(), addr);
            assert_eq!(0xFF000000, mask);
        }
        _ => panic!("expected Cidr"),
    }
}

#[test]
fn parse_cidr_trailing_dot_implies_24() {
    match parse_entry("192.168.1.").unwrap() {
        Entry::Cidr { addr, mask } => {
            assert_eq!(Ipv4Addr::new(192, 168, 1, 0).to_bits(), addr);
            assert_eq!(0xFFFFFF00, mask);
        }
        _ => panic!("expected Cidr"),
    }
}

#[test]
fn parse_hostname_with_negative() {
    match parse_entry("!example.com").unwrap() {
        Entry::Negative(inner) => match *inner {
            Entry::Domain { ref name, .. } => assert_eq!(name, "example.com"),
            _ => panic!("expected Domain inside Negative"),
        },
        _ => panic!("expected Negative"),
    }
}

#[test]
fn initialize_then_check_direct() {
    let t = table(&["10.0.0.0/8", "192.168.1.0/24"]);
    assert!(check_direct(&t, "10.0.0.1"));
    assert!(check_direct(&t, "192.168.1.42"));
    assert!(!check_direct(&t, "8.8.8.8"));
}

#[test]
fn check_direct_domain_match() {
    let t = table(&["example.com", ".internal.corp"]);
    assert!(check_direct(&t, "example.com"));
    assert!(check_direct(&t, "EXAMPLE.COM"));
    assert!(!check_direct(&t, "example.org"));

    assert!(check_direct(&t, "svc.internal.corp"));
    assert!(!check_direct(&t, "internal.corp")); // suffix-only, not equal
    assert!(!check_direct(&t, "corp"));
}

#[test]
fn check_direct_negative_domain() {
    let t = table(&["!blocked.example"]);
    assert!(check_direct(&t, "allowed.example"));
    assert!(check_direct(&t, "anything.else"));
    assert!(!check_direct(&t, "blocked.example"));
}

#[test]
fn init_from_config_loads_socks5_direct_from_connectrc() {
    let mut params = Params::new();
    params.set_file("SOCKS5_DIRECT", "172.16.0.0/12");
    let cfg =
        Config { relay_method: ProxyMethod::Socks, socks_version: 5, ..Config::default() };
    let mut t = Vec::new();
    assert_eq!(init_from_config(&mut t, &cfg, &params, &Vec::new()), Some(1));
    assert!(check_direct(&t, "172.16.5.5"));
    assert!(!check_direct(&t, "8.8.8.8"));
}

#[test]
fn init_from_config_connect_direct_applies_to_any_method() {
    let mut params = Params::new();
    params.set_file("CONNECT_DIRECT", "100.0.0.0/8");
    let cfg = Config { relay_method: ProxyMethod::Http, ..Config::default() };
    let mut t = Vec::new();
    init_from_config(&mut t, &cfg, &params, &Vec::new());
    assert!(check_direct(&t, "100.5.6.7"));
    assert!(!check_direct(&t, "8.8.8.8"));
}

#[test]
fn masks_of_every_form() {
    assert_eq!(cidr("192.168.1.0/255.255.255.0"), (0xC0A80100, 0xFFFFFF00));
    assert_eq!(cidr("10.1."), (0x0A010000, 0xFFFF0000));
    assert_eq!(cidr("10.1.2.3."), (0x0A010203, 0xFFFFFFFF));
    assert_eq!(cidr("1.2.3.4"), (0x01020304, 0xFFFFFFFF));
    assert_eq!(cidr("1.2.3.4/0"), (0x01020304, 0));
    assert_eq!(cidr("1.2.3.4/32"), (0x01020304, 0xFFFFFFFF));
    assert_eq!(cidr("1.2.3.4"), cidr("1.2.3.4/32"));
    assert_eq!(cidr("10.0.0.0/12"), cidr("10.0.0.0/255.240.0.0"));
}

#[test]
fn malformed_entries_are_none() {
    for spec in ["   ", "10.0.0.0/33", "!10.0.0.0/33", "10.0.0.0/x", "10.0.0/8", "1.2.3.4/", "a/b"] {
        assert!(parse_entry(spec).is_none(), "{spec}");
    }
    let t = table(&["!10.0.0.0/33", "10.0.0.0/33", "example.com"]);
    assert_eq!(t.len(), 1);
    assert!(!check_direct(&t, "8.8.8.8"));
    assert!(!check_direct(&t, "10.0.0.0/33"));
}

#[test]
fn suffix_entries_match_subdomains_only() {
    let t = table(&["*.example.com"]);
    assert!(check_direct(&t, "a.Example.com"));
    assert!(check_direct(&t, "b.a.example.com"));
    assert!(!check_direct(&t, "example.com"));
    assert!(!check_direct(&t, "badexample.com"));
}

#[test]
fn negative_network_matches_everything_else() {
    let t = table(&["!10.0.0.0/8"]);
    assert!(!check_direct(&t, "10.9.8.7"));
    assert!(check_direct(&t, "11.0.0.1"));
    assert!(check_direct(&t, "example.com"));
}

#[test]
fn local_interfaces_are_added() {
    let lo = Interface {
        address: Some(Ipv4Addr::new(127, 0, 0, 1)),
        netmask: Some(Ipv4Addr::new(255, 0, 0, 0)),
    };
    let v6_only = Interface { address: None, netmask: None };
    let mut t = Vec::new();
    let n = initialize(&mut t, &vec!["example.com".to_string()], true, &vec![v6_only, lo]).unwrap();
    assert_eq!(n, 2);
    assert!(check_direct(&t, "127.9.9.9"));
    let n = initialize(&mut t, &Vec::new(), false, &vec![lo]).unwrap();
    assert_eq!(n, 0);
    assert!(!check_direct(&t, "127.9.9.9"));
}

#[test]
fn a_listed_destination_bypasses_the_proxy() {
    let t = table(&["127.0.0.0/8"]);
    let mut cfg = Config::default();
    cfg.relay_method = ProxyMethod::Socks;
    cfg.relay_host = Some("unreachable".to_string());
    cfg.dest_host = "127.0.0.1".to_string();
    assert!(apply_bypass(&mut cfg, &t));
    assert_eq!(cfg.relay_method, ProxyMethod::Direct);
    assert_eq!(cfg.relay_host, None);

    cfg.relay_method = ProxyMethod::Http;
    cfg.relay_host = Some("proxy".to_string());
    cfg.dest_host = "example.com".to_string();
    assert!(!apply_bypass(&mut cfg, &t));
    assert_eq!(cfg.relay_method, ProxyMethod::Http);
    assert_eq!(cfg.relay_host.as_deref(), Some("proxy"));
}

#[test]
fn entries_match_by_name_or_by_address() {
    let inside = Some(Ipv4Addr::new(10, 1, 2, 3));
    let outside = Some(Ipv4Addr::new(11, 1, 2, 3));
    let net = parse_entry("10.0.0.0/8").unwrap();
    assert!(net.matches_host("some.name", inside));
    assert!(!net.matches_host("10.1.2.3", outside));
    assert!(!net.matches_host("10.1.2.3", None));
    let not_net = parse_entry("!10.0.0.0/8").unwrap();
    assert!(!not_net.matches_host("some.name", inside));
    assert!(not_net.matches_host("10.1.2.3", None));
    let name = parse_entry("example.com").unwrap();
    assert!(name.matches_host("Example.COM", inside));
    assert!(name.matches_host("example.com", None));
    assert!(!name.matches_host("example.org", inside));
}

//! Parameter files and variables.

use sc::parameters::{getparam, parse_line, read_all, ParamFile, Params, Table};

fn file(path: &str, content: &str) -> Option<ParamFile> {
    Some(ParamFile { path: path.to_string(), content: content.to_string() })
}

#[test]
fn parse_line_basic() {
    let mut t = Table::new();
    parse_line("test", 1, "socks5_user = alice", &mut t);
    assert_eq!(t.get("socks5_user"), Some("alice".to_string()));
}

#[test]
fn parse_line_comment_and_empty() {
    let mut t = Table::new();
    parse_line("test", 1, "# a comment", &mut t);
    parse_line("test", 2, "   ", &mut t);
    parse_line("test", 3, "   # indented comment", &mut t);
    assert!(t.is_empty());
}

#[test]
fn parse_line_unknown_key() {
    let mut t = Table::new();
    let report = parse_line("test", 1, "bogus_key = x", &mut t);
    assert!(t.is_empty());
    assert!(report.unwrap().starts_with("test:1: unknown parameter"));
}

#[test]
fn parse_line_missing_eq() {
    let mut t = Table::new();
    let report = parse_line("test", 1, "no equals sign", &mut t);
    assert!(t.is_empty());
    assert!(report.unwrap().starts_with("test:1: missing"));
}

#[test]
fn parse_line_comment_behind_value() {
    let mut t = Table::new();
    assert_eq!(parse_line("test", 1, "socks5_user = alice # work account", &mut t), None);
    assert_eq!(t.get("socks5_user"), Some("alice".to_string()));
    assert!(parse_line("test", 2, "http_proxy # = proxy", &mut t).unwrap().contains("missing"));
    assert_eq!(t.get("http_proxy"), None);
}

#[test]
fn getparam_env_wins_over_file() {
    let mut params = Params::new();
    params.vars.insert("socks4_resolve", "from-env");
    params.set_file("socks4_resolve", "from-file");
    assert_eq!(getparam(&params, "socks4_resolve").as_deref(), Some("from-env"));
}

#[test]
fn getparam_falls_back_to_file_table() {
    let mut params = Params::new();
    params.set_file("connect_direct", "from-file");
    assert_eq!(getparam(&params, "connect_direct").as_deref(), Some("from-file"));
}

#[test]
fn getparam_empty_env_does_not_shadow_file_value() {
    let mut params = Params::new();
    params.vars.insert("socks5_resolve", "");
    params.set_file("socks5_resolve", "from-file");
    assert_eq!(getparam(&params, "socks5_resolve").as_deref(), Some("from-file"));
}

#[test]
fn read_all_loads_connectrc_end_to_end() {
    let mut params = Params::new();
    let user = file(
        "/home/u/.connectrc",
        "http_proxy = proxy.corp:8080\nssh_askpass = /usr/bin/ssh-askpass\n",
    );
    let reports = read_all(&mut params.file, &None, &user);
    assert!(reports.is_empty());
    assert_eq!(
        getparam(&params, "http_proxy").as_deref(),
        Some("proxy.corp:8080"),
        "http_proxy from .connectrc should be visible via getparam"
    );
    assert_eq!(
        getparam(&params, "ssh_askpass").as_deref(),
        Some("/usr/bin/ssh-askpass"),
        "ssh_askpass from .connectrc should be visible via getparam"
    );
}

#[test]
fn later_lines_and_files_decide() {
    let mut params = Params::new();
    params.file.insert("http_proxy", "stale");
    let system = file("/etc/connectrc", "socks5_user = a\nsocks5_user = b\nhttp_proxy_user = s\n");
    let user = file("/home/u/.connectrc", "# mine\nsocks5_user = c = d\nnonsense\n= x\n");
    let reports = read_all(&mut params.file, &system, &user);
    assert_eq!(getparam(&params, "SOCKS5_USER").as_deref(), Some("c = d"));
    assert_eq!(getparam(&params, "HTTP_PROXY_USER").as_deref(), Some("s"));
    assert_eq!(getparam(&params, "HTTP_PROXY"), None);
    assert_eq!(reports.len(), 2);
    assert!(reports[0].starts_with("/home/u/.connectrc:3: missing"));
    assert!(reports[1].starts_with("/home/u/.connectrc:4: empty key"));
}

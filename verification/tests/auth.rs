//! Users and passwords.

use sc::auth::{
    askpass_retry, askpass_spawn_error, determine_relay_user, env_password, first_line, readpass,
    relay_user, ssh_askpass, Password,
};
use sc::config::{Config, ProxyMethod};
use sc::parameters::Params;
use sc::tty::{tty_readpass, TtyFailure, TtyStep};
use sc::Error;

#[test]
fn ssh_askpass_invokes_program() {
    // What a program that echoes its first argument prints.
    let pass = ssh_askpass(true, Some(0), &b"prompt-text\n".to_vec()).unwrap();
    assert_eq!(pass, "prompt-text");
}

#[test]
fn ssh_askpass_strips_trailing_newline() {
    let pass = ssh_askpass(true, Some(0), &b"secret-prompt\r\n".to_vec()).unwrap();
    assert_eq!(pass, "secret-prompt");
}

#[test]
fn determine_relay_user_surfaces_connectrc_value() {
    let mut params = Params::new();
    params.set_file("SOCKS5_USER", "from-connectrc");
    let user = determine_relay_user(&params, ProxyMethod::Socks, 5, "root").unwrap();
    assert_eq!(user.as_deref(), Some("from-connectrc"));
}

#[test]
fn determine_relay_user_falls_back_to_logname_user() {
    let mut params = Params::new();
    params.vars.insert("LOGNAME", "from-logname");
    let user = determine_relay_user(&params, ProxyMethod::Socks, 5, "root").unwrap();
    assert_eq!(user.as_deref(), Some("from-logname"));

    let mut params = Params::new();
    params.vars.insert("USER", "from-user");
    let user = determine_relay_user(&params, ProxyMethod::Socks, 5, "root").unwrap();
    assert_eq!(user.as_deref(), Some("from-user"));
}

#[test]
fn system_account_is_the_last_user() {
    let mut params = Params::new();
    params.vars.insert("LOGNAME", "");
    params.set_file("logname", "not-a-proxy-key");
    let user = determine_relay_user(&params, ProxyMethod::Http, 5, "root").unwrap();
    assert_eq!(user.as_deref(), Some("root"));
}

#[test]
fn user_keys_depend_on_the_method() {
    let mut params = Params::new();
    params.vars.insert("SOCKS4_USER", "four");
    params.vars.insert("SOCKS5_USER", "five");
    params.vars.insert("CONNECT_USER", "any");
    let of = |m, v| determine_relay_user(&params, m, v, "root").unwrap().unwrap();
    assert_eq!(of(ProxyMethod::Socks, 4), "four");
    assert_eq!(of(ProxyMethod::Socks, 5), "five");
    assert_eq!(of(ProxyMethod::Http, 5), "any");
    assert_eq!(of(ProxyMethod::Telnet, 5), "any");

    let mut cfg = Config::default();
    cfg.relay_method = ProxyMethod::Socks;
    assert_eq!(relay_user(&cfg, &params, "root"), "five");
    cfg.relay_user = Some("alice".to_string());
    assert_eq!(relay_user(&cfg, &params, "root"), "alice");
}

#[test]
fn password_of_the_parameters() {
    let mut params = Params::new();
    params.vars.insert("SOCKS5_PASSWD", "");
    params.vars.insert("SOCKS5_PASSWORD", "pw");
    params.vars.insert("HTTP_PROXY_PASSWORD", "hp");
    assert_eq!(env_password(&params, ProxyMethod::Socks, 5).as_deref(), Some("pw"));
    assert_eq!(env_password(&params, ProxyMethod::Http, 5).as_deref(), Some("hp"));
    assert_eq!(env_password(&params, ProxyMethod::Telnet, 5), None);
}

#[test]
fn password_sources_in_order() {
    let mut params = Params::new();
    assert!(matches!(readpass(&params, ProxyMethod::Socks, 5, true), Password::Tty));
    params.vars.insert("SSH_ASKPASS", "/usr/bin/ask");
    assert!(matches!(readpass(&params, ProxyMethod::Socks, 5, true), Password::Tty));
    assert!(matches!(readpass(&params, ProxyMethod::Socks, 5, false), Password::Askpass(_)));
    params.vars.insert("DISPLAY", ":0");
    match readpass(&params, ProxyMethod::Socks, 5, true) {
        Password::Askpass(p) => assert_eq!(p, "/usr/bin/ask"),
        other => panic!("got {other:?}"),
    }
    params.vars.insert("CONNECT_PASSWORD", "known");
    match readpass(&params, ProxyMethod::Socks, 5, true) {
        Password::Known(p) => assert_eq!(p, "known"),
        other => panic!("got {other:?}"),
    }
}

#[test]
fn askpass_failures() {
    let e = ssh_askpass(false, Some(1), &Vec::new()).unwrap_err();
    assert_eq!(e.message(), "auth: SSH_ASKPASS exited Some(1)");
    let e = ssh_askpass(false, Some(-9), &Vec::new()).unwrap_err();
    assert_eq!(e.message(), "auth: SSH_ASKPASS exited Some(-9)");
    let e = ssh_askpass(false, None, &Vec::new()).unwrap_err();
    assert_eq!(e.message(), "auth: SSH_ASKPASS exited None");
    assert_eq!(askpass_spawn_error("gone").message(), "auth: SSH_ASKPASS spawn: gone");
    assert!(askpass_retry(1, true));
    assert!(askpass_retry(2, true));
    assert!(!askpass_retry(3, true));
    assert!(!askpass_retry(1, false));
}

#[test]
fn askpass_takes_the_first_line() {
    assert_eq!(first_line(""), "");
    assert_eq!(first_line("one\ntwo\n"), "one");
    assert_eq!(first_line("one\r\r\ntwo"), "one");
    assert_eq!(ssh_askpass(true, Some(0), &"p\u{e4}ss\n".as_bytes().to_vec()).unwrap(), "p\u{e4}ss");
    assert_eq!(ssh_askpass(true, Some(0), &vec![0x61, 0xFF, 0x0A]).unwrap(), "a\u{FFFD}");
}

#[test]
fn tty_readpass_returns_err_when_dev_tty_unavailable() {
    let result = tty_readpass(Err(TtyFailure {
        step: TtyStep::Open,
        reason: "No such device or address".to_string(),
    }));
    assert!(
        matches!(result, Err(Error::Config(_))),
        "expected Config error from open failure, got {result:?}"
    );
    assert_eq!(
        result.unwrap_err().message(),
        "config: open /dev/tty: No such device or address"
    );
}

#[test]
fn tty_failures_name_their_step() {
    let of = |step| tty_readpass(Err(TtyFailure { step, reason: "x".to_string() })).unwrap_err();
    assert_eq!(of(TtyStep::GetAttributes).message(), "config: tcgetattr: x");
    assert_eq!(of(TtyStep::SetAttributes).message(), "config: tcsetattr: x");
    assert_eq!(of(TtyStep::RestoreAttributes).message(), "config: tcsetattr restore: x");
}

#[test]
fn typed_password_is_one_line() {
    assert_eq!(tty_readpass(Ok(b"s3cret\r\nmore".to_vec())).unwrap(), "s3cret");
    assert_eq!(tty_readpass(Ok(b"no end".to_vec())).unwrap(), "no end");
    assert_eq!(tty_readpass(Ok(Vec::new())).unwrap(), "");
}

//! Authentication: username/password lookup and password acquisition.
//!
//! A password comes from the parameters, from the program that `SSH_ASKPASS`
//! names, or from the terminal, in this order.

use vstd::prelude::*;
use vstd::slice::slice_subrange;
use vstd::string::*;
use vstd::utf8::{decode_utf8, valid_utf8};

use crate::config::{Config, ConfigView, ProxyMethod};
use crate::error::{Error, ErrorView, Result};
use crate::number::{signed, signed_of};
use crate::parameters::{entry, getparam, param, Params, ParamsView};
use crate::text::laws::law_lines;
use crate::text::{
    chars_of, concat, holds, lemma_find, lemma_find_at, lines, opt_text, split_lines, string_of,
    Text,
};

verus! {

// ---- Lookup ----

/// The texts of a list of names.
pub open spec fn names_of(names: Seq<&'static str>) -> Seq<Text> {
    Seq::new(names.len(), |i: int| names[i]@)
}

/// The first of the names that has a value that is not empty, and that value.
pub open spec fn first_param(p: ParamsView, names: Seq<Text>) -> Option<Text>
    decreases names.len(),
{
    if names.len() == 0 {
        None
    } else {
        match param(p, names[0]) {
            Some(v) => if v.len() > 0 {
                Some(v)
            } else {
                first_param(p, names.drop_first())
            },
            None => first_param(p, names.drop_first()),
        }
    }
}

/// A variable of the environment that is not empty.
pub open spec fn set_var(p: ParamsView, name: Text) -> Option<Text> {
    match entry(p.vars, name) {
        Some(v) => if v.len() > 0 {
            Some(v)
        } else {
            None
        },
        None => None,
    }
}

/// The parameters that name the proxy user.
pub open spec fn user_keys(method: ProxyMethod, socks_version: u8) -> Seq<Text> {
    match method {
        ProxyMethod::Socks => if socks_version == 5 {
            seq!["SOCKS5_USER"@, "SOCKS_USER"@, "CONNECT_USER"@]
        } else {
            seq!["SOCKS4_USER"@, "SOCKS_USER"@, "CONNECT_USER"@]
        },
        ProxyMethod::Http => seq!["HTTP_PROXY_USER"@, "CONNECT_USER"@],
        _ => seq!["CONNECT_USER"@],
    }
}

/// The parameters that hold the proxy password.
pub open spec fn password_keys(method: ProxyMethod) -> Seq<Text> {
    match method {
        ProxyMethod::Socks => seq!["SOCKS5_PASSWD"@, "SOCKS5_PASSWORD"@, "CONNECT_PASSWORD"@],
        ProxyMethod::Http => seq!["HTTP_PROXY_PASSWORD"@, "CONNECT_PASSWORD"@],
        _ => seq!["CONNECT_PASSWORD"@],
    }
}

/// The proxy user: the parameters of the method, then the system account as the
/// environment or the system knows it.
pub open spec fn user_of(
    p: ParamsView,
    method: ProxyMethod,
    socks_version: u8,
    system_username: Text,
) -> Text {
    match first_param(p, user_keys(method, socks_version)) {
        Some(v) => v,
        None => match set_var(p, "LOGNAME"@) {
            Some(v) => v,
            None => match set_var(p, "USER"@) {
                Some(v) => v,
                None => system_username,
            },
        },
    }
}

fn find_param(params: &Params, names: &Vec<&'static str>) -> (r: Option<String>)
    ensures
        opt_text(r) == first_param(params@, names_of(names@)),
{
    let ghost all = names_of(names@);
    assert(all.skip(0) =~= all);
    for i in 0..names.len()
        invariant
            all == names_of(names@),
            first_param(params@, all) == first_param(params@, all.skip(i as int)),
    {
        assert(all.skip(i as int).drop_first() =~= all.skip(i + 1));
        assert(all.skip(i as int)[0] == names@[i as int]@);
        if let Some(v) = getparam(params, names[i]) {
            if !v.as_str().is_empty() {
                return Some(v);
            }
        }
    }
    None
}

fn find_var(params: &Params, name: &str) -> (r: Option<String>)
    ensures
        opt_text(r) == set_var(params@, name@),
{
    if let Some(v) = params.vars.get(name) {
        if !v.as_str().is_empty() {
            return Some(v);
        }
    }
    None
}

/// Look up the proxy username for the given method, considering the parameters
/// (per-method, then `CONNECT_USER`), the variables `LOGNAME` and `USER`, and
/// finally the system account.
///
/// Proxy-specific keys are routed through `parameters::getparam` so
/// `.connectrc` / `/etc/connectrc` values work as a fallback below the
/// env vars. `LOGNAME` / `USER` are variables only since they
/// identify the *system* account, not a proxy configuration entry.
pub fn determine_relay_user(
    params: &Params,
    method: ProxyMethod,
    socks_version: u8,
    system_username: &str,
) -> (r: Result<Option<String>>)
    ensures
        r matches Ok(Some(u)) && u@ == user_of(params@, method, socks_version, system_username@),
{
    let names = match method {
        ProxyMethod::Socks => {
            if socks_version == 5 {
                vec!["SOCKS5_USER", "SOCKS_USER", "CONNECT_USER"]
            } else {
                vec!["SOCKS4_USER", "SOCKS_USER", "CONNECT_USER"]
            }
        },
        ProxyMethod::Http => vec!["HTTP_PROXY_USER", "CONNECT_USER"],
        _ => vec!["CONNECT_USER"],
    };
    assert(names_of(names@) =~= user_keys(method, socks_version));
    if let Some(v) = find_param(params, &names) {
        return Ok(Some(v));
    }
    if let Some(v) = find_var(params, "LOGNAME") {
        return Ok(Some(v));
    }
    if let Some(v) = find_var(params, "USER") {
        return Ok(Some(v));
    }
    Ok(Some(system_username.to_owned()))
}

/// The user to authenticate as: the one of the configuration, or the one that is
/// looked up.
pub open spec fn relay_user_of(cfg: ConfigView, p: ParamsView, system_username: Text) -> Text {
    match cfg.relay_user {
        Some(u) => u,
        None => user_of(p, cfg.relay_method, cfg.socks_version, system_username),
    }
}

/// The user to authenticate as.
pub fn relay_user(cfg: &Config, params: &Params, system_username: &str) -> (r: String)
    ensures
        r@ == relay_user_of(cfg@, params@, system_username@),
{
    if let Some(u) = &cfg.relay_user {
        return u.clone();
    }
    match determine_relay_user(params, cfg.relay_method, cfg.socks_version, system_username) {
        Ok(Some(u)) => u,
        _ => String::new(),
    }
}

/// Look up the proxy password from env vars, with `.connectrc` /
/// `/etc/connectrc` as fallback. Returns `None` if nothing is set; the
/// caller then falls back to `readpass`.
pub fn env_password(params: &Params, method: ProxyMethod, socks_version: u8) -> (r: Option<String>)
    ensures
        opt_text(r) == first_param(params@, password_keys(method)),
{
    let names = match method {
        ProxyMethod::Socks => vec!["SOCKS5_PASSWD", "SOCKS5_PASSWORD", "CONNECT_PASSWORD"],
        ProxyMethod::Http => vec!["HTTP_PROXY_PASSWORD", "CONNECT_PASSWORD"],
        _ => vec!["CONNECT_PASSWORD"],
    };
    assert(names_of(names@) =~= password_keys(method));
    find_param(params, &names)
}

// ---- Acquisition ----

/// Where a password comes from.
#[derive(Debug)]
pub enum Password {
    /// It is this one.
    Known(String),
    /// The first line that this program prints, run with the prompt.
    Askpass(String),
    /// What is typed on the terminal.
    Tty,
}

/// Where a password comes from.
pub enum PasswordView {
    Known(Text),
    Askpass(Text),
    Tty,
}

impl View for Password {
    type V = PasswordView;

    open spec fn view(&self) -> PasswordView {
        match self {
            Password::Known(s) => PasswordView::Known(s@),
            Password::Askpass(s) => PasswordView::Askpass(s@),
            Password::Tty => PasswordView::Tty,
        }
    }
}

/// The parameters first, then `SSH_ASKPASS` (on Unix only where `DISPLAY` is
/// set), then the terminal.
pub open spec fn password_source(p: ParamsView, method: ProxyMethod, unix: bool) -> PasswordView {
    match first_param(p, password_keys(method)) {
        Some(v) => PasswordView::Known(v),
        None => if p.vars.dom().contains("SSH_ASKPASS"@) && (unix ==> p.vars.dom().contains(
            "DISPLAY"@,
        )) {
            PasswordView::Askpass(p.vars["SSH_ASKPASS"@])
        } else {
            PasswordView::Tty
        },
    }
}

/// Decide how to read a password: env vars first, then `SSH_ASKPASS`, then
/// the terminal. On Unix, askpass is only used when `DISPLAY` is set.
pub fn readpass(
    params: &Params,
    method: ProxyMethod,
    socks_version: u8,
    unix: bool,
) -> (r: Password)
    ensures
        r@ == password_source(params@, method, unix),
{
    if let Some(p) = env_password(params, method, socks_version) {
        return Password::Known(p);
    }
    if let Some(program) = params.vars.get("SSH_ASKPASS") {
        if !unix || params.vars.get("DISPLAY").is_some() {
            return Password::Askpass(program);
        }
    }
    Password::Tty
}

/// How often the askpass program is started at most.
pub const MAX_ATTEMPTS: u32 = 3;

/// Whether to start the askpass program once more, after `attempt` attempts of
/// which the last found its file busy, or failed otherwise.
pub fn askpass_retry(attempt: u32, busy: bool) -> (r: bool)
    ensures
        r == (busy && attempt < MAX_ATTEMPTS),
{
    busy && attempt < MAX_ATTEMPTS
}

/// The error of an askpass program that could not be started.
pub fn askpass_spawn_error(e: &str) -> (r: Error)
    ensures
        r@ == ErrorView::Auth("SSH_ASKPASS spawn: "@ + e@),
{
    Error::Auth(concat("SSH_ASKPASS spawn: ", e))
}

/// The exit code as messages show it.
pub open spec fn code_text(code: Option<i32>) -> Text {
    match code {
        None => "None"@,
        Some(n) => "Some("@ + signed(n as int) + ")"@,
    }
}

/// `s` without the `\r` and `\n` at its end.
pub open spec fn trim_newlines(s: Text) -> Text
    decreases s.len(),
{
    if s.len() > 0 && (s.last() == '\r' || s.last() == '\n') {
        trim_newlines(s.drop_last())
    } else {
        s
    }
}

/// The password in what an askpass program printed: its first line.
pub open spec fn password_in(printed: Text) -> Text {
    if lines(printed).len() == 0 {
        Seq::empty()
    } else {
        trim_newlines(lines(printed)[0])
    }
}

/// The text that the standard library makes of bytes that need not be UTF-8.
pub uninterp spec fn lossy_text(bytes: Seq<u8>) -> Text;

/// `String::from_utf8_lossy` of the standard library: a text that the bytes alone
/// decide, and the text that they encode where they are UTF-8. What stands for
/// bytes that are no UTF-8 is not stated.
#[verifier::external_body]
fn decode_lossy(bytes: &Vec<u8>) -> (r: String)
    ensures
        r@ == lossy_text(bytes@),
        valid_utf8(bytes@) ==> r@ == decode_utf8(bytes@),
{
    String::from_utf8_lossy(bytes).into_owned()
}

/// The first line of what an askpass program printed.
pub fn first_line(printed: &str) -> (r: String)
    ensures
        r@ == password_in(printed@),
{
    let v = chars_of(printed);
    let ls = split_lines(v.as_slice());
    if ls.len() == 0 {
        return String::new();
    }
    let line = ls[0].as_slice();
    let mut n: usize = line.len();
    assert(line@.take(n as int) =~= line@);
    while n > 0 && (line[n - 1] == '\r' || line[n - 1] == '\n')
        invariant
            n <= line@.len(),
            trim_newlines(line@.take(n as int)) == trim_newlines(line@),
        decreases n,
    {
        assert(line@.take(n as int).drop_last() =~= line@.take(n - 1));
        n = n - 1;
    }
    let cut = slice_subrange(line, 0, n);
    assert(cut@ =~= line@.take(n as int));
    string_of(cut)
}

/// The password that an askpass program gave, from how it exited and what it
/// printed.
pub fn ssh_askpass(success: bool, code: Option<i32>, stdout: &Vec<u8>) -> (r: Result<String>)
    ensures
        success ==> (r matches Ok(p) && p@ == password_in(lossy_text(stdout@)) && (valid_utf8(
            stdout@,
        ) ==> p@ == password_in(decode_utf8(stdout@)))),
        !success ==> (r matches Err(e) && e@ == ErrorView::Auth(
            "SSH_ASKPASS exited "@ + code_text(code),
        )),
{
    if !success {
        let mut m = "SSH_ASKPASS exited ".to_owned();
        match code {
            None => {
                m.append("None");
            },
            Some(n) => {
                m.append("Some(");
                m.append(signed_of(n).as_str());
                m.append(")");
            },
        }
        assert(m@ =~= "SSH_ASKPASS exited "@ + code_text(code));
        return Err(Error::Auth(m));
    }
    Ok(first_line(decode_lossy(stdout).as_str()))
}

// ---- Laws ----

/// A password of the parameters is used without asking anyone.
pub proof fn law_parameter_before_prompt(p: ParamsView, method: ProxyMethod, unix: bool, i: int)
    requires
        0 <= i < password_keys(method).len(),
        param(p, password_keys(method)[i]) matches Some(v) && v.len() > 0,
    ensures
        password_source(p, method, unix) is Known,
{
    lemma_first_param(p, password_keys(method), i);
}

/// Some name with a value is enough for a value.
proof fn lemma_first_param(p: ParamsView, names: Seq<Text>, i: int)
    requires
        0 <= i < names.len(),
        param(p, names[i]) matches Some(v) && v.len() > 0,
    ensures
        first_param(p, names) is Some,
    decreases names.len(),
{
    if i > 0 {
        assert(names.drop_first()[i - 1] == names[i]);
        lemma_first_param(p, names.drop_first(), i - 1);
    }
}

/// On Unix without a display, no askpass program is run.
pub proof fn law_no_display_no_askpass(p: ParamsView, method: ProxyMethod)
    requires
        !p.vars.dom().contains("DISPLAY"@),
    ensures
        password_source(p, method, true) !is Askpass,
{
}

/// The user of the configuration is used whatever the parameters say.
pub proof fn law_configured_user(cfg: ConfigView, p: ParamsView, system_username: Text, user: Text)
    requires
        cfg.relay_user == Some(user),
    ensures
        relay_user_of(cfg, p, system_username) == user,
{
}

/// The parameter says something.
pub open spec fn says(p: ParamsView, name: Text, v: Text) -> bool {
    param(p, name) == Some(v) && v.len() > 0
}

/// The parameter says nothing.
pub open spec fn is_silent(p: ParamsView, name: Text) -> bool {
    param(p, name) is None || param(p, name) == Some(Seq::<char>::empty())
}

/// The first name of a list that says something is the value.
proof fn lemma_first_of(p: ParamsView, names: Seq<Text>, i: int, v: Text)
    requires
        0 <= i <= names.len(),
        forall|k: int| 0 <= k < i ==> is_silent(p, #[trigger] names[k]),
        i < names.len() ==> says(p, names[i], v),
    ensures
        i < names.len() ==> first_param(p, names) == Some(v),
        i == names.len() ==> first_param(p, names) is None,
    decreases i,
{
    if i > 0 {
        let t = names.drop_first();
        assert(is_silent(p, names[0]));
        assert forall|k: int| 0 <= k < i - 1 implies is_silent(p, #[trigger] t[k]) by {
            assert(t[k] == names[k + 1]);
        }
        lemma_first_of(p, t, i - 1, v);
    }
}

/// The parameters of a user, in the order in which they count.
pub open spec fn user_order(method: ProxyMethod, socks_version: u8, names: Seq<Text>) -> bool {
    ||| method == ProxyMethod::Socks && socks_version == 5 && names == seq![
        "SOCKS5_USER"@,
        "SOCKS_USER"@,
        "CONNECT_USER"@,
    ]
    ||| method == ProxyMethod::Socks && socks_version != 5 && names == seq![
        "SOCKS4_USER"@,
        "SOCKS_USER"@,
        "CONNECT_USER"@,
    ]
    ||| method == ProxyMethod::Http && names == seq!["HTTP_PROXY_USER"@, "CONNECT_USER"@]
    ||| method != ProxyMethod::Socks && method != ProxyMethod::Http && names == seq![
        "CONNECT_USER"@,
    ]
}

/// The user is the first parameter of the method that says something, in their order;
/// then the variables `LOGNAME` and `USER`; then the system's.
pub proof fn law_user_order(
    p: ParamsView,
    method: ProxyMethod,
    socks_version: u8,
    system: Text,
    names: Seq<Text>,
    i: int,
    v: Text,
)
    requires
        user_order(method, socks_version, names),
        0 <= i <= names.len(),
        forall|k: int| 0 <= k < i ==> is_silent(p, #[trigger] names[k]),
        i < names.len() ==> says(p, names[i], v),
    ensures
        ({
            let got = user_of(p, method, socks_version, system);
            let none = i == names.len();
            let var = |n: Text, w: Text| entry(p.vars, n) == Some(w) && w.len() > 0;
            let unset = |n: Text|
                entry(p.vars, n) is None || entry(p.vars, n) == Some(Seq::<char>::empty());
            &&& i < names.len() ==> got == v
            &&& none && var("LOGNAME"@, v) ==> got == v
            &&& none && unset("LOGNAME"@) && var("USER"@, v) ==> got == v
            &&& none && unset("LOGNAME"@) && unset("USER"@) ==> got == system
        }),
{
    lemma_first_of(p, names, i, v);
    assert(user_keys(method, socks_version) =~= names);
}

/// The parameters of a password, in the order in which they count.
pub open spec fn password_order(method: ProxyMethod, names: Seq<Text>) -> bool {
    ||| method == ProxyMethod::Socks && names == seq![
        "SOCKS5_PASSWD"@,
        "SOCKS5_PASSWORD"@,
        "CONNECT_PASSWORD"@,
    ]
    ||| method == ProxyMethod::Http && names == seq!["HTTP_PROXY_PASSWORD"@, "CONNECT_PASSWORD"@]
    ||| method != ProxyMethod::Socks && method != ProxyMethod::Http && names == seq![
        "CONNECT_PASSWORD"@,
    ]
}

/// The password is the first parameter of the method that says something, in their
/// order; then the askpass program's, where there is one and, on Unix, a display to ask
/// on; then what is typed.
pub proof fn law_password_order(
    p: ParamsView,
    method: ProxyMethod,
    unix: bool,
    names: Seq<Text>,
    i: int,
    v: Text,
)
    requires
        password_order(method, names),
        0 <= i <= names.len(),
        forall|k: int| 0 <= k < i ==> is_silent(p, #[trigger] names[k]),
        i < names.len() ==> says(p, names[i], v),
    ensures
        ({
            let got = password_source(p, method, unix);
            let none = i == names.len();
            let display = !unix || entry(p.vars, "DISPLAY"@) is Some;
            &&& i < names.len() ==> got == PasswordView::Known(v)
            &&& i < names.len() ==> first_param(p, password_keys(method)) == Some(v)
            &&& none ==> first_param(p, password_keys(method)) is None
            &&& none && entry(p.vars, "SSH_ASKPASS"@) == Some(v) && display ==> got
                == PasswordView::Askpass(v)
            &&& none && (entry(p.vars, "SSH_ASKPASS"@) is None || !display) ==> got
                == PasswordView::Tty
        }),
{
    lemma_first_of(p, names, i, v);
    assert(password_keys(method) =~= names);
}

/// The password of an askpass program is its first line, however that ends.
pub proof fn law_first_line(l: Text, rest: Text)
    requires
        !holds(l, '\n'),
        l.len() > 0 ==> l.last() != '\r',
    ensures
        password_in(l) == l,
        password_in(l + seq!['\n'] + rest) == l,
        password_in(l + seq!['\r', '\n'] + rest) == l,
        l.len() > 0 ==> password_in(l + seq!['\r']) == l,
{
    law_lines(l, rest);
    assert(l.len() > 0 ==> l.last() == l[l.len() - 1]);
    lemma_find(l, '\n');
    assert(trim_newlines(l) == l);
    assert((seq![l] + lines(rest))[0] == l);
    if l.len() == 0 {
        assert(l =~= Seq::<char>::empty());
    } else {
        let r = l + seq!['\r'];
        assert forall|i: int| 0 <= i < r.len() implies r[i] != '\n' by {
            if i < l.len() {
                assert(r[i] == l[i]);
            }
        }
        lemma_find_at(r, '\n', r.len() as int);
        law_lines(r, rest);
        assert(r.drop_last() =~= l);
        assert(r.last() == '\r');
    }
}

/// The askpass program is started up to three times, and again only where its file was
/// busy.
pub proof fn law_askpass_attempts(attempt: u32, busy: bool, r: bool)
    requires
        call_ensures(askpass_retry, (attempt, busy), r),
    ensures
        !busy ==> !r,
        attempt >= 3 ==> !r,
        busy && attempt < 3 ==> r,
{
}

/// An exit code is shown as an option.
pub proof fn law_exit_code(n: i32)
    ensures
        code_text(None) == "None"@,
        code_text(Some(n)) == "Some("@ + signed(n as int) + ")"@,
{
}

/// Without a user in the configuration, the one of its method and version is looked
/// up.
pub proof fn law_looked_up_user(cfg: ConfigView, p: ParamsView, system: Text)
    requires
        cfg.relay_user is None,
    ensures
        relay_user_of(cfg, p, system) == user_of(p, cfg.relay_method, cfg.socks_version, system),
{
}

} // verus!

//! What the operations of the library promise their callers, from call to result.

use vstd::prelude::*;
use vstd::string::*;
use vstd::utf8::encode_utf8;

use crate::addr::{parse_ip, Ipv4Addr};
use crate::auth::{
    determine_relay_user, env_password, is_silent, law_password_order, law_user_order,
    password_order, readpass, says, user_order, Password, PasswordView,
};
use crate::cli::whole::{is_free_of, law_auth_flag_added, law_plain_command_line};
use crate::cli::{parse, Invocation, InvocationView};
use crate::config::{Config, ConfigView, Family, ProxyAuthType, ProxyMethod, ResolveMode};
use crate::direct_table::laws::{law_negated_spec, law_negative};
use crate::direct_table::lists::{applies, law_listed_destination};
use crate::direct_table::{
    apply_bypass, check_direct, entry_matches, entry_of, init_from_config, is_direct, parse_entry,
    table_view, Entry, Interface,
};
use crate::error::{Error, ErrorView, Result};
use crate::number::decimal;
use crate::parameters::laws::law_setting_line;
use crate::parameters::{entry, getparam, is_known_key, param, parse_line, Params, Table};
use crate::proxy::http::replies::{
    around_code, is_elsewhere, law_challenge_is_answered, law_plain_request, law_redirect_to_port,
    law_reply_200, names_basic, names_host, reply_lines,
};
use crate::proxy::http::{begin, send_request, HttpStart, ReplyHead};
use crate::proxy::socks5::auth_list;
use crate::proxy::socks5::laws::{law_credentials_sent, law_first_bytes};
use crate::proxy::{
    law_after_handshake, law_where_to_start, open_through_proxy, proceed, socks4, socks5, telnet,
    OpenEvent, OpenStep, OpenStepView,
};
use crate::relay::{relay, Direction, RelayAction, RelayActionView, RelayEvent, RelayState};
use crate::resolve::{law_name_of_one_family, resolve_host, socket_views, SocketAddr};
use crate::text::laws::{all_space, is_tight, lemma_tight};
use crate::text::{holds, join, lines, lowered, texts, Text};

verus! {

// ---- HTTP ----

/// A proxy that demands credentials, by any of its headers, is to be asked again with
/// them; nothing else of the configuration changes.
pub proof fn law_begin_answers_challenge(
    cfg: &mut Config,
    head: ReplyHead,
    r: Result<HttpStart>,
    protocol: Text,
    code: u16,
    reason: Text,
    headers: Seq<Text>,
    i: int,
    at: int,
)
    requires
        call_ensures(begin, (cfg, &head), r),
        texts(head.lines@) == reply_lines(protocol, code, reason, headers),
        around_code(protocol, reason),
        code == 401 || code == 407,
        old(cfg).proxy_auth == ProxyAuthType::NoAuth,
        0 <= i < headers.len(),
        headers[i].len() >= 19,
        names_basic(headers[i], at),
    ensures
        r == Ok::<HttpStart, Error>(HttpStart::Retry),
        final(cfg)@ == (ConfigView { proxy_auth: ProxyAuthType::Basic, ..old(cfg)@ }),
{
    law_challenge_is_answered(old(cfg)@, protocol, code, reason, headers, i, at);
}

/// A proxy that says 200 has made the tunnel, and the configuration is as it was.
pub proof fn law_begin_establishes(
    cfg: &mut Config,
    head: ReplyHead,
    r: Result<HttpStart>,
    protocol: Text,
    reason: Text,
    headers: Seq<Text>,
)
    requires
        call_ensures(begin, (cfg, &head), r),
        texts(head.lines@) == reply_lines(protocol, 200, reason, headers),
        around_code(protocol, reason),
    ensures
        r == Ok::<HttpStart, Error>(HttpStart::Established),
        final(cfg)@ == old(cfg)@,
{
    law_reply_200(old(cfg)@, protocol, reason, headers);
}

/// A proxy that redirects is left for the host and port of its last `Location:` header.
pub proof fn law_begin_follows_redirect(
    cfg: &mut Config,
    head: ReplyHead,
    r: Result<HttpStart>,
    protocol: Text,
    reason: Text,
    before: Seq<Text>,
    name: Text,
    scheme: Text,
    host: Text,
    port: u16,
    path: Text,
    after: Seq<Text>,
)
    requires
        call_ensures(begin, (cfg, &head), r),
        around_code(protocol, reason),
        names_host(
            name,
            Seq::empty(),
            scheme,
            host + ":"@ + decimal(port as nat),
            path,
            Seq::empty(),
        ),
        forall|i: int| 0 <= i < after.len() ==> is_elsewhere(#[trigger] after[i]),
        port > 0,
        ({
            let line = name + (scheme + "//"@ + (host + ":"@ + decimal(port as nat)) + path);
            texts(head.lines@) == reply_lines(protocol, 302, reason, before + seq![line] + after)
        }),
    ensures
        r == Ok::<HttpStart, Error>(HttpStart::Retry),
        final(cfg)@ == (ConfigView { relay_host: Some(host), relay_port: port, ..old(cfg)@ }),
{
    let e = Seq::<char>::empty();
    let value = scheme + "//"@ + (host + ":"@ + decimal(port as nat)) + path;
    assert(name + e + value + e =~= name + value);
    law_redirect_to_port(
        old(cfg)@,
        protocol,
        reason,
        before,
        name,
        e,
        scheme,
        host,
        port,
        path,
        e,
        after,
    );
}

// ---- Relay ----

/// A download goes on while nothing is typed: silence of the local side, and its end
/// and its failure too, leave what the remote sends afterwards to be forwarded.
pub proof fn law_relay_keeps_download(
    event: RelayEvent,
    hold: bool,
    idle: Option<u64>,
    bytes: Vec<u8>,
    first: (RelayState, RelayAction),
    then: (RelayState, RelayAction),
)
    requires
        call_ensures(relay, (RelayState::Open, event, hold, idle), first),
        call_ensures(
            relay,
            (first.0, RelayEvent::Data(Direction::RemoteToLocal, bytes), hold, idle),
            then,
        ),
        match event {
            RelayEvent::Data(d, _) => d == Direction::LocalToRemote,
            RelayEvent::Eof(d) => d == Direction::LocalToRemote && !hold,
            RelayEvent::Failed(d, _) => d == Direction::LocalToRemote,
            RelayEvent::Idle(d) => d == Direction::LocalToRemote,
        },
    ensures
        then.1@ == RelayActionView::Forward(Direction::RemoteToLocal, bytes@),
        then.0 == first.0,
        first.0 != RelayState::Finished,
{
}

// ---- Bypass ----

/// A destination that matches an entry of a parameter that counts, at whatever place of
/// its list, is connected to directly once the table is filled and applied.
pub proof fn law_table_bypasses_listed(
    table: &mut Vec<Entry>,
    cfg: Config,
    params: Params,
    ifs: Vec<Interface>,
    n: Option<usize>,
    key: Text,
    items: Seq<Text>,
    i: int,
    host: &str,
    direct: bool,
)
    requires
        host@ == cfg@.dest_host,
        call_ensures(init_from_config, (table, &cfg, &params, &ifs), n),
        n is Some,
        call_ensures(check_direct, (&*final(table), host), direct),
        applies(key, cfg@),
        0 <= i < items.len(),
        forall|k: int| 0 <= k < items.len() ==> !holds(#[trigger] items[k], ','),
        param(params@, key) == Some(join(items, ',')),
        entry_of(items[i]) matches Some(e) && entry_matches(e, cfg@.dest_host),
    ensures
        direct,
{
    law_listed_destination(cfg@, params@, ifs@, key, items, i);
}

// ---- Command line ----

/// `-a` with a list, before a command line that runs, runs the same with that list.
pub proof fn law_parse_takes_auth_list(
    without: Vec<String>,
    with: Vec<String>,
    params: Params,
    services: &str,
    r: Result<Invocation>,
    s: Result<Invocation>,
    argv0: Text,
    list: Text,
    tail: Seq<Text>,
    c: ConfigView,
)
    requires
        call_ensures(parse, (&without, &params, services), r),
        call_ensures(parse, (&with, &params, services), s),
        texts(without@) == seq![argv0] + tail,
        texts(with@) == seq![argv0, seq!['-', 'a'], list] + tail,
        is_free_of(tail, 'a'),
        r matches Ok(i) && i@ == InvocationView::Run(c),
    ensures
        s matches Ok(i) && i@ == InvocationView::Run(ConfigView { socks5_auth: Some(list), ..c }),
{
    law_auth_flag_added(argv0, list, tail, params@, services@);
}

// ---- Parameters ----

/// A line that sets a parameter is found by a lookup of its name, where no variable
/// says otherwise: the value is all of the text behind `=`, without the white space
/// around it.
pub proof fn law_line_is_looked_up(
    file: &str,
    lineno: usize,
    raw: &str,
    table: &mut Table,
    report: Option<String>,
    params: Params,
    name: &str,
    found: Option<String>,
    k: Text,
    a: Text,
    b: Text,
    v: Text,
    tail: Text,
)
    requires
        call_ensures(parse_line, (file, lineno, raw, table), report),
        params.file == *final(table),
        call_ensures(getparam, (&params, name), found),
        !params@.vars.dom().contains(name@),
        lowered(name@) == k,
        raw@ == k + a + seq!['='] + b + v + tail,
        is_known_key(k),
        all_space(a),
        all_space(b),
        all_space(tail),
        is_tight(v),
        !holds(v, '#'),
    ensures
        report is None,
        found matches Some(s) && s@ == v,
{
    let e = Seq::<char>::empty();
    law_setting_line(old(table)@, file@, lineno as nat, e, k, a, b, v, tail);
    assert(e + k + a + seq!['='] + b + v + tail =~= raw@);
}

/// A host and a port alone run a direct connection there.
pub proof fn law_parse_plain(
    argv: Vec<String>,
    params: Params,
    services: &str,
    r: Result<Invocation>,
    argv0: Text,
    host: Text,
    port: u16,
)
    requires
        call_ensures(parse, (&argv, &params, services), r),
        texts(argv@) == seq![argv0, host, decimal(port as nat)],
        host.len() > 0,
        host[0] != '-',
        entry(params@.file, "socks5_server"@) is None,
    ensures
        r matches Ok(i) && (i@ matches InvocationView::Run(c) && c.dest_host == host
            && c.dest_port == port && c.relay_method == ProxyMethod::Direct),
{
    law_plain_command_line(argv0, host, port, params@, services@);
}

// ---- Applying the table ----

/// A proxy is bypassed exactly where the table holds the destination: the method is
/// then direct, the relay is forgotten and everything else stays.
pub proof fn law_bypass_applied(cfg: &mut Config, table: Vec<Entry>, r: bool)
    requires
        call_ensures(apply_bypass, (cfg, &table), r),
    ensures
        old(cfg).relay_method == ProxyMethod::Direct ==> !r,
        old(cfg).relay_method != ProxyMethod::Direct ==> (r <==> is_direct(
            table_view(table@),
            old(cfg)@.dest_host,
        )),
        r ==> final(cfg)@ == (ConfigView {
            relay_method: ProxyMethod::Direct,
            relay_host: None,
            ..old(cfg)@
        }),
        !r ==> final(cfg)@ == old(cfg)@,
{
}

// ---- SOCKS ----

/// A SOCKS5 session starts with the methods of the list, in its order, or with both.
pub proof fn law_socks5_starts(cfg: Config, step: socks5::Step, list: Text)
    requires
        call_ensures(socks5::begin, (&cfg,), step),
    ensures
        cfg@.socks5_auth is None ==> step@ == socks5::StepView::Exchange(
            socks5::StageView::Method,
            seq![0x05u8, 2u8, 0x00u8, 0x02u8],
            2,
        ),
        cfg@.socks5_auth == Some(list) && 0 < auth_list(list).len() <= 255 ==> step@
            == socks5::StepView::Exchange(
            socks5::StageView::Method,
            seq![0x05u8, auth_list(list).len() as u8] + auth_list(list),
            2,
        ),
{
    law_first_bytes(cfg@, list);
}

/// A proxy that chose user and password is sent those that it is to be sent.
pub proof fn law_socks5_sends_credentials(
    cfg: &mut Config,
    user: String,
    pass: String,
    step: socks5::Step,
)
    requires
        call_ensures(
            socks5::advance,
            (
                socks5::Stage::Credentials,
                socks5::Event::Credentials(Some(user), pass),
                cfg,
            ),
            step,
        ),
        encode_utf8(user@).len() <= 255,
        encode_utf8(pass@).len() <= 255,
    ensures
        ({
            let (u, p) = (encode_utf8(user@), encode_utf8(pass@));
            step@ == socks5::StepView::Exchange(
                socks5::StageView::Status,
                seq![0x01u8, u.len() as u8] + u + seq![p.len() as u8] + p,
                2,
            )
        }),
        final(cfg)@ == old(cfg)@,
{
    law_credentials_sent(old(cfg)@, user@, pass@);
}

/// A SOCKS4 proxy that resolves is sent port, user and name.
pub proof fn law_socks4_sends_name(
    cfg: &mut Config,
    user: String,
    step: socks4::Step,
    hi: u8,
    lo: u8,
)
    requires
        call_ensures(socks4::begin, (cfg, Some(user)), step),
        old(cfg).socks_resolve == ResolveMode::Remote || old(cfg).socks_resolve
            == ResolveMode::Both,
        old(cfg).dest_port == hi * 0x100 + lo,
        encode_utf8(user@).len() <= 255,
        encode_utf8(old(cfg)@.dest_host).len() <= 255,
    ensures
        step@ == socks4::StepView::Exchange(
            seq![0x04u8, 0x01u8, hi, lo, 0u8, 0u8, 0u8, 1u8] + encode_utf8(user@) + seq![0u8]
                + encode_utf8(old(cfg)@.dest_host) + seq![0u8],
            8,
        ),
        final(cfg)@ == old(cfg)@,
{
    socks4::law_name_request(old(cfg)@, user@, hi, lo);
}

// ---- Resolution ----

/// A name resolves to the first address of the family that is wanted.
pub proof fn law_resolves_to_first(
    host: &str,
    port: u16,
    v4: bool,
    answers: Vec<SocketAddr>,
    r: Result<Vec<SocketAddr>>,
    i: int,
)
    requires
        call_ensures(
            resolve_host,
            (
                host,
                port,
                if v4 {
                    Family::V4
                } else {
                    Family::V6
                },
                Ok(answers),
            ),
            r,
        ),
        parse_ip(host@) is None,
        0 <= i < answers@.len(),
        answers@[i]@ is V4 == v4,
        forall|k: int| 0 <= k < i ==> (#[trigger] answers@[k])@ is V4 != v4,
    ensures
        r matches Ok(v) && socket_views(v@) == seq![answers@[i]@],
{
    let s = socket_views(answers@);
    assert forall|k: int| 0 <= k < i implies #[trigger] s[k] is V4 != v4 by {
        assert(s[k] == answers@[k]@);
    }
    assert(s[i] == answers@[i]@);
    law_name_of_one_family(host@, port, v4, s, i);
}

// ---- Users and passwords ----

/// The user and the password are the first that the parameters give, in the order of
/// the method.
pub proof fn law_credentials_looked_up(
    params: Params,
    method: ProxyMethod,
    version: u8,
    system: &str,
    user: Result<Option<String>>,
    pass: Option<String>,
    users: Seq<Text>,
    i: int,
    u: Text,
    passwords: Seq<Text>,
    j: int,
    p: Text,
)
    requires
        call_ensures(determine_relay_user, (&params, method, version, system), user),
        call_ensures(env_password, (&params, method, version), pass),
        user_order(method, version, users),
        password_order(method, passwords),
        0 <= i < users.len(),
        forall|k: int| 0 <= k < i ==> is_silent(params@, #[trigger] users[k]),
        says(params@, users[i], u),
        0 <= j < passwords.len(),
        forall|k: int| 0 <= k < j ==> is_silent(params@, #[trigger] passwords[k]),
        says(params@, passwords[j], p),
    ensures
        user matches Ok(Some(s)) && s@ == u,
        pass matches Some(s) && s@ == p,
{
    law_user_order(params@, method, version, system@, users, i, u);
    law_password_order(params@, method, true, passwords, j, p);
}

/// Where no parameter gives a password, the askpass program is run if there is one and
/// a display to ask on, and otherwise the terminal is read.
pub proof fn law_password_asked_for(
    params: Params,
    method: ProxyMethod,
    version: u8,
    unix: bool,
    r: Password,
    names: Seq<Text>,
    program: Text,
)
    requires
        call_ensures(readpass, (&params, method, version, unix), r),
        password_order(method, names),
        forall|k: int| 0 <= k < names.len() ==> is_silent(params@, #[trigger] names[k]),
    ensures
        ({
            let display = !unix || entry(params@.vars, "DISPLAY"@) is Some;
            &&& entry(params@.vars, "SSH_ASKPASS"@) == Some(program) && display ==> r@
                == PasswordView::Askpass(program)
            &&& entry(params@.vars, "SSH_ASKPASS"@) is None || !display ==> r@
                == PasswordView::Tty
        }),
{
    law_password_order(params@, method, unix, names, names.len() as int, program);
}

// ---- Opening ----

/// A connection starts at the destination where it is direct and at the proxy where
/// there is one.
pub proof fn law_opens_at(cfg: Config, step: OpenStep, host: Text)
    requires
        call_ensures(open_through_proxy, (&cfg,), step),
    ensures
        cfg.relay_method == ProxyMethod::Direct ==> step@ == OpenStepView::Connect(
            cfg@.dest_host,
            cfg@.dest_port,
        ),
        (cfg.relay_method == ProxyMethod::Socks || cfg.relay_method == ProxyMethod::Http
            || cfg.relay_method == ProxyMethod::Telnet) && cfg@.relay_host == Some(host) ==> step@
            == OpenStepView::Connect(host, cfg.relay_port),
{
    law_where_to_start(cfg@, host);
}

/// A proxy that wants to be asked again is connected to again, where the configuration
/// now says, and a tunnel that is made is ready.
pub proof fn law_proceeds_after_http(cfg: Config, start: HttpStart, step: OpenStep, host: Text)
    requires
        call_ensures(proceed, (&cfg, OpenEvent::Http(start)), step),
        cfg@.relay_host == Some(host),
    ensures
        start == HttpStart::Established ==> step@ == OpenStepView::Ready,
        start == HttpStart::Retry ==> step@ == OpenStepView::Connect(host, cfg.relay_port),
{
    law_after_handshake(cfg@, host, ErrorView::BadDefaultPort);
}

/// The command for a TELNET proxy names host and port where its template says.
pub proof fn law_telnet_asks(cfg: Config, r: Vec<u8>, a: Text, b: Text, c: Text)
    requires
        call_ensures(telnet::begin, (&cfg,), r),
        cfg@.telnet_command == Some(a + "%h"@ + b + "%p"@ + c),
        forall|i: int| 0 <= i < a.len() ==> a[i] != '%',
        forall|i: int| 0 <= i < b.len() ==> b[i] != '%',
        forall|i: int| 0 <= i < c.len() ==> c[i] != '%',
    ensures
        r@ == encode_utf8(
            a + cfg@.dest_host + b + decimal(cfg.dest_port as nat) + c + seq!['\r', '\n'],
        ),
{
    telnet::law_template(a, b, c, cfg@.dest_host, cfg.dest_port);
    telnet::law_command_line(cfg@, a + "%h"@ + b + "%p"@ + c);
}

/// A request without credentials is the request line and an empty line.
pub proof fn law_request_sent(cfg: Config, r: Result<Vec<u8>>)
    requires
        call_ensures(send_request, (&cfg, None, None), r),
        cfg.proxy_auth == ProxyAuthType::NoAuth,
        !holds(cfg@.dest_host, '\n'),
    ensures
        r matches Ok(b) && exists|t: Text|
            b@ == #[trigger] encode_utf8(t) && lines(t) == seq![
                "CONNECT "@ + cfg@.dest_host + ":"@ + decimal(cfg.dest_port as nat)
                    + " HTTP/1.0"@,
                Seq::<char>::empty(),
            ],
{
    law_plain_request(cfg@, None, None);
}

// ---- Entries ----

/// An entry is read from its text with any white space around it, and negated by `!`.
pub proof fn law_entries_read(
    plain: &str,
    negated: &str,
    e: Option<Entry>,
    n: Option<Entry>,
    host: &str,
    ip: Option<Ipv4Addr>,
    x: bool,
    y: bool,
)
    requires
        call_ensures(parse_entry, (plain,), e),
        call_ensures(parse_entry, (negated,), n),
        negated@ == "!"@ + plain@,
        is_tight(plain@),
        plain@.len() > 0,
        plain@[0] != '!',
        e is Some,
        n is Some,
        call_ensures(Entry::matches_host, (&e->0, host, ip), x),
        call_ensures(Entry::matches_host, (&n->0, host, ip), y),
    ensures
        x == !y,
{
    lemma_tight(plain@);
    law_negated_spec(plain@);
    law_negative(e->0.model(), host@, ip);
}

} // verus!

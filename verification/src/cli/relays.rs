//! What every relay spec says, and which defaults fill what was not said.

use vstd::prelude::*;
use vstd::string::*;

use crate::cli::laws::{law_relay_spec, lemma_host_port};
use crate::cli::{bare_spec, relay_error, relay_parts, with_defaults, with_relay};
use crate::config::{ConfigView, ProxyAuthType, ProxyMethod, ResolveMode};
use crate::error::ErrorView;
use crate::number::{decimal, is_digit, lemma_decimal_value, parse_number};
use crate::parameters::{entry, ParamsView};
use crate::text::laws::{all_space, is_tight, law_trim, lemma_tight};
use crate::text::{holds, is_space, lemma_find, lemma_find_at, lemma_rfind, lowered, rfind, Text};

verus! {

// ---- Specs ----

/// A text can be a relay spec of the method, and is not cut: white space ends none of
/// its sides, and for HTTP no slash starts a path.
pub open spec fn is_bare(s: Text, method: ProxyMethod) -> bool {
    is_tight(s) && (method == ProxyMethod::Http ==> !holds(s, '/'))
}

proof fn lemma_bare(s: Text, method: ProxyMethod)
    requires
        is_bare(s, method),
    ensures
        bare_spec(s, method) == s,
{
    lemma_tight(s);
    if method == ProxyMethod::Http {
        lemma_find(s, '/');
        reveal_strlit("http://");
        if "http://"@.is_prefix_of(s) {
            assert("http://"@[5] == s.subrange(0, 7)[5]);
        }
        assert(s.take(s.len() as int) =~= s);
    }
}

/// The configuration that names a relay: its method, host, port and user; a port of 0
/// and a user that is not there leave what was.
pub open spec fn relayed(
    cfg: ConfigView,
    method: ProxyMethod,
    user: Option<Text>,
    host: Text,
    port: u16,
) -> ConfigView {
    ConfigView {
        relay_method: method,
        relay_host: Some(host),
        relay_port: if port == 0 {
            cfg.relay_port
        } else {
            port
        },
        relay_user: match user {
            Some(u) => Some(u),
            None => cfg.relay_user,
        },
        proxy_auth: ProxyAuthType::NoAuth,
        ..cfg
    }
}

/// `user@host:port` sets all of them.
pub proof fn law_spec_user_host_port(
    user: Text,
    host: Text,
    port: u16,
    method: ProxyMethod,
    cfg: ConfigView,
)
    requires
        host.len() > 0,
        !holds(user, '@'),
        user.len() > 0 ==> !is_space(user[0]),
        method == ProxyMethod::Http ==> !holds(user, '/') && !holds(host, '/'),
    ensures
        ({
            let spec = user + seq!['@'] + host + seq![':'] + decimal(port as nat);
            &&& relay_error(spec, method) is None
            &&& with_relay(spec, method, cfg) == relayed(cfg, method, Some(user), host, port)
        }),
{
    reveal_strlit("@");
    reveal_strlit(":");
    assert("@"@ =~= seq!['@']);
    assert(":"@ =~= seq![':']);
    law_relay_spec(user, host, port, method);
}

/// `host:port` keeps the user.
pub proof fn law_spec_host_port(host: Text, port: u16, method: ProxyMethod, cfg: ConfigView)
    requires
        host.len() > 0,
        !holds(host, '@'),
        !is_space(host[0]),
        method == ProxyMethod::Http ==> !holds(host, '/'),
    ensures
        ({
            let spec = host + seq![':'] + decimal(port as nat);
            &&& relay_error(spec, method) is None
            &&& with_relay(spec, method, cfg) == relayed(cfg, method, None, host, port)
        }),
{
    let d = decimal(port as nat);
    let s = host + seq![':'] + d;
    let n = host.len() as int;
    reveal_strlit(":");
    assert(":"@ =~= seq![':']);
    lemma_decimal_value(port as nat);
    assert(s[0] == host[0]);
    assert(s.last() == d[d.len() - 1]);
    assert(is_digit(d[d.len() - 1]));
    lemma_find(host, '@');
    lemma_find(host, '/');
    assert forall|i: int| 0 <= i < s.len() implies s[i] != '@' && (method == ProxyMethod::Http
        ==> s[i] != '/') by {
        if i < n {
            assert(s[i] == host[i]);
        } else if i > n {
            assert(s[i] == d[i - n - 1]);
            assert(is_digit(d[i - n - 1]));
        }
    }
    lemma_find_at(s, '@', s.len() as int);
    if method == ProxyMethod::Http {
        lemma_find_at(s, '/', s.len() as int);
    }
    lemma_bare(s, method);
    lemma_host_port(host, port);
}

/// `host` alone keeps user and port, and so does a host whose colon has no number
/// behind it.
pub proof fn law_spec_host(host: Text, method: ProxyMethod, cfg: ConfigView)
    requires
        host.len() > 0,
        is_bare(host, method),
        !holds(host, '@'),
        !holds(host, ':') || parse_number(host.skip(rfind(host, ':') + 1), 0xffff) is None,
    ensures
        relay_error(host, method) is None,
        with_relay(host, method, cfg) == relayed(cfg, method, None, host, 0),
{
    lemma_bare(host, method);
    lemma_find(host, '@');
    lemma_find(host, ':');
    lemma_rfind(host, ':');
}

/// `user@host` keeps the port.
pub proof fn law_spec_user_host(user: Text, host: Text, method: ProxyMethod, cfg: ConfigView)
    requires
        host.len() > 0,
        !holds(user, '@'),
        !holds(host, ':'),
        is_bare(user + seq!['@'] + host, method),
    ensures
        ({
            let spec = user + seq!['@'] + host;
            &&& relay_error(spec, method) is None
            &&& with_relay(spec, method, cfg) == relayed(cfg, method, Some(user), host, 0)
        }),
{
    let s = user + seq!['@'] + host;
    let n = user.len() as int;
    lemma_bare(s, method);
    lemma_find(user, '@');
    assert forall|i: int| 0 <= i < n implies s[i] != '@' by {
        assert(s[i] == user[i]);
    }
    lemma_find_at(s, '@', n);
    assert(s.take(n) =~= user);
    assert(s.skip(n + 1) =~= host);
    lemma_find(host, ':');
    lemma_rfind(host, ':');
}

/// White space around a spec is of no account, and for HTTP neither is `http://`
/// before it and a path behind it.
pub proof fn law_spec_dressed(
    a: Text,
    spec: Text,
    path: Text,
    b: Text,
    method: ProxyMethod,
    cfg: ConfigView,
)
    requires
        all_space(a),
        all_space(b),
        is_bare(spec, method),
        path.len() == 0 || path[0] == '/',
        is_tight(seq!['h', 't', 't', 'p', ':', '/', '/'] + spec + path),
    ensures
        with_relay(a + spec + b, method, cfg) == with_relay(spec, method, cfg),
        relay_error(a + spec + b, method) is None <==> relay_error(spec, method) is None,
        method == ProxyMethod::Http ==> with_relay(
            a + (seq!['h', 't', 't', 'p', ':', '/', '/'] + spec + path) + b,
            method,
            cfg,
        ) == with_relay(spec, method, cfg),
{
    let url = seq!['h', 't', 't', 'p', ':', '/', '/'] + spec + path;
    law_trim(a, spec, b);
    law_trim(a, url, b);
    lemma_bare(spec, method);
    lemma_tight(spec);
    assert(bare_spec(a + spec + b, method) == spec);
    assert(relay_parts(a + spec + b, method) == relay_parts(spec, method));
    if method == ProxyMethod::Http {
        reveal_strlit("http://");
        assert("http://"@ =~= url.subrange(0, 7));
        let t = url.skip(7);
        assert(t =~= spec + path);
        lemma_find(spec, '/');
        assert forall|i: int| 0 <= i < spec.len() implies t[i] != '/' by {
            assert(t[i] == spec[i]);
        }
        if path.len() > 0 {
            assert(t[spec.len() as int] == path[0]);
        }
        lemma_find_at(t, '/', spec.len() as int);
        assert(t.take(spec.len() as int) =~= spec);
    }
}

/// A spec without a host is refused with its text: nothing, a port alone, a user
/// alone, and a user with a port.
pub proof fn law_spec_without_host(user: Text, port: u16, method: ProxyMethod)
    requires
        !holds(user, '@'),
        user.len() > 0 ==> !is_space(user[0]),
        method == ProxyMethod::Http ==> !holds(user, '/'),
    ensures
        ({
            let e = Seq::<char>::empty();
            let colon = seq![':'] + decimal(port as nat);
            let refused = |spec: Text|
                relay_error(spec, method) == Some(
                    ErrorView::Config("empty host in relay spec: "@ + spec),
                );
            refused(e) && refused(colon) && refused(user + seq!['@']) && refused(
                user + seq!['@'] + colon,
            )
        }),
{
    let e = Seq::<char>::empty();
    let d = decimal(port as nat);
    let colon = seq![':'] + d;
    lemma_find_at(e, '/', 0);
    lemma_find_at(e, '@', 0);
    lemma_bare(e, method);
    reveal_strlit("@");
    reveal_strlit(":");
    assert("@"@ =~= seq!['@']);
    assert(":"@ =~= seq![':']);
    law_relay_spec(user, e, port, method);
    assert(user + "@"@ + e + ":"@ + d =~= user + seq!['@'] + colon);
    // A port alone.
    lemma_decimal_value(port as nat);
    assert(colon.last() == d[d.len() - 1]);
    assert(is_digit(d[d.len() - 1]));
    assert forall|i: int| 0 <= i < colon.len() implies colon[i] != '@' && colon[i] != '/' by {
        if i > 0 {
            assert(colon[i] == d[i - 1]);
            assert(is_digit(d[i - 1]));
        }
    }
    lemma_find_at(colon, '@', colon.len() as int);
    lemma_find_at(colon, '/', colon.len() as int);
    lemma_bare(colon, method);
    lemma_host_port(e, port);
    assert(e + ":"@ + d =~= colon);
    // A user alone.
    let u = user + seq!['@'];
    let n = user.len() as int;
    lemma_find(user, '@');
    lemma_find(user, '/');
    assert forall|i: int| 0 <= i < n implies u[i] != '@' by {
        assert(u[i] == user[i]);
    }
    lemma_find_at(u, '@', n);
    if method == ProxyMethod::Http {
        assert forall|i: int| 0 <= i < u.len() implies u[i] != '/' by {
            if i < n {
                assert(u[i] == user[i]);
            }
        }
        lemma_find_at(u, '/', u.len() as int);
    }
    assert(u[0] == if n > 0 {
        user[0]
    } else {
        '@'
    });
    assert(u.last() == '@');
    lemma_bare(u, method);
    assert(u.skip(n + 1) =~= e);
}

// ---- Servers of the parameters ----

/// The parameter that names the server of a method, and its name in a file.
pub open spec fn is_server_key(name: Text, line: Text, cfg: ConfigView) -> bool {
    ||| cfg.relay_method == ProxyMethod::Http && name == "HTTP_PROXY"@ && line == "http_proxy"@
    ||| cfg.relay_method == ProxyMethod::Telnet && name == "TELNET_PROXY"@ && line
        == "telnet_proxy"@
    ||| cfg.relay_method == ProxyMethod::Socks && cfg.socks_version == 5 && name
        == "SOCKS5_SERVER"@ && line == "socks5_server"@
    ||| cfg.relay_method == ProxyMethod::Socks && cfg.socks_version == 4 && name
        == "SOCKS4_SERVER"@ && line == "socks4_server"@
}

proof fn lemma_key_lines()
    ensures
        lowered("HTTP_PROXY"@) == "http_proxy"@,
        lowered("TELNET_PROXY"@) == "telnet_proxy"@,
        lowered("SOCKS5_SERVER"@) == "socks5_server"@,
        lowered("SOCKS4_SERVER"@) == "socks4_server"@,
        lowered("SOCKS_SERVER"@) == "socks_server"@,
        lowered("SOCKS5_RESOLVE"@) == "socks5_resolve"@,
        lowered("SOCKS4_RESOLVE"@) == "socks4_resolve"@,
        lowered("SOCKS_RESOLVE"@) == "socks_resolve"@,
{
    reveal_strlit("HTTP_PROXY");
    reveal_strlit("http_proxy");
    reveal_strlit("TELNET_PROXY");
    reveal_strlit("telnet_proxy");
    reveal_strlit("SOCKS5_SERVER");
    reveal_strlit("socks5_server");
    reveal_strlit("SOCKS4_SERVER");
    reveal_strlit("socks4_server");
    reveal_strlit("SOCKS_SERVER");
    reveal_strlit("socks_server");
    reveal_strlit("SOCKS5_RESOLVE");
    reveal_strlit("socks5_resolve");
    reveal_strlit("SOCKS4_RESOLVE");
    reveal_strlit("socks4_resolve");
    reveal_strlit("SOCKS_RESOLVE");
    reveal_strlit("socks_resolve");
    assert(lowered("HTTP_PROXY"@) =~= "http_proxy"@);
    assert(lowered("TELNET_PROXY"@) =~= "telnet_proxy"@);
    assert(lowered("SOCKS5_SERVER"@) =~= "socks5_server"@);
    assert(lowered("SOCKS4_SERVER"@) =~= "socks4_server"@);
    assert(lowered("SOCKS_SERVER"@) =~= "socks_server"@);
    assert(lowered("SOCKS5_RESOLVE"@) =~= "socks5_resolve"@);
    assert(lowered("SOCKS4_RESOLVE"@) =~= "socks4_resolve"@);
    assert(lowered("SOCKS_RESOLVE"@) =~= "socks_resolve"@);
}

/// What comes of a relay spec: its error, or the defaults of the configuration that
/// has it.
pub open spec fn as_given(
    spec: Text,
    method: ProxyMethod,
    p: ParamsView,
    cfg: ConfigView,
) -> std::result::Result<ConfigView, ErrorView> {
    match relay_error(spec, method) {
        Some(e) => Err(e),
        None => with_defaults(p, with_relay(spec, method, cfg)),
    }
}

/// A server in the variable of the method is the same as one on the command line,
/// whatever the files say.
pub proof fn law_server_variable(p: ParamsView, cfg: ConfigView, name: Text, line: Text, spec: Text)
    requires
        cfg.relay_host is None,
        is_server_key(name, line, cfg),
        spec.len() > 0,
        entry(p.vars, name) == Some(spec),
    ensures
        with_defaults(p, cfg) == as_given(spec, cfg.relay_method, p, cfg),
{
}

/// A server in a file is the same as one on the command line, where the variable does
/// not say otherwise and the line has a host.
pub proof fn law_server_line(p: ParamsView, cfg: ConfigView, name: Text, line: Text, spec: Text)
    requires
        cfg.relay_host is None,
        is_server_key(name, line, cfg),
        entry(p.vars, name) is None || entry(p.vars, name) == Some(Seq::<char>::empty()),
        entry(p.file, line) == Some(spec),
        relay_error(spec, cfg.relay_method) is None,
    ensures
        with_defaults(p, cfg) == as_given(spec, cfg.relay_method, p, cfg),
{
    lemma_key_lines();
}

/// A SOCKS proxy whose version has no server of its own takes the common one.
pub proof fn law_common_socks_server(
    p: ParamsView,
    cfg: ConfigView,
    name: Text,
    line: Text,
    spec: Text,
)
    requires
        cfg.relay_host is None,
        cfg.relay_method == ProxyMethod::Socks,
        is_server_key(name, line, cfg),
        entry(p.vars, name) is None,
        entry(p.file, line) is None,
        (entry(p.vars, "SOCKS_SERVER"@) == Some(spec) && spec.len() > 0) || (entry(
            p.vars,
            "SOCKS_SERVER"@,
        ) is None && entry(p.file, "socks_server"@) == Some(spec) && relay_error(
            spec,
            ProxyMethod::Socks,
        ) is None),
    ensures
        with_defaults(p, cfg) == as_given(spec, ProxyMethod::Socks, p, cfg),
{
    lemma_key_lines();
}

/// Where no parameter names a server there is none; the method stays.
pub proof fn law_no_server(p: ParamsView, cfg: ConfigView)
    requires
        cfg.relay_host is None,
        p.vars == Map::<Text, Text>::empty(),
        p.file == Map::<Text, Text>::empty(),
    ensures
        with_defaults(p, cfg) matches Ok(r) && r.relay_host is None && r.relay_user
            == cfg.relay_user && r.relay_method == (if cfg.relay_method == ProxyMethod::Undecided {
            ProxyMethod::Direct
        } else {
            cfg.relay_method
        }),
{
}

/// Without a method, a SOCKS5 server of the files is used, as if it were given; a
/// variable does not count, and without such a line the connection is direct.
pub proof fn law_server_without_method(p: ParamsView, cfg: ConfigView, spec: Text)
    requires
        cfg.relay_method == ProxyMethod::Undecided,
        cfg.relay_host is None,
        cfg.socks_version == 5,
    ensures
        entry(p.file, "socks5_server"@) == Some(spec) && relay_error(spec, ProxyMethod::Socks)
            is None ==> with_defaults(p, cfg) == as_given(spec, ProxyMethod::Socks, p, cfg),
        entry(p.file, "socks5_server"@) is None ==> with_defaults(p, cfg) == Ok::<
            ConfigView,
            ErrorView,
        >(ConfigView { relay_method: ProxyMethod::Direct, ..cfg }),
        with_defaults(p, ConfigView { socks_version: 4, ..cfg }) == Ok::<ConfigView, ErrorView>(
            ConfigView { socks_version: 4, relay_method: ProxyMethod::Direct, ..cfg },
        ),
{
}

/// A relay that was given is not replaced by any parameter.
pub proof fn law_given_relay_stays(p: ParamsView, cfg: ConfigView)
    requires
        cfg.relay_host is Some || cfg.relay_method == ProxyMethod::Direct,
    ensures
        with_defaults(p, cfg) matches Ok(r) && r.relay_host == cfg.relay_host && r.relay_user
            == cfg.relay_user && (cfg.relay_method != ProxyMethod::Undecided ==> r.relay_method
            == cfg.relay_method) && (cfg.relay_port != 0 ==> r.relay_port == cfg.relay_port),
{
}

// ---- Other defaults ----

/// A proxy without a port has the port of its method, whether its host was given or is
/// nowhere to be found.
pub proof fn law_default_ports(p: ParamsView, cfg: ConfigView)
    requires
        cfg.relay_host is Some || (p.vars == Map::<Text, Text>::empty() && p.file == Map::<
            Text,
            Text,
        >::empty()),
        cfg.relay_port == 0,
    ensures
        with_defaults(p, cfg) matches Ok(r) && (cfg.relay_method == ProxyMethod::Socks
            ==> r.relay_port == 1080) && (cfg.relay_method == ProxyMethod::Http ==> r.relay_port
            == 80) && (cfg.relay_method == ProxyMethod::Telnet ==> r.relay_port == 23) && (
        cfg.relay_method == ProxyMethod::Direct ==> r.relay_port == 0),
{
}

/// The parameter says how to resolve for a version.
pub open spec fn says_mode(p: ParamsView, name: Text, line: Text, word: Text) -> bool {
    entry(p.vars, name) == Some(word) || (entry(p.vars, name) is None && entry(p.file, line)
        == Some(word))
}

/// A SOCKS proxy resolves as its version's parameter says, or the common one; where
/// nothing says, the proxy resolves for version 5 and we do for version 4. What was
/// given stays.
pub proof fn law_default_resolve(p: ParamsView, cfg: ConfigView, word: Text)
    requires
        cfg.relay_host is Some,
        cfg.relay_method == ProxyMethod::Socks,
        cfg.socks_version == 4 || cfg.socks_version == 5,
    ensures
        ({
            let (name, line) = if cfg.socks_version == 4 {
                ("SOCKS4_RESOLVE"@, "socks4_resolve"@)
            } else {
                ("SOCKS5_RESOLVE"@, "socks5_resolve"@)
            };
            let common = says_mode(p, "SOCKS_RESOLVE"@, "socks_resolve"@, word);
            let silent = entry(p.vars, name) is None && entry(p.file, line) is None;
            let said = (says_mode(p, name, line, word) || (silent && common)) && word.len() > 0;
            let nothing = silent && entry(p.vars, "SOCKS_RESOLVE"@) is None && entry(
                p.file,
                "socks_resolve"@,
            ) is None;
            let w = lowered(word);
            let open = cfg.socks_resolve == ResolveMode::Unknown;
            &&& with_defaults(p, cfg) is Ok
            &&& ({
                let mode = with_defaults(p, cfg)->Ok_0.socks_resolve;
                &&& open && said && w == "local"@ ==> mode == ResolveMode::Local
                &&& open && said && w == "remote"@ ==> mode == ResolveMode::Remote
                &&& open && said && w == "both"@ ==> mode == ResolveMode::Both
                &&& open && nothing && cfg.socks_version == 5 ==> mode == ResolveMode::Remote
                &&& open && nothing && cfg.socks_version == 4 ==> mode == ResolveMode::Local
                &&& !open ==> mode == cfg.socks_resolve
            })
        }),
{
    lemma_key_lines();
    reveal_strlit("local");
    reveal_strlit("remote");
    reveal_strlit("both");
    assert("local"@[0] == 'l' && "remote"@[0] == 'r' && "both"@[0] == 'b');
}

/// A TELNET proxy without a command has the usual one, and one that was given stays.
pub proof fn law_default_command(p: ParamsView, cfg: ConfigView)
    requires
        cfg.relay_host is Some,
    ensures
        with_defaults(p, cfg) matches Ok(r) && (cfg.telnet_command is Some ==> r.telnet_command
            == cfg.telnet_command) && (cfg.telnet_command is None && cfg.relay_method
            == ProxyMethod::Telnet ==> r.telnet_command == Some("telnet %h %p"@)) && (
        cfg.telnet_command is None && cfg.relay_method != ProxyMethod::Telnet
            ==> r.telnet_command is None),
{
}

/// The defaults touch nothing but the relay, the resolve mode and the command.
pub proof fn law_defaults_keep(p: ParamsView, cfg: ConfigView)
    ensures
        with_defaults(p, cfg) matches Ok(r) ==> r == (ConfigView {
            relay_method: r.relay_method,
            relay_host: r.relay_host,
            relay_port: r.relay_port,
            relay_user: r.relay_user,
            socks_resolve: r.socks_resolve,
            telnet_command: r.telnet_command,
            proxy_auth: r.proxy_auth,
            ..cfg
        }),
        with_defaults(p, cfg) matches Ok(r) ==> r.proxy_auth == cfg.proxy_auth || r.proxy_auth
            == ProxyAuthType::NoAuth,
{
}

} // verus!

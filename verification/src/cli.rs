//! Hand-rolled command-line parser.
//!
//! - Flag chaining: `-abc` is parsed as `-a -b -c`.
//! - Some flags take the next argv element as their value (`-S host:port -abc`). In a
//!   chain, each of them takes the next one that is not used yet.
//! - When port is missing, the binary basename `connect-NNN` provides a default.
//!
//! The long-form flags are `--help`, `--version`, `--family v4|v6|any` and
//! `--idle-timeout ms`.

pub mod flags;
pub mod laws;
pub mod relays;
pub mod whole;

use vstd::prelude::*;
use vstd::slice::slice_subrange;
use vstd::string::*;

use crate::addr::{parse_ipv4, read_ipv4};
use crate::config::{
    family_of, initial_config, method_port, resolve_mode_of, version_resolve, Config, ConfigView,
    Family, LocalType, ProxyAuthType, ProxyMethod, ResolveMode,
};
use crate::error::{Error, ErrorView, Result};
use crate::number::{decimal, decimal_of, parse_number, read_number};
use crate::parameters::{entry, getparam, param, Params, ParamsView};
use crate::services::{find_service, service_port};
use crate::text::{
    chars_of, concat, cut, find, find_char, find_str, find_text, is_text, lemma_find, lowered,
    opt_text, pieces, rfind, rfind_char, split, split_at_char, starts_with, string_of, texts,
    to_lower, trim, Text,
};

verus! {

/// The short usage banner.
pub const USAGE: &'static str = "\
usage: sc [-dDnhst45V] [-p local-port] [-R resolve] [-w timeout] [-W timeout]
              [-H proxy-server[:port]] [-S [user@]socks-server[:port]]
              [-T proxy-server[:port]] [-c telnet-proxy-command]
              [--family v4|v6|any] [--idle-timeout ms] host port
";

/// Long-form help: one line per flag. Printed by `--help`. Kept separate
/// from `USAGE` so the short banner stays scannable.
pub const LONG_HELP: &'static str = "\
sc — ssh-connect: an OpenSSH ProxyCommand replacement for SOCKS4/4a/5,
HTTP CONNECT, TELNET and direct connections. Drop-in replacement for
gotoh's connect.c.

Usage:
  sc [flags] host port

Method (pick one):
  -n              Direct TCP, no proxy.
  -h              HTTP CONNECT proxy from $HTTP_PROXY.
  -s              SOCKS proxy from $SOCKS_SERVER.
  -t              TELNET proxy from $TELNET_PROXY.
  -H host[:port]  HTTP CONNECT proxy (explicit host).
  -S [user@]host[:port]   SOCKS proxy (explicit host).
  -T host[:port]  TELNET proxy (explicit host).

SOCKS version (with -s or -S):
  -4              SOCKS v4 / 4a.
  -5              SOCKS v5 (default).

Listening & timeouts:
  -p PORT         Accept one local TCP connection on PORT, relay to
                  remote, exit.
  -P PORT         Same as -p but keep the remote session across multiple
                  accepts (hold-session).
  -w SECS         Connect-timeout (0 = no timeout).
  -W MS           Relay idle-timeout per direction; 0 disables.

Tuning:
  -R MODE|IP      SOCKS resolve mode: local / remote / both, or an IPv4
                  address to use as a custom resolver.
  -a LIST         Comma-separated auth methods: none,userpass.
  -c CMD          Telnet proxy command template (%h host, %p port).
  -D              Auto-add local interface addresses to the direct
                  (bypass-proxy) list.
  -d              Debug (repeat to increase verbosity: -dd, -ddd).
  --family v4|v6|any     Address-family filter.
  --idle-timeout MS      Same as -W.

Positional:
  host port       Destination. Port can be omitted if the binary is
                  symlinked as `connect-PORT`.

Other:
  -V, --version     Print version and exit.
  --help             Print this message and exit.

Environment (per-method fallback chain):
  SOCKS5_SERVER, SOCKS4_SERVER, SOCKS_SERVER
  HTTP_PROXY, TELNET_PROXY
  SOCKS5_USER, SOCKS_USER, SOCKS4_USER, HTTP_PROXY_USER, CONNECT_USER,
  LOGNAME, USER
  SOCKS5_PASSWD, SOCKS5_PASSWORD, HTTP_PROXY_PASSWORD, CONNECT_PASSWORD
  SOCKS5_RESOLVE, SOCKS4_RESOLVE, SOCKS_RESOLVE
  SOCKS5_DIRECT, SOCKS4_DIRECT, HTTP_DIRECT, CONNECT_DIRECT
  SSH_ASKPASS, DISPLAY (Unix only)
  /etc/connectrc and ~/.connectrc are also read.
";

/// The version that `-V` prints.
pub const VERSION: &'static str = "0.1.0";

/// What an invocation asks for.
#[derive(Debug)]
pub enum Invocation {
    /// Connect as configured.
    Run(Config),
    /// Print the usage banner and exit with success.
    Usage,
    /// Print the long help and exit with success.
    Help,
    /// Print the version and exit with success.
    Version,
}

/// What an invocation asks for.
pub enum InvocationView {
    Run(ConfigView),
    Usage,
    Help,
    Version,
}

impl View for Invocation {
    type V = InvocationView;

    open spec fn view(&self) -> InvocationView {
        match self {
            Invocation::Run(cfg) => InvocationView::Run(cfg@),
            Invocation::Usage => InvocationView::Usage,
            Invocation::Help => InvocationView::Help,
            Invocation::Version => InvocationView::Version,
        }
    }
}

impl Invocation {
    /// The configuration to run with, where there is one.
    pub fn config(self) -> (r: Option<Config>)
        ensures
            match r {
                Some(cfg) => self@ == InvocationView::Run(cfg@),
                None => !(self@ is Run),
            },
    {
        match self {
            Invocation::Run(cfg) => Some(cfg),
            _ => None,
        }
    }
}

// ---- Ports ----

/// A port: a number, otherwise a service name.
pub open spec fn port_of(s: Text, services: Text) -> Option<u16> {
    if parse_number(s, 0xffff) is Some {
        Some(parse_number(s, 0xffff)->0 as u16)
    } else {
        service_port(services, s)
    }
}

/// The error for a port that is neither.
pub open spec fn bad_port(s: Text) -> ErrorView {
    ErrorView::Config("invalid port: "@ + s)
}

/// Parse a port spec: digits are a number, anything else is looked up among the
/// services (the text of `/etc/services`).
pub fn parse_port(s: &str, services: &str) -> (r: Result<u16>)
    ensures
        match r {
            Ok(p) => port_of(s@, services@) == Some(p),
            Err(e) => port_of(s@, services@) is None && e@ == bad_port(s@),
        },
{
    let v = chars_of(s);
    if let Some(n) = read_number(v.as_slice(), 0xffff) {
        return Ok(n as u16);
    }
    match find_service(services, s) {
        Some(p) => Ok(p),
        None => Err(Error::Config(concat("invalid port: ", s))),
    }
}

// ---- Relay specs ----

/// The parts of `[user@]host[:port]`.
pub struct RelayParts {
    pub user: Option<Text>,
    pub host: Text,
    pub port: Option<u16>,
}

/// A relay spec without the white space around it and, for HTTP, without
/// `http://` before it and a path behind it.
pub open spec fn bare_spec(spec: Text, method: ProxyMethod) -> Text {
    let s = trim(spec);
    if method == ProxyMethod::Http {
        let t = if "http://"@.is_prefix_of(s) {
            s.skip("http://"@.len() as int)
        } else {
            s
        };
        t.take(find(t, '/'))
    } else {
        s
    }
}

/// How a relay spec divides: the user before the first `@`, the port behind the
/// last `:` where that is a number.
pub open spec fn relay_parts(spec: Text, method: ProxyMethod) -> RelayParts {
    let s = bare_spec(spec, method);
    let at = find(s, '@');
    let t = if at < s.len() {
        s.skip(at + 1)
    } else {
        s
    };
    let colon = rfind(t, ':');
    let port = if colon >= 0 {
        parse_number(t.skip(colon + 1), 0xffff)
    } else {
        None
    };
    RelayParts {
        user: if at < s.len() {
            Some(s.take(at))
        } else {
            None
        },
        host: if port is Some {
            t.take(colon)
        } else {
            t
        },
        port: match port {
            Some(p) => Some(p as u16),
            None => None,
        },
    }
}

/// The configuration after a relay spec was read; a spec without a host sets the
/// method and nothing else.
pub open spec fn with_relay(spec: Text, method: ProxyMethod, cfg: ConfigView) -> ConfigView {
    let p = relay_parts(spec, method);
    let base = ConfigView { relay_method: method, proxy_auth: ProxyAuthType::NoAuth, ..cfg };
    if p.host.len() == 0 {
        base
    } else {
        ConfigView {
            relay_host: Some(p.host),
            relay_port: if p.port is Some && p.port->0 > 0 {
                p.port->0
            } else {
                cfg.relay_port
            },
            relay_user: if p.user is Some {
                p.user
            } else {
                cfg.relay_user
            },
            ..base
        }
    }
}

/// The error of a relay spec, where it has one.
pub open spec fn relay_error(spec: Text, method: ProxyMethod) -> Option<ErrorView> {
    if relay_parts(spec, method).host.len() == 0 {
        Some(ErrorView::Config("empty host in relay spec: "@ + spec))
    } else {
        None
    }
}

/// Parse a `[-S|-H|-T]` value: `[user@]host[:port]`, with optional
/// `http://` prefix and trailing path stripped for `-H`.
pub fn parse_relay_spec(spec: &str, method: ProxyMethod, cfg: &mut Config) -> (r: Result<()>)
    ensures
        final(cfg)@ == with_relay(spec@, method, old(cfg)@),
        match r {
            Ok(_) => relay_error(spec@, method) is None,
            Err(e) => relay_error(spec@, method) == Some(e@),
        },
{
    let v = chars_of(spec);
    let mut s = cut(v.as_slice());
    cfg.relay_method = method;
    cfg.proxy_auth = ProxyAuthType::NoAuth;
    if method == ProxyMethod::Http {
        proof {
            reveal_strlit("http://");
        }
        if starts_with(s, "http://") {
            let n = s.len();
            let rest = slice_subrange(s, 7, n);
            assert(rest@ =~= s@.skip(7));
            s = rest;
        }
        proof {
            lemma_find(s@, '/');
        }
        let ghost t = s@;
        match find_char(s, '/') {
            Some(i) => {
                s = slice_subrange(s, 0, i);
                assert(s@ =~= t.take(i as int));
            },
            None => {
                assert(t.take(t.len() as int) =~= t);
            },
        }
    }
    assert(s@ == bare_spec(spec@, method));
    let ghost bare = s@;
    proof {
        lemma_find(bare, '@');
    }
    let mut user: Option<String> = None;
    if let Some(at) = find_char(s, '@') {
        let n = s.len();
        let head = slice_subrange(s, 0, at);
        let tail = slice_subrange(s, at + 1, n);
        assert(head@ =~= bare.take(at as int));
        assert(tail@ =~= bare.skip(at + 1));
        user = Some(string_of(head));
        s = tail;
    }
    let ghost t = s@;
    let mut host = s;
    let mut port: u16 = 0;
    if let Some(colon) = rfind_char(s, ':') {
        let n = s.len();
        let tail = slice_subrange(s, colon + 1, n);
        assert(tail@ =~= t.skip(colon + 1));
        if let Some(p) = read_number(tail, 0xffff) {
            port = p as u16;
            host = slice_subrange(s, 0, colon);
            assert(host@ =~= t.take(colon as int));
        }
    }
    let ghost parts = relay_parts(spec@, method);
    assert(host@ == parts.host);
    assert(opt_text(user) == parts.user);
    if host.len() == 0 {
        return Err(Error::Config(concat("empty host in relay spec: ", spec)));
    }
    cfg.relay_host = Some(string_of(host));
    if port > 0 {
        cfg.relay_port = port;
    }
    if user.is_some() {
        cfg.relay_user = user;
    }
    Ok(())
}

// ---- Flags ----

/// Where the reading of flags stands.
pub enum Scan {
    /// Go on at this place.
    Next(ConfigView, int),
    /// Nothing more to read.
    Stop(InvocationView),
    Fail(ErrorView),
}

/// The configuration after a flag that takes no value.
pub open spec fn with_switch(c: char, cfg: ConfigView) -> Option<ConfigView> {
    match c {
        'd' => Some(
            ConfigView {
                f_debug: if cfg.f_debug < 255 {
                    (cfg.f_debug + 1) as u8
                } else {
                    255
                },
                ..cfg
            },
        ),
        'D' => Some(ConfigView { f_auto_direct: true, ..cfg }),
        'n' => Some(ConfigView { relay_method: ProxyMethod::Direct, ..cfg }),
        'h' => Some(ConfigView { relay_method: ProxyMethod::Http, ..cfg }),
        's' => Some(ConfigView { relay_method: ProxyMethod::Socks, ..cfg }),
        't' => Some(ConfigView { relay_method: ProxyMethod::Telnet, ..cfg }),
        '4' => Some(ConfigView { socks_version: 4, ..cfg }),
        '5' => Some(ConfigView { socks_version: 5, ..cfg }),
        _ => None,
    }
}

/// The flags that take the next argument as their value.
pub open spec fn takes_value(c: char) -> bool {
    c == 'P' || c == 'p' || c == 'w' || c == 'W' || c == 'S' || c == 'H' || c == 'T' || c == 'c'
        || c == 'a' || c == 'R'
}

/// The configuration that listens on a port.
pub open spec fn with_listen(
    value: Text,
    services: Text,
    cfg: ConfigView,
) -> std::result::Result<ConfigView, ErrorView> {
    match port_of(value, services) {
        Some(p) => Ok(ConfigView { local_type: LocalType::Socket(p), ..cfg }),
        None => Err(bad_port(value)),
    }
}

/// The configuration with a relay.
pub open spec fn with_relay_flag(
    value: Text,
    method: ProxyMethod,
    cfg: ConfigView,
) -> std::result::Result<ConfigView, ErrorView> {
    match relay_error(value, method) {
        Some(e) => Err(e),
        None => Ok(with_relay(value, method, cfg)),
    }
}

/// The configuration with an idle timeout; `what` is how an error begins.
pub open spec fn with_idle(
    value: Text,
    what: Text,
    cfg: ConfigView,
) -> std::result::Result<ConfigView, ErrorView> {
    match parse_number(value, 0xffff_ffff_ffff_ffff) {
        Some(ms) => Ok(ConfigView { read_timeout_ms: ms as u64, ..cfg }),
        None => Err(ErrorView::Config(what + value)),
    }
}

/// The configuration with a resolve mode or a name server.
pub open spec fn with_resolve(
    value: Text,
    cfg: ConfigView,
) -> std::result::Result<ConfigView, ErrorView> {
    if resolve_mode_of(value) is Some {
        Ok(ConfigView { socks_resolve: resolve_mode_of(value)->0, ..cfg })
    } else if parse_ipv4(value) is Some {
        Ok(
            ConfigView {
                socks_ns: parse_ipv4(value),
                socks_resolve: ResolveMode::Local,
                ..cfg
            },
        )
    } else {
        Err(ErrorView::Config("invalid -R argument: "@ + value))
    }
}

/// The configuration after a flag with its value.
pub open spec fn with_value(
    c: char,
    value: Text,
    services: Text,
    cfg: ConfigView,
) -> std::result::Result<ConfigView, ErrorView> {
    match c {
        'P' => with_listen(value, services, ConfigView { f_hold_session: true, ..cfg }),
        'p' => with_listen(value, services, cfg),
        'w' => match parse_number(value, 0xffff_ffff) {
            Some(n) => Ok(ConfigView { connect_timeout: n as u32, ..cfg }),
            None => Err(ErrorView::Config("invalid timeout: "@ + value)),
        },
        'W' => with_idle(value, "invalid idle timeout: "@, cfg),
        'S' => with_relay_flag(value, ProxyMethod::Socks, cfg),
        'H' => with_relay_flag(value, ProxyMethod::Http, cfg),
        'T' => with_relay_flag(value, ProxyMethod::Telnet, cfg),
        'c' => Ok(ConfigView { telnet_command: Some(value), ..cfg }),
        'a' => Ok(ConfigView { socks5_auth: Some(value), ..cfg }),
        _ => with_resolve(value, cfg),
    }
}

/// The error of a flag at the end of the arguments.
pub open spec fn missing_value(pos: int) -> ErrorView {
    ErrorView::Config(
        "option at index "@ + decimal(pos as nat) + " requires an argument"@,
    )
}

/// Reads the short flags of the argument at `pos`, one after the other. A flag that
/// takes a value takes the argument behind `used`, the last one that is used.
pub open spec fn short_flags(
    args: Seq<Text>,
    pos: int,
    used: int,
    services: Text,
    flags: Text,
    cfg: ConfigView,
) -> Scan
    decreases flags.len(),
{
    if flags.len() == 0 {
        Scan::Next(cfg, used + 1)
    } else if flags[0] == 'V' {
        Scan::Stop(InvocationView::Version)
    } else if with_switch(flags[0], cfg) is Some {
        short_flags(args, pos, used, services, flags.drop_first(), with_switch(flags[0], cfg)->0)
    } else if !takes_value(flags[0]) {
        Scan::Fail(ErrorView::UnknownOption(flags[0]))
    } else if used + 1 >= args.len() {
        Scan::Fail(missing_value(pos))
    } else {
        match with_value(flags[0], args[used + 1], services, cfg) {
            Ok(c) => short_flags(args, pos, used + 1, services, flags.drop_first(), c),
            Err(e) => Scan::Fail(e),
        }
    }
}

/// The configuration after a long flag with its value.
pub open spec fn with_long_value(
    name: Text,
    value: Text,
    cfg: ConfigView,
) -> std::result::Result<ConfigView, ErrorView> {
    if name == "family"@ {
        match family_of(value) {
            Some(f) => Ok(ConfigView { family: f, ..cfg }),
            None => Err(ErrorView::Config("invalid --family: "@ + value)),
        }
    } else {
        with_idle(value, "invalid --idle-timeout: "@, cfg)
    }
}

/// Reads the long flag of the argument at `pos`, without its dashes: `name`,
/// `name=value`, or `name` with the value in the next argument.
pub open spec fn long_flag(args: Seq<Text>, pos: int, flag: Text, cfg: ConfigView) -> Scan {
    let eq = find(flag, '=');
    let name = flag.take(eq);
    if name == "help"@ {
        Scan::Stop(InvocationView::Help)
    } else if name == "version"@ {
        Scan::Stop(InvocationView::Version)
    } else if name != "family"@ && name != "idle-timeout"@ {
        Scan::Fail(ErrorView::Config("unknown long option: --"@ + name))
    } else if eq < flag.len() {
        match with_long_value(name, flag.skip(eq + 1), cfg) {
            Ok(c) => Scan::Next(c, pos + 1),
            Err(e) => Scan::Fail(e),
        }
    } else if pos + 1 >= args.len() {
        Scan::Fail(ErrorView::Config("--"@ + name + " requires an argument"@))
    } else {
        match with_long_value(name, args[pos + 1], cfg) {
            Ok(c) => Scan::Next(c, pos + 2),
            Err(e) => Scan::Fail(e),
        }
    }
}

/// Reads one argument that starts with a dash.
pub open spec fn flag_at(args: Seq<Text>, pos: int, services: Text, cfg: ConfigView) -> Scan {
    if "--"@.is_prefix_of(args[pos]) {
        long_flag(args, pos, args[pos].skip(2), cfg)
    } else {
        short_flags(args, pos, pos, services, args[pos].skip(1), cfg)
    }
}

/// Whether the argument is a flag to read: it starts with a dash and is neither a
/// single dash nor the two dashes that end the flags.
pub open spec fn is_flag(a: Text) -> bool {
    a.len() > 1 && a[0] == '-' && a != "--"@
}

/// Reads flags from `pos` on, up to the first argument that is none.
pub open spec fn scan_flags(args: Seq<Text>, pos: int, services: Text, cfg: ConfigView) -> Scan
    decreases args.len() - pos,
    via scan_flags_decreases
{
    if pos >= args.len() {
        Scan::Next(cfg, pos)
    } else if args[pos] == "--"@ {
        Scan::Next(cfg, pos + 1)
    } else if !is_flag(args[pos]) {
        Scan::Next(cfg, pos)
    } else {
        match flag_at(args, pos, services, cfg) {
            Scan::Next(c, p) => scan_flags(args, p, services, c),
            s => s,
        }
    }
}

#[via_fn]
proof fn scan_flags_decreases(args: Seq<Text>, pos: int, services: Text, cfg: ConfigView) {
    if pos < args.len() && args[pos] != "--"@ && is_flag(args[pos]) {
        lemma_short_flags_advance(args, pos, pos, services, args[pos].skip(1), cfg);
    }
}

/// Reading flags goes on behind what they used, and not behind the end.
pub proof fn lemma_short_flags_advance(
    args: Seq<Text>,
    pos: int,
    used: int,
    services: Text,
    flags: Text,
    cfg: ConfigView,
)
    ensures
        short_flags(args, pos, used, services, flags, cfg) matches Scan::Next(_, p) ==> p == used
            + 1 || used + 1 < p <= args.len(),
    decreases flags.len(),
{
    if flags.len() > 0 {
        let rest = flags.drop_first();
        if with_switch(flags[0], cfg) is Some {
            lemma_short_flags_advance(
                args,
                pos,
                used,
                services,
                rest,
                with_switch(flags[0], cfg)->0,
            );
        } else if used + 1 < args.len() {
            if let Ok(c) = with_value(flags[0], args[used + 1], services, cfg) {
                lemma_short_flags_advance(args, pos, used + 1, services, rest, c);
            }
        }
    }
}

/// How the reading of a flag went on.
enum Flow {
    Next(usize),
    Help,
    Version,
}

/// How the reading of a flag went on, with the configuration that it left.
spec fn flow_view(r: Result<Flow>, cfg: ConfigView) -> Scan {
    match r {
        Ok(Flow::Next(p)) => Scan::Next(cfg, p as int),
        Ok(Flow::Help) => Scan::Stop(InvocationView::Help),
        Ok(Flow::Version) => Scan::Stop(InvocationView::Version),
        Err(e) => Scan::Fail(e@),
    }
}

/// Sets a flag that takes no value.
fn set_switch(c: char, cfg: &mut Config) -> (r: bool)
    ensures
        r == (with_switch(c, old(cfg)@) is Some),
        r ==> with_switch(c, old(cfg)@) == Some(final(cfg)@),
        !r ==> final(cfg)@ == old(cfg)@,
{
    match c {
        'd' => {
            if cfg.f_debug < 255 {
                cfg.f_debug = cfg.f_debug + 1;
            }
        },
        'D' => {
            cfg.f_auto_direct = true;
        },
        'n' => {
            cfg.relay_method = ProxyMethod::Direct;
        },
        'h' => {
            cfg.relay_method = ProxyMethod::Http;
        },
        's' => {
            cfg.relay_method = ProxyMethod::Socks;
        },
        't' => {
            cfg.relay_method = ProxyMethod::Telnet;
        },
        '4' => {
            cfg.socks_version = 4;
        },
        '5' => {
            cfg.socks_version = 5;
        },
        _ => {
            return false;
        },
    }
    true
}

/// Sets an idle timeout.
fn set_idle(value: &str, what: &str, cfg: &mut Config) -> (r: Result<()>)
    ensures
        match r {
            Ok(_) => with_idle(value@, what@, old(cfg)@) == Ok::<ConfigView, ErrorView>(
                final(cfg)@,
            ),
            Err(e) => with_idle(value@, what@, old(cfg)@) == Err::<ConfigView, ErrorView>(e@),
        },
{
    let v = chars_of(value);
    match read_number(v.as_slice(), 0xffff_ffff_ffff_ffff) {
        Some(ms) => {
            cfg.read_timeout_ms = ms;
            Ok(())
        },
        None => Err(Error::Config(concat(what, value))),
    }
}

/// Sets a flag with its value.
fn set_value(c: char, value: &str, services: &str, cfg: &mut Config) -> (r: Result<()>)
    requires
        takes_value(c),
    ensures
        match r {
            Ok(_) => with_value(c, value@, services@, old(cfg)@) == Ok::<ConfigView, ErrorView>(
                final(cfg)@,
            ),
            Err(e) => with_value(c, value@, services@, old(cfg)@) == Err::<ConfigView, ErrorView>(
                e@,
            ),
        },
{
    match c {
        'P' => {
            cfg.f_hold_session = true;
            match parse_port(value, services) {
                Ok(p) => {
                    cfg.local_type = LocalType::Socket(p);
                    Ok(())
                },
                Err(e) => Err(e),
            }
        },
        'p' => match parse_port(value, services) {
            Ok(p) => {
                cfg.local_type = LocalType::Socket(p);
                Ok(())
            },
            Err(e) => Err(e),
        },
        'w' => {
            let v = chars_of(value);
            match read_number(v.as_slice(), 0xffff_ffff) {
                Some(n) => {
                    cfg.connect_timeout = n as u32;
                    Ok(())
                },
                None => Err(Error::Config(concat("invalid timeout: ", value))),
            }
        },
        'W' => set_idle(value, "invalid idle timeout: ", cfg),
        'S' => parse_relay_spec(value, ProxyMethod::Socks, cfg),
        'H' => parse_relay_spec(value, ProxyMethod::Http, cfg),
        'T' => parse_relay_spec(value, ProxyMethod::Telnet, cfg),
        'c' => {
            cfg.telnet_command = Some(value.to_owned());
            Ok(())
        },
        'a' => {
            cfg.socks5_auth = Some(value.to_owned());
            Ok(())
        },
        _ => match ResolveMode::from_str(value) {
            Ok(mode) => {
                cfg.socks_resolve = mode;
                Ok(())
            },
            Err(_) => {
                let v = chars_of(value);
                match read_ipv4(v.as_slice()) {
                    Some(ip) => {
                        cfg.socks_ns = Some(ip);
                        cfg.socks_resolve = ResolveMode::Local;
                        Ok(())
                    },
                    None => Err(Error::Config(concat("invalid -R argument: ", value))),
                }
            },
        },
    }
}

/// Whether a flag takes the next argument as its value.
fn wants_value(c: char) -> (r: bool)
    ensures
        r == takes_value(c),
{
    c == 'P' || c == 'p' || c == 'w' || c == 'W' || c == 'S' || c == 'H' || c == 'T' || c == 'c'
        || c == 'a' || c == 'R'
}

/// Parse a short-flag string. For chained flags (`-abc`), all chars run
/// in sequence. For flags that take an argument, the next unused argv element
/// is consumed.
fn parse_short_flags(
    argv: &Vec<String>,
    pos: usize,
    services: &str,
    flags: &[char],
    cfg: &mut Config,
) -> (r: Result<Flow>)
    requires
        pos < argv@.len(),
    ensures
        flow_view(r, final(cfg)@) == short_flags(
            texts(argv@),
            pos as int,
            pos as int,
            services@,
            flags@,
            old(cfg)@,
        ),
{
    let ghost start = cfg@;
    let ghost args = texts(argv@);
    let n = argv.len();
    let mut used: usize = pos;
    assert(flags@.skip(0) =~= flags@);
    for i in 0..flags.len()
        invariant
            args == texts(argv@),
            n == argv.len(),
            pos <= used < n,
            start == old(cfg)@,
            short_flags(args, pos as int, pos as int, services@, flags@, start) == short_flags(
                args,
                pos as int,
                used as int,
                services@,
                flags@.skip(i as int),
                cfg@,
            ),
    {
        let c = flags[i];
        let ghost rest = flags@.skip(i as int);
        assert(rest[0] == c);
        assert(rest.drop_first() =~= flags@.skip(i + 1));
        if c == 'V' {
            return Ok(Flow::Version);
        }
        if !set_switch(c, cfg) {
            if !wants_value(c) {
                return Err(Error::UnknownOption(c));
            }
            if used + 1 >= n {
                let mut m = concat("option at index ", decimal_of(pos as u64).as_str());
                m.append(" requires an argument");
                return Err(Error::Config(m));
            }
            used = used + 1;
            assert(args[used as int] == argv@[used as int]@);
            match set_value(c, argv[used].as_str(), services, cfg) {
                Ok(_) => {},
                Err(e) => {
                    return Err(e);
                },
            }
        }
    }
    Ok(Flow::Next(used + 1))
}

/// Parse a long flag (the part after `--`). When the flag takes a value in a
/// separate argv element, that one is consumed too.
fn parse_long_flag(argv: &Vec<String>, pos: usize, flag: &[char], cfg: &mut Config) -> (r: Result<
    Flow,
>)
    requires
        pos < argv@.len(),
    ensures
        flow_view(r, final(cfg)@) == long_flag(texts(argv@), pos as int, flag@, old(cfg)@),
{
    proof {
        lemma_find(flag@, '=');
    }
    let ghost args = texts(argv@);
    let n = flag.len();
    let total = argv.len();
    let eq = match find_char(flag, '=') {
        Some(i) => i,
        None => n,
    };
    let name = slice_subrange(flag, 0, eq);
    assert(name@ =~= flag@.take(eq as int));
    if is_text(name, "help") {
        return Ok(Flow::Help);
    }
    if is_text(name, "version") {
        return Ok(Flow::Version);
    }
    let family = is_text(name, "family");
    if !family && !is_text(name, "idle-timeout") {
        return Err(
            Error::Config(concat("unknown long option: --", string_of(name).as_str())),
        );
    }
    let value: String;
    let next: usize;
    if eq < n {
        let tail = slice_subrange(flag, eq + 1, n);
        assert(tail@ =~= flag@.skip(eq + 1));
        value = string_of(tail);
        next = pos + 1;
    } else if pos + 1 >= total {
        let mut m = concat("--", string_of(name).as_str());
        m.append(" requires an argument");
        return Err(Error::Config(m));
    } else {
        assert(args[pos + 1] == argv@[pos + 1]@);
        value = argv[pos + 1].clone();
        next = pos + 2;
    }
    if family {
        match Family::from_str(value.as_str()) {
            Ok(f) => {
                cfg.family = f;
                Ok(Flow::Next(next))
            },
            Err(_) => Err(Error::Config(concat("invalid --family: ", value.as_str()))),
        }
    } else {
        proof {
            reveal_strlit("family");
            reveal_strlit("idle-timeout");
        }
        match set_idle(value.as_str(), "invalid --idle-timeout: ", cfg) {
            Ok(_) => Ok(Flow::Next(next)),
            Err(e) => Err(e),
        }
    }
}

/// Reads flags from the second argument on.
fn parse_flags(argv: &Vec<String>, services: &str, cfg: &mut Config) -> (r: Result<Flow>)
    requires
        argv@.len() >= 1,
    ensures
        flow_view(r, final(cfg)@) == scan_flags(texts(argv@), 1, services@, old(cfg)@),
        r matches Ok(Flow::Next(p)) ==> p <= argv@.len(),
{
    let ghost args = texts(argv@);
    let ghost start = cfg@;
    let n = argv.len();
    let mut pos: usize = 1;
    while pos < n
        invariant
            args == texts(argv@),
            start == old(cfg)@,
            n == argv.len(),
            1 <= pos <= n,
            scan_flags(args, 1, services@, start) == scan_flags(
                args,
                pos as int,
                services@,
                cfg@,
            ),
        decreases n - pos,
    {
        let v = chars_of(argv[pos].as_str());
        let a = v.as_slice();
        let ghost before = cfg@;
        assert(args[pos as int] == a@);
        if is_text(a, "--") {
            return Ok(Flow::Next(pos + 1));
        }
        let m = a.len();
        if m <= 1 || a[0] != '-' {
            return Ok(Flow::Next(pos));
        }
        proof {
            reveal_strlit("--");
        }
        let flow = if starts_with(a, "--") {
            let flag = slice_subrange(a, 2, m);
            assert(flag@ =~= a@.skip(2));
            parse_long_flag(argv, pos, flag, cfg)
        } else {
            let flags = slice_subrange(a, 1, m);
            assert(flags@ =~= a@.skip(1));
            proof {
                lemma_short_flags_advance(args, pos as int, pos as int, services@, flags@, cfg@);
            }
            parse_short_flags(argv, pos, services, flags, cfg)
        };
        assert(flow_view(flow, cfg@) == flag_at(args, pos as int, services@, before));
        match flow {
            Ok(Flow::Next(p)) => {
                pos = p;
            },
            other => {
                return other;
            },
        }
    }
    Ok(Flow::Next(pos))
}

// ---- Positional arguments ----

/// The last of some path components that names a file; empty where that is the
/// parent directory or there is none.
pub open spec fn last_name(parts: Seq<Text>) -> Text
    decreases parts.len(),
{
    if parts.len() == 0 {
        Seq::empty()
    } else if parts.last().len() == 0 || parts.last() == "."@ {
        last_name(parts.drop_last())
    } else if parts.last() == ".."@ {
        Seq::empty()
    } else {
        parts.last()
    }
}

/// The file name of a path.
pub open spec fn basename(path: Text) -> Text {
    last_name(split(path, '/'))
}

/// The port in a binary's name: what follows the first `connect-`.
pub open spec fn name_port(argv0: Text, services: Text) -> Option<u16> {
    let b = basename(argv0);
    let k = find_text(b, "connect-"@);
    if k < 0 {
        None
    } else {
        port_of(b.skip(k + "connect-"@.len()), services)
    }
}

/// The configuration with the destination that the arguments from `pos` on give:
/// `host [port]`.
pub open spec fn with_destination(
    args: Seq<Text>,
    pos: int,
    services: Text,
    cfg: ConfigView,
) -> std::result::Result<ConfigView, ErrorView> {
    let n = args.len() - pos;
    if n <= 0 {
        Err(ErrorView::Usage("missing host"@))
    } else if n == 1 {
        match name_port(args[0], services) {
            Some(p) => if p == 0 {
                Err(ErrorView::BadDefaultPort)
            } else {
                Ok(ConfigView { dest_host: args[pos], dest_port: p, ..cfg })
            },
            None => Err(ErrorView::BadDefaultPort),
        }
    } else {
        match port_of(args[pos + 1], services) {
            None => Err(bad_port(args[pos + 1])),
            Some(p) => if n > 2 {
                Err(ErrorView::Usage("unexpected argument: "@ + args[pos + 2]))
            } else {
                Ok(ConfigView { dest_host: args[pos], dest_port: p, ..cfg })
            },
        }
    }
}

/// The file name of a path.
fn file_name(path: &str) -> (r: Vec<char>)
    ensures
        r@ == basename(path@),
{
    let v = chars_of(path);
    let parts = split_at_char(v.as_slice(), '/');
    let ghost all = pieces(parts@);
    let mut n: usize = parts.len();
    assert(all.take(n as int) =~= all);
    while n > 0
        invariant
            n <= parts@.len(),
            all == pieces(parts@),
            all == split(path@, '/'),
            last_name(all.take(n as int)) == last_name(all),
        decreases n,
    {
        let ghost t = all.take(n as int);
        assert(t.last() == parts@[n - 1]@);
        assert(t.drop_last() =~= all.take(n - 1));
        let p = parts[n - 1].as_slice();
        if p.len() > 0 && !is_text(p, ".") {
            if is_text(p, "..") {
                return Vec::new();
            }
            return vstd::slice::slice_to_vec(p);
        }
        n = n - 1;
    }
    Vec::new()
}

/// Parse trailing positional args: `host [port]`. Falls back to the
/// `connect-NNN` basename when port is missing.
fn parse_positional(argv: &Vec<String>, pos: usize, services: &str, cfg: &mut Config) -> (r:
    Result<()>)
    requires
        argv@.len() >= 1,
        pos <= argv@.len(),
    ensures
        match r {
            Ok(_) => with_destination(texts(argv@), pos as int, services@, old(cfg)@) == Ok::<
                ConfigView,
                ErrorView,
            >(final(cfg)@),
            Err(e) => with_destination(texts(argv@), pos as int, services@, old(cfg)@) == Err::<
                ConfigView,
                ErrorView,
            >(e@),
        },
{
    let ghost args = texts(argv@);
    let n = argv.len();
    if pos >= n {
        return Err(Error::Usage("missing host".to_owned()));
    }
    assert(args[pos as int] == argv@[pos as int]@);
    if n - pos == 1 {
        cfg.dest_host = argv[pos].clone();
        assert(args[0] == argv@[0]@);
        let b = file_name(argv[0].as_str());
        proof {
            reveal_strlit("connect-");
        }
        if let Some(k) = find_str(b.as_slice(), "connect-") {
            let m = b.len();
            let rest = slice_subrange(b.as_slice(), k + 8, m);
            assert(rest@ =~= b@.skip(k + 8));
            if let Ok(p) = parse_port(string_of(rest).as_str(), services) {
                if p != 0 {
                    cfg.dest_port = p;
                    return Ok(());
                }
            }
        }
        return Err(Error::BadDefaultPort);
    }
    assert(args[pos + 1] == argv@[pos + 1]@);
    match parse_port(argv[pos + 1].as_str(), services) {
        Err(e) => Err(e),
        Ok(p) => {
            if n - pos > 2 {
                assert(args[pos + 2] == argv@[pos + 2]@);
                return Err(
                    Error::Usage(concat("unexpected argument: ", argv[pos + 2].as_str())),
                );
            }
            cfg.dest_host = argv[pos].clone();
            cfg.dest_port = p;
            Ok(())
        },
    }
}

// ---- Defaults ----

/// A value that is not empty.
pub open spec fn nonempty(v: Option<Text>) -> Option<Text> {
    match v {
        Some(s) => if s.len() > 0 {
            Some(s)
        } else {
            None
        },
        None => None,
    }
}

/// The first of two parameters that has a value.
pub open spec fn param_or(p: ParamsView, a: Text, b: Text) -> Option<Text> {
    if nonempty(param(p, a)) is Some {
        param(p, a)
    } else {
        nonempty(param(p, b))
    }
}

/// A relay spec that has a host.
pub open spec fn hosted(v: Option<Text>, method: ProxyMethod) -> Option<Text> {
    match v {
        Some(s) => if relay_error(s, method) is None {
            Some(s)
        } else {
            None
        },
        None => None,
    }
}

/// The relay spec that a parameter gives: the variable, where it is not empty, or
/// the parameter files'. A line of a file without a host counts for nothing; a
/// variable that is set to nothing counts where no file has a host.
pub open spec fn server(p: ParamsView, name: Text, method: ProxyMethod) -> Option<Text> {
    let var = entry(p.vars, name);
    let line = hosted(entry(p.file, lowered(name)), method);
    if nonempty(var) is Some || line is None {
        var
    } else {
        line
    }
}

/// The relay spec that the first of two parameters gives.
pub open spec fn server_or(p: ParamsView, a: Text, b: Text, method: ProxyMethod) -> Option<Text> {
    if server(p, a, method) is Some {
        server(p, a, method)
    } else {
        server(p, b, method)
    }
}

/// The relay spec of a method that was given none: the parameter of the method.
/// With no method at all, the parameter files may name a SOCKS5 server.
pub open spec fn default_relay(p: ParamsView, cfg: ConfigView) -> Option<(ProxyMethod, Text)> {
    let spec = match cfg.relay_method {
        ProxyMethod::Socks => server_or(
            p,
            if cfg.socks_version == 5 {
                "SOCKS5_SERVER"@
            } else if cfg.socks_version == 4 {
                "SOCKS4_SERVER"@
            } else {
                "SOCKS_SERVER"@
            },
            "SOCKS_SERVER"@,
            ProxyMethod::Socks,
        ),
        ProxyMethod::Http => server(p, "HTTP_PROXY"@, ProxyMethod::Http),
        ProxyMethod::Telnet => server(p, "TELNET_PROXY"@, ProxyMethod::Telnet),
        ProxyMethod::Undecided => if cfg.socks_version == 5 {
            hosted(entry(p.file, "socks5_server"@), ProxyMethod::Socks)
        } else {
            None
        },
        ProxyMethod::Direct => None,
    };
    if cfg.relay_host is Some {
        None
    } else {
        match spec {
            Some(s) => Some(
                (
                    if cfg.relay_method == ProxyMethod::Undecided {
                        ProxyMethod::Socks
                    } else {
                        cfg.relay_method
                    },
                    s,
                ),
            ),
            None => None,
        }
    }
}

/// The resolve mode of a SOCKS relay that was given none: what the parameters
/// say, otherwise that of the version.
pub open spec fn default_mode(p: ParamsView, version: u8) -> ResolveMode {
    let word = param_or(
        p,
        if version == 4 {
            "SOCKS4_RESOLVE"@
        } else {
            "SOCKS5_RESOLVE"@
        },
        "SOCKS_RESOLVE"@,
    );
    match word {
        Some(w) => match resolve_mode_of(w) {
            Some(m) => m,
            None => version_resolve(version),
        },
        None => version_resolve(version),
    }
}

/// The configuration with the defaults of its method filled in.
pub open spec fn with_method_defaults(p: ParamsView, cfg: ConfigView) -> ConfigView {
    ConfigView {
        relay_method: if cfg.relay_method == ProxyMethod::Undecided {
            ProxyMethod::Direct
        } else {
            cfg.relay_method
        },
        relay_port: if cfg.relay_method.is_proxy() && cfg.relay_port == 0 {
            method_port(cfg.relay_method)
        } else {
            cfg.relay_port
        },
        socks_resolve: if cfg.relay_method == ProxyMethod::Socks && cfg.socks_resolve
            == ResolveMode::Unknown {
            default_mode(p, cfg.socks_version)
        } else {
            cfg.socks_resolve
        },
        telnet_command: if cfg.relay_method == ProxyMethod::Telnet && cfg.telnet_command is None {
            Some("telnet %h %p"@)
        } else {
            cfg.telnet_command
        },
        ..cfg
    }
}

/// The configuration with every default filled in.
pub open spec fn with_defaults(
    p: ParamsView,
    cfg: ConfigView,
) -> std::result::Result<ConfigView, ErrorView> {
    match default_relay(p, cfg) {
        Some((method, spec)) => match with_relay_flag(spec, method, cfg) {
            Ok(c) => Ok(with_method_defaults(p, c)),
            Err(e) => Err(e),
        },
        None => Ok(with_method_defaults(p, cfg)),
    }
}

fn with_text(v: Option<String>) -> (r: Option<String>)
    ensures
        opt_text(r) == nonempty(opt_text(v)),
{
    match v {
        Some(s) => {
            if s.as_str().is_empty() {
                None
            } else {
                Some(s)
            }
        },
        None => None,
    }
}

fn getparam_or(params: &Params, a: &str, b: &str) -> (r: Option<String>)
    ensures
        opt_text(r) == param_or(params@, a@, b@),
{
    match with_text(getparam(params, a)) {
        Some(v) => Some(v),
        None => with_text(getparam(params, b)),
    }
}

fn with_host(v: Option<String>, method: ProxyMethod) -> (r: Option<String>)
    ensures
        opt_text(r) == hosted(opt_text(v), method),
{
    match v {
        Some(s) => {
            let mut trial = Config::default();
            match parse_relay_spec(s.as_str(), method, &mut trial) {
                Ok(_) => Some(s),
                Err(_) => None,
            }
        },
        None => None,
    }
}

fn get_server(params: &Params, name: &str, method: ProxyMethod) -> (r: Option<String>)
    ensures
        opt_text(r) == server(params@, name@, method),
{
    if let Some(v) = with_text(params.vars.get(name)) {
        return Some(v);
    }
    let v = chars_of(name);
    let w = to_lower(v.as_slice());
    match with_host(params.file.get(string_of(w.as_slice()).as_str()), method) {
        Some(v) => Some(v),
        None => params.vars.get(name),
    }
}

fn get_server_or(params: &Params, a: &str, b: &str, method: ProxyMethod) -> (r: Option<String>)
    ensures
        opt_text(r) == server_or(params@, a@, b@, method),
{
    match get_server(params, a, method) {
        Some(v) => Some(v),
        None => get_server(params, b, method),
    }
}

/// Resolve defaults from the parameters.
fn finalise(params: &Params, cfg: &mut Config) -> (r: Result<()>)
    ensures
        match r {
            Ok(_) => with_defaults(params@, old(cfg)@) == Ok::<ConfigView, ErrorView>(final(cfg)@),
            Err(e) => with_defaults(params@, old(cfg)@) == Err::<ConfigView, ErrorView>(e@),
        },
{
    if cfg.relay_host.is_none() {
        let spec = match cfg.relay_method {
            ProxyMethod::Socks => {
                let name = if cfg.socks_version == 5 {
                    "SOCKS5_SERVER"
                } else if cfg.socks_version == 4 {
                    "SOCKS4_SERVER"
                } else {
                    "SOCKS_SERVER"
                };
                get_server_or(params, name, "SOCKS_SERVER", ProxyMethod::Socks)
            },
            ProxyMethod::Http => get_server(params, "HTTP_PROXY", ProxyMethod::Http),
            ProxyMethod::Telnet => get_server(params, "TELNET_PROXY", ProxyMethod::Telnet),
            ProxyMethod::Undecided => if cfg.socks_version == 5 {
                with_host(params.file.get("socks5_server"), ProxyMethod::Socks)
            } else {
                None
            },
            ProxyMethod::Direct => None,
        };
        if let Some(s) = spec {
            let method = match cfg.relay_method {
                ProxyMethod::Undecided => ProxyMethod::Socks,
                m => m,
            };
            match parse_relay_spec(s.as_str(), method, cfg) {
                Ok(_) => {},
                Err(e) => {
                    return Err(e);
                },
            }
        }
    }
    let ghost mid = cfg@;
    // Default ports.
    match cfg.relay_method {
        ProxyMethod::Socks | ProxyMethod::Http | ProxyMethod::Telnet => {
            if cfg.relay_port == 0 {
                cfg.relay_port = Config::default_port(cfg.relay_method);
            }
        },
        _ => {},
    }
    // SOCKS resolve-mode default (REMOTE for v5, LOCAL for v4).
    if cfg.relay_method == ProxyMethod::Socks && cfg.socks_resolve == ResolveMode::Unknown {
        let name = if cfg.socks_version == 4 {
            "SOCKS4_RESOLVE"
        } else {
            "SOCKS5_RESOLVE"
        };
        let mut mode = Config::default_resolve(cfg.socks_version);
        if let Some(w) = getparam_or(params, name, "SOCKS_RESOLVE") {
            if let Ok(m) = ResolveMode::from_str(w.as_str()) {
                mode = m;
            }
        }
        cfg.socks_resolve = mode;
    }
    // Telnet default command.
    if cfg.relay_method == ProxyMethod::Telnet && cfg.telnet_command.is_none() {
        cfg.telnet_command = Some("telnet %h %p".to_owned());
    }
    // Default to DIRECT when no method flag was given.
    if cfg.relay_method == ProxyMethod::Undecided {
        cfg.relay_method = ProxyMethod::Direct;
    }
    assert(cfg@ == with_method_defaults(params@, mid));
    Ok(())
}

// ---- The whole ----

/// What a command line asks for.
pub open spec fn command_line(
    args: Seq<Text>,
    p: ParamsView,
    services: Text,
) -> std::result::Result<InvocationView, ErrorView> {
    if args.len() < 2 {
        Ok(InvocationView::Usage)
    } else {
        match scan_flags(args, 1, services, initial_config()) {
            Scan::Stop(i) => Ok(i),
            Scan::Fail(e) => Err(e),
            Scan::Next(c, pos) => match with_destination(args, pos, services, c) {
                Err(e) => Err(e),
                Ok(c2) => match with_defaults(p, c2) {
                    Err(e) => Err(e),
                    Ok(c3) => Ok(InvocationView::Run(c3)),
                },
            },
        }
    }
}

/// Entry point: parse `argv` (including argv[0]) and return what it asks for.
///
/// `params` are the environment variables and the parameter files, `services` is
/// the text of `/etc/services`.
pub fn parse(argv: &Vec<String>, params: &Params, services: &str) -> (r: Result<Invocation>)
    ensures
        match r {
            Ok(i) => command_line(texts(argv@), params@, services@) == Ok::<
                InvocationView,
                ErrorView,
            >(i@),
            Err(e) => command_line(texts(argv@), params@, services@) == Err::<
                InvocationView,
                ErrorView,
            >(e@),
        },
{
    if argv.len() < 2 {
        return Ok(Invocation::Usage);
    }
    let mut cfg = Config::new();
    match parse_flags(argv, services, &mut cfg) {
        Err(e) => Err(e),
        Ok(Flow::Help) => Ok(Invocation::Help),
        Ok(Flow::Version) => Ok(Invocation::Version),
        Ok(Flow::Next(pos)) => match parse_positional(argv, pos, services, &mut cfg) {
            Err(e) => Err(e),
            Ok(_) => match finalise(params, &mut cfg) {
                Err(e) => Err(e),
                Ok(_) => Ok(Invocation::Run(cfg)),
            },
        },
    }
}

} // verus!

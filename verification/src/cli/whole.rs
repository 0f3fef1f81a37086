//! What holds of whole command lines.

use vstd::prelude::*;
use vstd::string::*;

use crate::cli::flags::{law_end_of_flags, law_port, law_text_flags, lemma_flag};
use crate::cli::laws::{lemma_scan_advance, lemma_scan_agree, lemma_scan_shift};
use crate::cli::{
    command_line, default_relay, flag_at, is_flag, lemma_short_flags_advance, long_flag, name_port,
    relay_error, scan_flags, short_flags, takes_value, with_defaults, with_destination, with_listen,
    with_long_value, with_relay, with_relay_flag, with_resolve, with_switch, with_value,
    InvocationView, Scan,
};
use crate::config::{
    initial_config, ConfigView, Family, LocalType, ProxyAuthType, ProxyMethod, ResolveMode,
};
use crate::error::ErrorView;
use crate::number::{decimal, parse_number};
use crate::parameters::{entry, ParamsView};
use crate::services::service_port;
use crate::text::Text;

verus! {

// ---- Relays ----

/// `-S`, `-H` and `-T` read their value as a relay spec of their method.
pub proof fn law_relay_flags(
    args: Seq<Text>,
    pos: int,
    services: Text,
    cfg: ConfigView,
    method: ProxyMethod,
)
    requires
        0 <= pos,
        pos + 1 < args.len(),
        (args[pos] == seq!['-', 'S'] && method == ProxyMethod::Socks) || (args[pos] == seq![
            '-',
            'H',
        ] && method == ProxyMethod::Http) || (args[pos] == seq!['-', 'T'] && method
            == ProxyMethod::Telnet),
    ensures
        scan_flags(args, pos, services, cfg) == (match relay_error(args[pos + 1], method) {
            Some(e) => Scan::Fail(e),
            None => scan_flags(
                args,
                pos + 2,
                services,
                with_relay(args[pos + 1], method, cfg),
            ),
        }),
{
    let c = match method {
        ProxyMethod::Socks => 'S',
        ProxyMethod::Http => 'H',
        _ => 'T',
    };
    lemma_flag(args, pos, services, cfg, c);
}

// ---- Destinations ----

/// Without an argument the usage is asked for.
pub proof fn law_no_argument(argv0: Text, p: ParamsView, services: Text)
    ensures
        command_line(Seq::empty(), p, services) == Ok::<InvocationView, ErrorView>(
            InvocationView::Usage,
        ),
        command_line(seq![argv0], p, services) == Ok::<InvocationView, ErrorView>(
            InvocationView::Usage,
        ),
{
}

/// A host and a port behind the flags are the destination; the port is a number or
/// the name of a service.
pub proof fn law_destination(
    args: Seq<Text>,
    pos: int,
    services: Text,
    cfg: ConfigView,
    port: u16,
)
    requires
        0 < pos,
        pos + 2 == args.len(),
        args[pos + 1] == decimal(port as nat) || (parse_number(args[pos + 1], 0xffff) is None
            && service_port(services, args[pos + 1]) == Some(port)),
    ensures
        with_destination(args, pos, services, cfg) == Ok::<ConfigView, ErrorView>(
            ConfigView { dest_host: args[pos], dest_port: port, ..cfg },
        ),
{
    law_port(args[pos + 1], services, port);
}

/// A host alone goes to the port in the binary's name.
pub proof fn law_destination_by_name(
    args: Seq<Text>,
    pos: int,
    services: Text,
    cfg: ConfigView,
    port: u16,
)
    requires
        0 < pos,
        pos + 1 == args.len(),
        name_port(args[0], services) == Some(port),
        port > 0,
    ensures
        with_destination(args, pos, services, cfg) == Ok::<ConfigView, ErrorView>(
            ConfigView { dest_host: args[pos], dest_port: port, ..cfg },
        ),
{
}

/// A command line without a host, with a port that is none, with too much, and
/// without a port that the binary's name could give is refused.
pub proof fn law_refused_destination(args: Seq<Text>, pos: int, services: Text, cfg: ConfigView)
    requires
        0 < pos <= args.len(),
    ensures
        ({
            let got = with_destination(args, pos, services, cfg);
            let n = args.len() - pos;
            &&& n == 0 ==> got == Err::<ConfigView, ErrorView>(ErrorView::Usage("missing host"@))
            &&& n >= 2 && parse_number(args[pos + 1], 0xffff) is None && service_port(
                services,
                args[pos + 1],
            ) is None ==> got == Err::<ConfigView, ErrorView>(
                ErrorView::Config("invalid port: "@ + args[pos + 1]),
            )
            &&& n > 2 && parse_number(args[pos + 1], 0xffff) is Some ==> got == Err::<
                ConfigView,
                ErrorView,
            >(ErrorView::Usage("unexpected argument: "@ + args[pos + 2]))
            &&& n == 1 && (name_port(args[0], services) is None || name_port(args[0], services)
                == Some(0u16)) ==> got == Err::<ConfigView, ErrorView>(ErrorView::BadDefaultPort)
        }),
{
}

/// A host and a port and nothing else: a direct connection there, with everything else
/// at its default.
pub proof fn law_plain_command_line(
    argv0: Text,
    host: Text,
    port: u16,
    p: ParamsView,
    services: Text,
)
    requires
        host.len() > 0,
        host[0] != '-',
        entry(p.file, "socks5_server"@) is None,
    ensures
        command_line(seq![argv0, host, decimal(port as nat)], p, services) == Ok::<
            InvocationView,
            ErrorView,
        >(
            InvocationView::Run(
                ConfigView {
                    relay_method: ProxyMethod::Direct,
                    relay_host: None,
                    relay_port: 0,
                    relay_user: None,
                    socks_version: 5,
                    socks_resolve: ResolveMode::Unknown,
                    socks_ns: None,
                    socks5_auth: None,
                    dest_host: host,
                    dest_port: port,
                    local_type: LocalType::Stdio,
                    f_hold_session: false,
                    f_auto_direct: false,
                    connect_timeout: 0,
                    read_timeout_ms: 0,
                    f_debug: 0,
                    family: Family::Any,
                    telnet_command: None,
                    proxy_auth: ProxyAuthType::NoAuth,
                },
            ),
        ),
{
    let args = seq![argv0, host, decimal(port as nat)];
    law_end_of_flags(args, 1, services, initial_config());
    law_destination(args, 1, services, initial_config(), port);
}

/// What is run is what the flags and the destination say, with the defaults filled in;
/// what is refused is refused by one of the three.
pub proof fn law_three_parts(args: Seq<Text>, p: ParamsView, services: Text)
    requires
        args.len() >= 2,
    ensures
        match scan_flags(args, 1, services, initial_config()) {
            Scan::Stop(i) => command_line(args, p, services) == Ok::<InvocationView, ErrorView>(i),
            Scan::Fail(e) => command_line(args, p, services) == Err::<InvocationView, ErrorView>(e),
            Scan::Next(c, pos) => match with_destination(args, pos, services, c) {
                Err(e) => command_line(args, p, services) == Err::<InvocationView, ErrorView>(e),
                Ok(d) => match with_defaults(p, d) {
                    Err(e) => command_line(args, p, services) == Err::<InvocationView, ErrorView>(
                        e,
                    ),
                    Ok(r) => command_line(args, p, services) == Ok::<InvocationView, ErrorView>(
                        InvocationView::Run(r),
                    ),
                },
            },
        },
{
}

/// What the flags set is there when the program runs: no default and no destination
/// changes it.
pub proof fn law_flags_are_kept(args: Seq<Text>, p: ParamsView, services: Text)
    requires
        args.len() >= 2,
    ensures
        scan_flags(args, 1, services, initial_config()) matches Scan::Next(c, pos) ==> (
        command_line(args, p, services) matches Ok(InvocationView::Run(r)) ==> {
            &&& r.socks_version == c.socks_version
            &&& r.socks_ns == c.socks_ns
            &&& r.socks5_auth == c.socks5_auth
            &&& r.local_type == c.local_type
            &&& r.f_hold_session == c.f_hold_session
            &&& r.f_auto_direct == c.f_auto_direct
            &&& r.connect_timeout == c.connect_timeout
            &&& r.read_timeout_ms == c.read_timeout_ms
            &&& r.f_debug == c.f_debug
            &&& r.family == c.family
            &&& c.relay_host is Some ==> r.relay_host == c.relay_host && r.relay_user
                == c.relay_user
            &&& c.relay_method != ProxyMethod::Undecided ==> r.relay_method == c.relay_method
            &&& c.relay_host is Some && c.relay_port != 0 ==> r.relay_port == c.relay_port
            &&& c.socks_resolve != ResolveMode::Unknown ==> r.socks_resolve == c.socks_resolve
            &&& c.telnet_command is Some ==> r.telnet_command == c.telnet_command
        }),
{
}

// ---- A flag more ----

/// The outcome with a change of the configuration.
spec fn mapped(s: Scan, f: spec_fn(ConfigView) -> ConfigView) -> Scan {
    match s {
        Scan::Next(c, p) => Scan::Next(f(c), p),
        other => other,
    }
}

/// The flag neither reads nor sets what the change is about.
spec fn apart(c: char, f: spec_fn(ConfigView) -> ConfigView) -> bool {
    &&& forall|cfg: ConfigView|
        #[trigger] with_switch(c, f(cfg)) == (match with_switch(c, cfg) {
            Some(d) => Some(f(d)),
            None => None,
        })
    &&& forall|v: Text, services: Text, cfg: ConfigView|
        #[trigger] with_value(c, v, services, f(cfg)) == (match with_value(c, v, services, cfg) {
            Ok(d) => Ok(f(d)),
            Err(e) => Err(e),
        })
}

/// No argument is a short flag, or holds one, that the change is about.
spec fn args_apart(args: Seq<Text>, f: spec_fn(ConfigView) -> ConfigView) -> bool {
    &&& forall|i: int, j: int|
        #![trigger args[i][j]]
        0 <= i < args.len() && 0 < j < args[i].len() && args[i][0] == '-' && args[i][1] != '-'
            ==> apart(args[i][j], f)
    &&& forall|name: Text, v: Text, cfg: ConfigView|
        #[trigger] with_long_value(name, v, f(cfg)) == (match with_long_value(name, v, cfg) {
            Ok(d) => Ok(f(d)),
            Err(e) => Err(e),
        })
}

proof fn lemma_short_apart(
    args: Seq<Text>,
    p: int,
    u: int,
    services: Text,
    flags: Text,
    cfg: ConfigView,
    f: spec_fn(ConfigView) -> ConfigView,
)
    requires
        forall|i: int| 0 <= i < flags.len() ==> apart(#[trigger] flags[i], f),
    ensures
        short_flags(args, p, u, services, flags, f(cfg)) == mapped(
            short_flags(args, p, u, services, flags, cfg),
            f,
        ),
    decreases flags.len(),
{
    if flags.len() > 0 {
        let rest = flags.drop_first();
        assert(apart(flags[0], f));
        assert forall|i: int| 0 <= i < rest.len() implies apart(#[trigger] rest[i], f) by {
            assert(rest[i] == flags[i + 1]);
        }
        if flags[0] != 'V' {
            if with_switch(flags[0], cfg) is Some {
                let d = with_switch(flags[0], cfg)->0;
                assert(with_switch(flags[0], f(cfg)) == Some(f(d)));
                lemma_short_apart(args, p, u, services, rest, d, f);
            } else if takes_value(flags[0]) && u + 1 < args.len() {
                assert(with_switch(flags[0], f(cfg)) is None);
                let v = args[u + 1];
                assert(with_value(flags[0], v, services, f(cfg)) == (match with_value(
                    flags[0],
                    v,
                    services,
                    cfg,
                ) {
                    Ok(d) => Ok(f(d)),
                    Err(e) => Err(e),
                }));
                if let Ok(d) = with_value(flags[0], v, services, cfg) {
                    lemma_short_apart(args, p, u + 1, services, rest, d, f);
                }
            } else {
                assert(with_switch(flags[0], f(cfg)) is None);
            }
        }
    }
}

proof fn lemma_scan_apart(
    args: Seq<Text>,
    pos: int,
    services: Text,
    cfg: ConfigView,
    f: spec_fn(ConfigView) -> ConfigView,
)
    requires
        0 <= pos,
        args_apart(args.skip(pos), f),
    ensures
        scan_flags(args, pos, services, f(cfg)) == mapped(
            scan_flags(args, pos, services, cfg),
            f,
        ),
    decreases args.len() - pos,
{
    if pos < args.len() && args[pos] != "--"@ && is_flag(args[pos]) {
        let a = args[pos];
        let rest = args.skip(pos);
        assert(rest[0] == a);
        reveal_strlit("--");
        if "--"@.is_prefix_of(a) {
            assert(a[1] == a.subrange(0, 2)[1]);
            assert("--"@[1] == '-');
            let flag = a.skip(2);
            assert(long_flag(args, pos, flag, f(cfg)) == mapped(
                long_flag(args, pos, flag, cfg),
                f,
            ));
        } else {
            if a[1] == '-' {
                assert("--"@ =~= a.subrange(0, 2));
            }
            let flags = a.skip(1);
            assert forall|i: int| 0 <= i < flags.len() implies apart(#[trigger] flags[i], f) by {
                assert(flags[i] == rest[0][i + 1]);
            }
            lemma_short_apart(args, pos, pos, services, flags, cfg, f);
        }
        assert(flag_at(args, pos, services, f(cfg)) == mapped(
            flag_at(args, pos, services, cfg),
            f,
        ));
        lemma_short_flags_advance(args, pos, pos, services, a.skip(1), cfg);
        if let Scan::Next(c, q) = flag_at(args, pos, services, cfg) {
            let after = args.skip(q);
            assert(args_apart(after, f)) by {
                assert forall|i: int, j: int|
                    #![trigger after[i][j]]
                    0 <= i < after.len() && 0 < j < after[i].len() && after[i][0] == '-'
                        && after[i][1] != '-' implies apart(after[i][j], f) by {
                    assert(after[i] == rest[q - pos + i]);
                    assert(apart(rest[q - pos + i][j], f));
                }
            }
            lemma_scan_apart(args, q, services, c, f);
        }
    }
}

/// The configuration with a destination.
spec fn bound_for(cfg: ConfigView, host: Text, port: u16) -> ConfigView {
    ConfigView { dest_host: host, dest_port: port, ..cfg }
}

/// The destination is the same some arguments later, and is none of the change.
proof fn lemma_destination_apart(
    a: Seq<Text>,
    b: Seq<Text>,
    p: int,
    q: int,
    services: Text,
    cfg: ConfigView,
    f: spec_fn(ConfigView) -> ConfigView,
)
    requires
        0 < p <= a.len(),
        0 < q <= b.len(),
        a[0] == b[0],
        a.skip(p) == b.skip(q),
        forall|c: ConfigView, host: Text, port: u16|
            #[trigger] bound_for(f(c), host, port) == f(bound_for(c, host, port)),
    ensures
        with_destination(a, p, services, cfg) matches Ok(d) ==> with_destination(
            b,
            q,
            services,
            f(cfg),
        ) == Ok::<ConfigView, ErrorView>(f(d)),
{
    let n = a.len() - p;
    assert(a.skip(p).len() == n && b.skip(q).len() == n);
    if n > 0 {
        assert(a[p] == a.skip(p)[0] && b[q] == b.skip(q)[0]);
    }
    if n > 1 {
        assert(a[p + 1] == a.skip(p)[1] && b[q + 1] == b.skip(q)[1]);
    }
    if let Ok(d) = with_destination(a, p, services, cfg) {
        assert(d == bound_for(cfg, d.dest_host, d.dest_port));
        assert(bound_for(f(cfg), d.dest_host, d.dest_port) == f(d));
    }
}

/// A flag and its value before the other arguments make its change and no other, where
/// no later flag is about the same.
proof fn lemma_flag_before(
    argv0: Text,
    flag: Text,
    value: Text,
    tail: Seq<Text>,
    p: ParamsView,
    services: Text,
    f: spec_fn(ConfigView) -> ConfigView,
)
    requires
        args_apart(tail, f),
        ({
            let args = seq![argv0, flag, value] + tail;
            scan_flags(args, 1, services, initial_config()) == scan_flags(
                args,
                3,
                services,
                f(initial_config()),
            )
        }),
        forall|cfg: ConfigView|
            #[trigger] with_defaults(p, f(cfg)) == (match with_defaults(p, cfg) {
                Ok(d) => Ok(f(d)),
                Err(e) => Err(e),
            }),
        forall|cfg: ConfigView, host: Text, port: u16|
            #[trigger] bound_for(f(cfg), host, port) == f(bound_for(cfg, host, port)),
    ensures
        command_line(seq![argv0] + tail, p, services) matches Ok(InvocationView::Run(c))
            ==> command_line(seq![argv0, flag, value] + tail, p, services) == Ok::<
            InvocationView,
            ErrorView,
        >(InvocationView::Run(f(c))),
{
    let short = seq![argv0] + tail;
    let mid = seq![argv0, flag] + tail;
    let long = seq![argv0, flag, value] + tail;
    let c0 = initial_config();
    assert forall|i: int| 1 <= i < short.len() implies #[trigger] short[i] == mid[i + 1] by {
        assert(short[i] == tail[i - 1]);
    }
    assert forall|i: int| 2 <= i < mid.len() implies #[trigger] mid[i] == long[i + 1] by {
        assert(mid[i] == tail[i - 2]);
    }
    lemma_scan_shift(short, mid, 1, services, c0);
    lemma_scan_shift(mid, long, 2, services, c0);
    assert(long.skip(3) =~= tail);
    lemma_scan_apart(long, 3, services, c0, f);
    lemma_scan_agree(short, 1, services, c0);
    if let Ok(InvocationView::Run(_)) = command_line(short, p, services) {
        lemma_scan_advance(short, 1, services, c0);
        if let Scan::Next(c, q) = scan_flags(short, 1, services, c0) {
            assert(scan_flags(long, 1, services, c0) == Scan::Next(f(c), q + 2));
            assert(short.skip(q) =~= tail.skip(q - 1));
            assert(long.skip(q + 2) =~= tail.skip(q - 1));
            lemma_destination_apart(short, long, q, q + 2, services, c, f);
        }
    }
}

/// The arguments hold no short flag with the letter.
pub open spec fn is_free_of(args: Seq<Text>, c: char) -> bool {
    forall|i: int, j: int|
        #![trigger args[i][j]]
        0 <= i < args.len() && 0 < j < args[i].len() && args[i][0] == '-' && args[i][1] != '-'
            ==> args[i][j] != c
}

/// The configuration with another list of methods to offer.
spec fn offering(v: Text) -> spec_fn(ConfigView) -> ConfigView {
    |c: ConfigView| ConfigView { socks5_auth: Some(v), ..c }
}

proof fn lemma_auth_switch(c: char, cfg: ConfigView, v: Text)
    ensures
        with_switch(c, offering(v)(cfg)) == (match with_switch(c, cfg) {
            Some(d) => Some(offering(v)(d)),
            None => None,
        }),
{
}

proof fn lemma_auth_relay(w: Text, method: ProxyMethod, cfg: ConfigView, v: Text)
    ensures
        with_relay_flag(w, method, offering(v)(cfg)) == (match with_relay_flag(w, method, cfg) {
            Ok(d) => Ok(offering(v)(d)),
            Err(e) => Err(e),
        }),
{
}

proof fn lemma_auth_listen(w: Text, services: Text, cfg: ConfigView, v: Text)
    ensures
        with_listen(w, services, offering(v)(cfg)) == (match with_listen(w, services, cfg) {
            Ok(d) => Ok(offering(v)(d)),
            Err(e) => Err(e),
        }),
{
}

proof fn lemma_auth_resolve(w: Text, cfg: ConfigView, v: Text)
    ensures
        with_resolve(w, offering(v)(cfg)) == (match with_resolve(w, cfg) {
            Ok(d) => Ok(offering(v)(d)),
            Err(e) => Err(e),
        }),
{
}

proof fn lemma_auth_value(c: char, w: Text, services: Text, cfg: ConfigView, v: Text)
    requires
        c != 'a',
    ensures
        with_value(c, w, services, offering(v)(cfg)) == (match with_value(c, w, services, cfg) {
            Ok(d) => Ok(offering(v)(d)),
            Err(e) => Err(e),
        }),
{
    if c == 'S' {
        lemma_auth_relay(w, ProxyMethod::Socks, cfg, v);
    } else if c == 'H' {
        lemma_auth_relay(w, ProxyMethod::Http, cfg, v);
    } else if c == 'T' {
        lemma_auth_relay(w, ProxyMethod::Telnet, cfg, v);
    } else if c == 'p' {
        lemma_auth_listen(w, services, cfg, v);
    } else if c == 'P' {
        let held = ConfigView { f_hold_session: true, ..cfg };
        lemma_auth_listen(w, services, held, v);
        assert(offering(v)(held) == (ConfigView { f_hold_session: true, ..offering(v)(cfg) }));
    } else if c == 'w' {
    } else if c == 'W' {
    } else if c == 'c' {
    } else {
        lemma_auth_resolve(w, cfg, v);
    }
}

proof fn lemma_auth_long(name: Text, w: Text, cfg: ConfigView, v: Text)
    ensures
        with_long_value(name, w, offering(v)(cfg)) == (match with_long_value(name, w, cfg) {
            Ok(d) => Ok(offering(v)(d)),
            Err(e) => Err(e),
        }),
{
}

proof fn lemma_auth_defaults(p: ParamsView, cfg: ConfigView, v: Text)
    ensures
        with_defaults(p, offering(v)(cfg)) == (match with_defaults(p, cfg) {
            Ok(d) => Ok(offering(v)(d)),
            Err(e) => Err(e),
        }),
{
    let c = offering(v)(cfg);
    assert(default_relay(p, c) == default_relay(p, cfg));
    if let Some((method, spec)) = default_relay(p, cfg) {
        assert(with_relay(spec, method, c) == offering(v)(with_relay(spec, method, cfg)));
    }
}

/// `-a` with a list makes the list the methods to offer and changes nothing else of
/// what the rest of the command line asks for.
pub proof fn law_auth_flag_added(
    argv0: Text,
    v: Text,
    tail: Seq<Text>,
    p: ParamsView,
    services: Text,
)
    requires
        is_free_of(tail, 'a'),
    ensures
        command_line(seq![argv0] + tail, p, services) matches Ok(InvocationView::Run(c))
            ==> command_line(seq![argv0, seq!['-', 'a'], v] + tail, p, services) == Ok::<
            InvocationView,
            ErrorView,
        >(InvocationView::Run(ConfigView { socks5_auth: Some(v), ..c })),
{
    let f = offering(v);
    let flag = seq!['-', 'a'];
    let args = seq![argv0, flag, v] + tail;
    assert(args[1] == flag && args[2] == v);
    law_text_flags(args, 1, services, initial_config());
    assert(args_apart(tail, f)) by {
        assert forall|i: int, j: int|
            #![trigger tail[i][j]]
            0 <= i < tail.len() && 0 < j < tail[i].len() && tail[i][0] == '-' && tail[i][1]
                != '-' implies apart(tail[i][j], f) by {
            lemma_auth_apart(tail[i][j], v);
        }
        assert forall|name: Text, w: Text, cfg: ConfigView|
            #[trigger] with_long_value(name, w, f(cfg)) == (match with_long_value(name, w, cfg) {
                Ok(d) => Ok(f(d)),
                Err(e) => Err(e),
            }) by {
            lemma_auth_long(name, w, cfg, v);
        }
    }
    assert forall|cfg: ConfigView|
        #[trigger] with_defaults(p, f(cfg)) == (match with_defaults(p, cfg) {
            Ok(d) => Ok(f(d)),
            Err(e) => Err(e),
        }) by {
        lemma_auth_defaults(p, cfg, v);
    }
    assert forall|cfg: ConfigView, host: Text, port: u16|
        #[trigger] bound_for(f(cfg), host, port) == f(bound_for(cfg, host, port)) by {}
    lemma_flag_before(argv0, flag, v, tail, p, services, f);
}

proof fn lemma_auth_apart(c: char, v: Text)
    requires
        c != 'a',
    ensures
        apart(c, offering(v)),
{
    let f = offering(v);
    assert forall|cfg: ConfigView|
        #[trigger] with_switch(c, f(cfg)) == (match with_switch(c, cfg) {
            Some(d) => Some(f(d)),
            None => None,
        }) by {
        lemma_auth_switch(c, cfg, v);
    }
    assert forall|w: Text, services: Text, cfg: ConfigView|
        #[trigger] with_value(c, w, services, f(cfg)) == (match with_value(c, w, services, cfg) {
            Ok(d) => Ok(f(d)),
            Err(e) => Err(e),
        }) by {
        lemma_auth_value(c, w, services, cfg, v);
    }
}

} // verus!

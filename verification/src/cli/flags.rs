//! What each flag means, wherever it stands on a command line.

use vstd::prelude::*;
use vstd::string::*;

use crate::addr::{law_ipv4_text, Ipv4Addr};
use crate::cli::{
    flag_at, is_flag, long_flag, port_of, scan_flags, short_flags, takes_value, with_long_value,
    with_switch, with_value, InvocationView, Scan,
};
use crate::config::{ConfigView, Family, LocalType, ProxyMethod, ResolveMode};
use crate::error::ErrorView;
use crate::number::laws::law_number_read;
use crate::number::{decimal, is_digit, lemma_decimal_value, parse_number};
use crate::services::service_port;
use crate::text::laws::law_lower_case;
use crate::text::{find, lemma_find, lowered, Text};

verus! {

// ---- One flag ----

/// A flag that stands alone is read as that flag, and reading goes on behind it and
/// its value.
pub proof fn lemma_flag(args: Seq<Text>, pos: int, services: Text, cfg: ConfigView, c: char)
    requires
        0 <= pos < args.len(),
        args[pos] == seq!['-', c],
        c != '-',
    ensures
        c != 'V' ==> (with_switch(c, cfg) matches Some(d) ==> scan_flags(args, pos, services, cfg)
            == scan_flags(args, pos + 1, services, d)),
        with_switch(c, cfg) is None && c != 'V' && takes_value(c) && pos + 1 < args.len() ==> (
        match with_value(c, args[pos + 1], services, cfg) {
            Ok(d) => scan_flags(args, pos, services, cfg) == scan_flags(
                args,
                pos + 2,
                services,
                d,
            ),
            Err(e) => scan_flags(args, pos, services, cfg) == Scan::Fail(e),
        }),
        with_switch(c, cfg) is None && c != 'V' && takes_value(c) && pos + 1 == args.len()
            ==> scan_flags(args, pos, services, cfg) == Scan::Fail(
            ErrorView::Config(
                "option at index "@ + decimal(pos as nat) + " requires an argument"@,
            ),
        ),
        with_switch(c, cfg) is None && c != 'V' && !takes_value(c) ==> scan_flags(
            args,
            pos,
            services,
            cfg,
        ) == Scan::Fail(ErrorView::UnknownOption(c)),
        c == 'V' ==> scan_flags(args, pos, services, cfg) == Scan::Stop(InvocationView::Version),
{
    reveal_strlit("--");
    let a = args[pos];
    assert("--"@[1] == '-');
    assert(a[1] == c);
    assert(!"--"@.is_prefix_of(a)) by {
        if "--"@.is_prefix_of(a) {
            assert(a.subrange(0, 2)[1] == c);
        }
    }
    assert(a != "--"@);
    assert(is_flag(a));
    assert(a.skip(1) =~= seq![c]);
    assert(seq![c].drop_first() =~= Seq::<char>::empty());
    reveal_with_fuel(short_flags, 2);
    assert(flag_at(args, pos, services, cfg) == short_flags(
        args,
        pos,
        pos,
        services,
        seq![c],
        cfg,
    ));
}

/// The flags without a value, each of which sets its own field and no other.
pub proof fn law_switches(args: Seq<Text>, pos: int, services: Text, cfg: ConfigView)
    requires
        0 <= pos < args.len(),
    ensures
        ({
            let a = args[pos];
            let got = scan_flags(args, pos, services, cfg);
            let next = |c: ConfigView| scan_flags(args, pos + 1, services, c);
            &&& a == seq!['-', 'd'] && cfg.f_debug < 255 ==> got == next(
                ConfigView { f_debug: (cfg.f_debug + 1) as u8, ..cfg },
            )
            &&& a == seq!['-', 'd'] && cfg.f_debug == 255 ==> got == next(cfg)
            &&& a == seq!['-', 'D'] ==> got == next(ConfigView { f_auto_direct: true, ..cfg })
            &&& a == seq!['-', 'n'] ==> got == next(
                ConfigView { relay_method: ProxyMethod::Direct, ..cfg },
            )
            &&& a == seq!['-', 'h'] ==> got == next(
                ConfigView { relay_method: ProxyMethod::Http, ..cfg },
            )
            &&& a == seq!['-', 's'] ==> got == next(
                ConfigView { relay_method: ProxyMethod::Socks, ..cfg },
            )
            &&& a == seq!['-', 't'] ==> got == next(
                ConfigView { relay_method: ProxyMethod::Telnet, ..cfg },
            )
            &&& a == seq!['-', '4'] ==> got == next(ConfigView { socks_version: 4, ..cfg })
            &&& a == seq!['-', '5'] ==> got == next(ConfigView { socks_version: 5, ..cfg })
            &&& a == seq!['-', 'V'] ==> got == Scan::Stop(InvocationView::Version)
        }),
{
    let a = args[pos];
    if a.len() == 2 && a[0] == '-' && a[1] != '-' {
        assert(a =~= seq!['-', a[1]]);
        lemma_flag(args, pos, services, cfg, a[1]);
    }
}

/// `-a` and `-c` take their value as it is, and set nothing else.
pub proof fn law_text_flags(args: Seq<Text>, pos: int, services: Text, cfg: ConfigView)
    requires
        0 <= pos,
        pos + 1 < args.len(),
    ensures
        args[pos] == seq!['-', 'a'] ==> scan_flags(args, pos, services, cfg) == scan_flags(
            args,
            pos + 2,
            services,
            ConfigView { socks5_auth: Some(args[pos + 1]), ..cfg },
        ),
        args[pos] == seq!['-', 'c'] ==> scan_flags(args, pos, services, cfg) == scan_flags(
            args,
            pos + 2,
            services,
            ConfigView { telnet_command: Some(args[pos + 1]), ..cfg },
        ),
{
    if args[pos] == seq!['-', 'a'] {
        lemma_flag(args, pos, services, cfg, 'a');
    }
    if args[pos] == seq!['-', 'c'] {
        lemma_flag(args, pos, services, cfg, 'c');
    }
}

/// `-w` takes seconds and `-W` and `--idle-timeout` take milliseconds; anything else
/// is refused with its text.
pub proof fn law_time_flags(args: Seq<Text>, pos: int, services: Text, cfg: ConfigView, n: nat)
    requires
        0 <= pos,
        pos + 1 < args.len(),
    ensures
        args[pos] == seq!['-', 'w'] && args[pos + 1] == decimal(n) && n <= u32::MAX ==> scan_flags(
            args,
            pos,
            services,
            cfg,
        ) == scan_flags(
            args,
            pos + 2,
            services,
            ConfigView { connect_timeout: n as u32, ..cfg },
        ),
        (args[pos] == seq!['-', 'W'] || args[pos] == "--idle-timeout"@) && args[pos + 1]
            == decimal(n) && n <= u64::MAX ==> scan_flags(args, pos, services, cfg) == scan_flags(
            args,
            pos + 2,
            services,
            ConfigView { read_timeout_ms: n as u64, ..cfg },
        ),
        args[pos] == seq!['-', 'w'] && parse_number(args[pos + 1], 0xffff_ffff) is None
            ==> scan_flags(args, pos, services, cfg) == Scan::Fail(
            ErrorView::Config("invalid timeout: "@ + args[pos + 1]),
        ),
        args[pos] == seq!['-', 'W'] && parse_number(args[pos + 1], 0xffff_ffff_ffff_ffff) is None
            ==> scan_flags(args, pos, services, cfg) == Scan::Fail(
            ErrorView::Config("invalid idle timeout: "@ + args[pos + 1]),
        ),
        args[pos] == "--idle-timeout"@ && parse_number(args[pos + 1], 0xffff_ffff_ffff_ffff)
            is None ==> scan_flags(args, pos, services, cfg) == Scan::Fail(
            ErrorView::Config("invalid --idle-timeout: "@ + args[pos + 1]),
        ),
{
    law_number_read(n, 0, 0xffff_ffff);
    law_number_read(n, 0, 0xffff_ffff_ffff_ffff);
    assert(Seq::new(0, |i: int| '0') + decimal(n) =~= decimal(n));
    if args[pos] == seq!['-', 'w'] {
        lemma_flag(args, pos, services, cfg, 'w');
    }
    if args[pos] == seq!['-', 'W'] {
        lemma_flag(args, pos, services, cfg, 'W');
    }
    if args[pos] == "--idle-timeout"@ {
        reveal_strlit("--");
        reveal_strlit("--idle-timeout");
        reveal_strlit("idle-timeout");
        reveal_strlit("family");
        reveal_strlit("help");
        reveal_strlit("version");
        assert("--idle-timeout"@.skip(2) =~= "idle-timeout"@);
        assert("--"@ =~= "--idle-timeout"@.subrange(0, 2));
        lemma_long_flag(args, pos, services, cfg, "idle-timeout"@);
        assert("idle-timeout"@[0] == 'i' && "family"@[0] == 'f' && "help"@[0] == 'h'
            && "version"@[0] == 'v');
    }
}

/// `-p` listens on a port, and `-P` does so and holds the session; the port is a
/// number or the name of a service, and anything else is refused.
pub proof fn law_listen_flags(args: Seq<Text>, pos: int, services: Text, cfg: ConfigView, port: u16)
    requires
        0 <= pos,
        pos + 1 < args.len(),
    ensures
        ({
            let v = args[pos + 1];
            let number = v == decimal(port as nat);
            let named = parse_number(v, 0xffff) is None && service_port(services, v) == Some(port);
            let got = scan_flags(args, pos, services, cfg);
            &&& args[pos] == seq!['-', 'p'] && (number || named) ==> got == scan_flags(
                args,
                pos + 2,
                services,
                ConfigView { local_type: LocalType::Socket(port), ..cfg },
            )
            &&& args[pos] == seq!['-', 'P'] && (number || named) ==> got == scan_flags(
                args,
                pos + 2,
                services,
                ConfigView {
                    local_type: LocalType::Socket(port),
                    f_hold_session: true,
                    ..cfg
                },
            )
            &&& (args[pos] == seq!['-', 'p'] || args[pos] == seq!['-', 'P']) && parse_number(
                v,
                0xffff,
            ) is None && service_port(services, v) is None ==> got == Scan::Fail(
                ErrorView::Config("invalid port: "@ + v),
            )
        }),
{
    law_port(args[pos + 1], services, port);
    if args[pos] == seq!['-', 'p'] {
        lemma_flag(args, pos, services, cfg, 'p');
    }
    if args[pos] == seq!['-', 'P'] {
        lemma_flag(args, pos, services, cfg, 'P');
    }
}

/// A port is its number; a text that is no number is a port by the services.
pub proof fn law_port(v: Text, services: Text, port: u16)
    ensures
        v == decimal(port as nat) ==> port_of(v, services) == Some(port),
        parse_number(v, 0xffff) is None ==> port_of(v, services) == service_port(services, v),
{
    law_number_read(port as nat, 0, 0xffff);
    assert(Seq::new(0, |i: int| '0') + decimal(port as nat) =~= decimal(port as nat));
}

/// `-R` takes the name of a mode in any case, or the address of a name server, which
/// then resolves here; anything else is refused.
pub proof fn law_resolve_flag(
    args: Seq<Text>,
    pos: int,
    services: Text,
    cfg: ConfigView,
    ip: Ipv4Addr,
)
    requires
        0 <= pos,
        pos + 1 < args.len(),
        args[pos] == seq!['-', 'R'],
    ensures
        ({
            let v = args[pos + 1];
            let w = lowered(v);
            let got = scan_flags(args, pos, services, cfg);
            let next = |c: ConfigView| scan_flags(args, pos + 2, services, c);
            &&& w == "local"@ ==> got == next(
                ConfigView { socks_resolve: ResolveMode::Local, ..cfg },
            )
            &&& w == "remote"@ ==> got == next(
                ConfigView { socks_resolve: ResolveMode::Remote, ..cfg },
            )
            &&& w == "both"@ ==> got == next(
                ConfigView { socks_resolve: ResolveMode::Both, ..cfg },
            )
            &&& v == ip.text() ==> got == next(
                ConfigView { socks_ns: Some(ip), socks_resolve: ResolveMode::Local, ..cfg },
            )
            &&& w != "local"@ && w != "remote"@ && w != "both"@ && crate::addr::parse_ipv4(v)
                is None ==> got == Scan::Fail(ErrorView::Config("invalid -R argument: "@ + v))
        }),
{
    let v = args[pos + 1];
    let w = lowered(v);
    lemma_flag(args, pos, services, cfg, 'R');
    reveal_strlit("local");
    reveal_strlit("remote");
    reveal_strlit("both");
    assert("local"@[0] == 'l' && "remote"@[0] == 'r' && "both"@[0] == 'b');
    if v == ip.text() {
        law_ipv4_text(v, ip);
        crate::addr::lemma_quad_chars(ip);
        assert(is_digit(v[0]) || v[0] == '.') by {
            lemma_quad_nonempty(ip);
        }
        lemma_quad_nonempty(ip);
        law_lower_case(v, 0);
    }
}

proof fn lemma_quad_nonempty(ip: Ipv4Addr)
    ensures
        ip.text().len() > 0,
{
    lemma_decimal_value(ip.a as nat);
    reveal_with_fuel(crate::text::join, 2);
    assert(ip.text().len() >= ip.parts()[0].len());
}

/// A flag that needs a value and is the last argument is refused with its place, and
/// a flag that there is not is refused with its letter.
pub proof fn law_refused_flags(args: Seq<Text>, pos: int, services: Text, cfg: ConfigView, c: char)
    requires
        0 <= pos < args.len(),
        args[pos] == seq!['-', c],
    ensures
        (c == 'P' || c == 'p' || c == 'w' || c == 'W' || c == 'S' || c == 'H' || c == 'T' || c
            == 'c' || c == 'a' || c == 'R') && pos + 1 == args.len() ==> scan_flags(
            args,
            pos,
            services,
            cfg,
        ) == Scan::Fail(
            ErrorView::Config(
                "option at index "@ + decimal(pos as nat) + " requires an argument"@,
            ),
        ),
        !(c == 'P' || c == 'p' || c == 'w' || c == 'W' || c == 'S' || c == 'H' || c == 'T' || c
            == 'c' || c == 'a' || c == 'R' || c == 'd' || c == 'D' || c == 'n' || c == 'h' || c
            == 's' || c == 't' || c == '4' || c == '5' || c == 'V' || c == '-') ==> scan_flags(
            args,
            pos,
            services,
            cfg,
        ) == Scan::Fail(ErrorView::UnknownOption(c)),
{
    if c != '-' {
        lemma_flag(args, pos, services, cfg, c);
    }
}

// ---- Long flags ----

/// An argument with two dashes before a name is read as a long flag.
proof fn lemma_long_flag(args: Seq<Text>, pos: int, services: Text, cfg: ConfigView, name: Text)
    requires
        0 <= pos < args.len(),
        args[pos].len() > 2,
        "--"@.is_prefix_of(args[pos]),
        args[pos].skip(2) == name,
    ensures
        scan_flags(args, pos, services, cfg) == (match long_flag(args, pos, name, cfg) {
            Scan::Next(c, p) => scan_flags(args, p, services, c),
            other => other,
        }),
        find(name, '=') == name.len() ==> name.take(find(name, '=')) == name,
        name == "idle-timeout"@ || name == "family"@ || name == "help"@ || name == "version"@
            ==> find(name, '=') == name.len(),
{
    reveal_strlit("--");
    let a = args[pos];
    assert(a[0] == a.subrange(0, 2)[0]);
    assert(is_flag(a));
    assert(flag_at(args, pos, services, cfg) == long_flag(args, pos, name, cfg));
    assert(name.take(name.len() as int) =~= name);
    if name == "idle-timeout"@ || name == "family"@ || name == "help"@ || name == "version"@ {
        reveal_strlit("idle-timeout");
        reveal_strlit("family");
        reveal_strlit("help");
        reveal_strlit("version");
        lemma_find(name, '=');
    }
}

/// `--help` and `--version` stop the reading at once.
pub proof fn law_asking_flags(args: Seq<Text>, pos: int, services: Text, cfg: ConfigView)
    requires
        0 <= pos < args.len(),
    ensures
        args[pos] == "--help"@ ==> scan_flags(args, pos, services, cfg) == Scan::Stop(
            InvocationView::Help,
        ),
        args[pos] == "--version"@ ==> scan_flags(args, pos, services, cfg) == Scan::Stop(
            InvocationView::Version,
        ),
{
    reveal_strlit("--");
    reveal_strlit("--help");
    reveal_strlit("--version");
    reveal_strlit("help");
    reveal_strlit("version");
    assert("help"@[0] == 'h' && "version"@[0] == 'v');
    if args[pos] == "--help"@ {
        assert("--help"@.skip(2) =~= "help"@);
        assert("--"@ =~= "--help"@.subrange(0, 2));
        lemma_long_flag(args, pos, services, cfg, "help"@);
    }
    if args[pos] == "--version"@ {
        assert("--version"@.skip(2) =~= "version"@);
        assert("--"@ =~= "--version"@.subrange(0, 2));
        lemma_long_flag(args, pos, services, cfg, "version"@);
    }
}

/// `--family` takes the name of a family in any case, and refuses every other.
pub proof fn law_family_flag(args: Seq<Text>, pos: int, services: Text, cfg: ConfigView)
    requires
        0 <= pos,
        pos + 1 < args.len(),
        args[pos] == "--family"@,
    ensures
        ({
            let v = args[pos + 1];
            let w = lowered(v);
            let got = scan_flags(args, pos, services, cfg);
            let next = |f: Family|
                scan_flags(args, pos + 2, services, ConfigView { family: f, ..cfg });
            &&& w == "any"@ ==> got == next(Family::Any)
            &&& w == "v4"@ || w == "ipv4"@ || w == "4"@ ==> got == next(Family::V4)
            &&& w == "v6"@ || w == "ipv6"@ || w == "6"@ ==> got == next(Family::V6)
            &&& w != "any"@ && w != "v4"@ && w != "ipv4"@ && w != "4"@ && w != "v6"@ && w
                != "ipv6"@ && w != "6"@ ==> got == Scan::Fail(
                ErrorView::Config("invalid --family: "@ + v),
            )
        }),
{
    reveal_strlit("--");
    reveal_strlit("--family");
    reveal_strlit("family");
    reveal_strlit("help");
    reveal_strlit("version");
    reveal_strlit("any");
    reveal_strlit("v4");
    reveal_strlit("ipv4");
    reveal_strlit("4");
    reveal_strlit("v6");
    reveal_strlit("ipv6");
    reveal_strlit("6");
    assert("--family"@.skip(2) =~= "family"@);
    assert("--"@ =~= "--family"@.subrange(0, 2));
    assert("family"@[0] == 'f' && "help"@[0] == 'h' && "version"@[0] == 'v');
    assert("any"@.len() == 3);
    assert("v4"@.len() == 2 && "v6"@.len() == 2);
    assert("ipv4"@.len() == 4 && "ipv6"@.len() == 4);
    assert("4"@.len() == 1 && "6"@.len() == 1);
    assert("v4"@[1] == '4' && "v6"@[1] == '6');
    assert("ipv4"@[3] == '4' && "ipv6"@[3] == '6');
    assert("4"@[0] == '4' && "6"@[0] == '6');
    lemma_long_flag(args, pos, services, cfg, "family"@);
    let v = args[pos + 1];
    assert(long_flag(args, pos, "family"@, cfg) == (match with_long_value("family"@, v, cfg) {
        Ok(c) => Scan::Next(c, pos + 2),
        Err(e) => Scan::Fail(e),
    }));
}

/// Any other long flag is refused with its name.
pub proof fn law_unknown_long_flag(
    args: Seq<Text>,
    pos: int,
    services: Text,
    cfg: ConfigView,
    name: Text,
)
    requires
        0 <= pos < args.len(),
        name.len() > 0,
        args[pos] == seq!['-', '-'] + name,
        find(name, '=') == name.len(),
        name != "help"@ && name != "version"@ && name != "family"@ && name != "idle-timeout"@,
    ensures
        scan_flags(args, pos, services, cfg) == Scan::Fail(
            ErrorView::Config("unknown long option: --"@ + name),
        ),
{
    reveal_strlit("--");
    let a = args[pos];
    assert(a.skip(2) =~= name);
    assert("--"@ =~= a.subrange(0, 2));
    lemma_long_flag(args, pos, services, cfg, name);
}

// ---- The end of the flags ----

/// The flags end at the first argument that is none, at a single dash, behind two
/// dashes, and at the end.
pub proof fn law_end_of_flags(args: Seq<Text>, pos: int, services: Text, cfg: ConfigView)
    requires
        0 <= pos <= args.len(),
    ensures
        pos == args.len() ==> scan_flags(args, pos, services, cfg) == Scan::Next(cfg, pos),
        pos < args.len() && (args[pos].len() == 0 || args[pos][0] != '-') ==> scan_flags(
            args,
            pos,
            services,
            cfg,
        ) == Scan::Next(cfg, pos),
        pos < args.len() && args[pos] == seq!['-'] ==> scan_flags(args, pos, services, cfg)
            == Scan::Next(cfg, pos),
        pos < args.len() && args[pos] == seq!['-', '-'] ==> scan_flags(args, pos, services, cfg)
            == Scan::Next(cfg, pos + 1),
{
    reveal_strlit("--");
    assert("--"@ =~= seq!['-', '-']);
}

} // verus!

//! What holds of every command line.

use vstd::prelude::*;
use vstd::string::*;

use crate::cli::{
    bare_spec, basename, command_line, flag_at, hosted, is_flag, last_name,
    lemma_short_flags_advance, long_flag, name_port, port_of, relay_parts, scan_flags, short_flags,
    takes_value, with_defaults, with_destination, with_long_value, with_switch, with_value,
    InvocationView, RelayParts, Scan,
};
use crate::config::{initial_config, ConfigView, ProxyAuthType, ProxyMethod, ResolveMode};
use crate::error::ErrorView;
use crate::number::{decimal, is_digit, lemma_decimal_value, parse_number, unsigned_part, value};
use crate::parameters::{entry, ParamsView};
use crate::text::laws::{law_split, law_split_both};
use crate::text::{
    find, find_text, holds, is_space, lemma_find, lemma_find_at, lemma_rfind, lemma_split_nonempty,
    lowered, rfind, split, trim, Text,
};

verus! {

// ---- Chaining ----

/// How many values flags take.
pub open spec fn values_of(flags: Text) -> nat
    decreases flags.len(),
{
    if flags.len() == 0 {
        0
    } else if takes_value(flags[0]) {
        1 + values_of(flags.drop_first())
    } else {
        values_of(flags.drop_first())
    }
}

/// What was read is the same, one argument further on.
pub open spec fn shifted(a: Scan, b: Scan) -> bool {
    match (a, b) {
        (Scan::Next(c, p), Scan::Next(d, q)) => c == d && q == p + 1,
        (Scan::Stop(i), Scan::Stop(j)) => i == j,
        (Scan::Fail(_), Scan::Fail(_)) => true,
        _ => false,
    }
}

/// The arguments from `p` on stand in `b` one place later than in `a`.
pub open spec fn later_by_one(a: Seq<Text>, b: Seq<Text>, p: int) -> bool {
    &&& b.len() == a.len() + 1
    &&& forall|i: int| p <= i < a.len() ==> #[trigger] a[i] == b[i + 1]
}

proof fn lemma_short_flags_shift(
    a: Seq<Text>,
    b: Seq<Text>,
    p: int,
    q: int,
    u: int,
    services: Text,
    flags: Text,
    cfg: ConfigView,
)
    requires
        later_by_one(a, b, u + 1),
    ensures
        shifted(
            short_flags(a, p, u, services, flags, cfg),
            short_flags(b, q, u + 1, services, flags, cfg),
        ),
    decreases flags.len(),
{
    if flags.len() > 0 && flags[0] != 'V' {
        let rest = flags.drop_first();
        if with_switch(flags[0], cfg) is Some {
            lemma_short_flags_shift(a, b, p, q, u, services, rest, with_switch(flags[0], cfg)->0);
        } else if takes_value(flags[0]) && u + 1 < a.len() {
            assert(a[u + 1] == b[u + 2]);
            if let Ok(c) = with_value(flags[0], a[u + 1], services, cfg) {
                lemma_short_flags_shift(a, b, p, q, u + 1, services, rest, c);
            }
        }
    }
}

/// What stands one argument later is read as one argument later.
pub proof fn lemma_scan_shift(a: Seq<Text>, b: Seq<Text>, p: int, services: Text, cfg: ConfigView)
    requires
        later_by_one(a, b, p),
        0 <= p,
    ensures
        shifted(scan_flags(a, p, services, cfg), scan_flags(b, p + 1, services, cfg)),
    decreases a.len() - p,
{
    if p < a.len() {
        assert(a[p] == b[p + 1]);
        if a[p] != "--"@ && is_flag(a[p]) {
            lemma_short_flags_shift(a, b, p, p + 1, p, services, a[p].skip(1), cfg);
            lemma_short_flags_advance(a, p, p, services, a[p].skip(1), cfg);
            if p + 1 < a.len() {
                assert(a[p + 1] == b[p + 2]);
            }
            assert(shifted(
                flag_at(a, p, services, cfg),
                flag_at(b, p + 1, services, cfg),
            ));
            if let Scan::Next(c, q) = flag_at(a, p, services, cfg) {
                lemma_scan_shift(a, b, q, services, c);
            }
        }
    }
}

/// Flags are read one after the other: first the first ones, then the others from
/// where the first ones left off.
pub proof fn law_flags_in_sequence(
    a: Seq<Text>,
    p: int,
    u: int,
    services: Text,
    x: Text,
    y: Text,
    cfg: ConfigView,
)
    ensures
        short_flags(a, p, u, services, x + y, cfg) == (match short_flags(
            a,
            p,
            u,
            services,
            x,
            cfg,
        ) {
            Scan::Next(c, q) => short_flags(a, p, q - 1, services, y, c),
            other => other,
        }),
    decreases x.len(),
{
    if x.len() == 0 {
        assert(x + y =~= y);
    } else {
        let rest = x.drop_first();
        assert((x + y)[0] == x[0]);
        assert((x + y).drop_first() =~= rest + y);
        if with_switch(x[0], cfg) is Some {
            law_flags_in_sequence(a, p, u, services, rest, y, with_switch(x[0], cfg)->0);
        } else if u + 1 < a.len() {
            if let Ok(c) = with_value(x[0], a[u + 1], services, cfg) {
                law_flags_in_sequence(a, p, u + 1, services, rest, y, c);
            }
        }
    }
}

/// Flags use as many arguments as they take values.
proof fn lemma_values_used(
    a: Seq<Text>,
    p: int,
    u: int,
    services: Text,
    x: Text,
    cfg: ConfigView,
)
    ensures
        short_flags(a, p, u, services, x, cfg) matches Scan::Next(_, q) ==> q == u + 1 + values_of(
            x,
        ),
    decreases x.len(),
{
    if x.len() > 0 {
        let rest = x.drop_first();
        if with_switch(x[0], cfg) is Some {
            lemma_values_used(a, p, u, services, rest, with_switch(x[0], cfg)->0);
        } else if u + 1 < a.len() {
            if let Ok(c) = with_value(x[0], a[u + 1], services, cfg) {
                lemma_values_used(a, p, u + 1, services, rest, c);
            }
        }
    }
}

/// Only the values that flags take matter to them.
proof fn lemma_values_agree(
    a: Seq<Text>,
    b: Seq<Text>,
    p: int,
    u: int,
    services: Text,
    x: Text,
    cfg: ConfigView,
)
    requires
        u + values_of(x) < a.len(),
        u + values_of(x) < b.len(),
        forall|i: int| u < i <= u + values_of(x) ==> #[trigger] a[i] == b[i],
    ensures
        short_flags(a, p, u, services, x, cfg) == short_flags(b, p, u, services, x, cfg),
    decreases x.len(),
{
    if x.len() > 0 {
        let rest = x.drop_first();
        if with_switch(x[0], cfg) is Some {
            lemma_values_agree(a, b, p, u, services, rest, with_switch(x[0], cfg)->0);
        } else if takes_value(x[0]) {
            assert(a[u + 1] == b[u + 1]);
            if let Ok(c) = with_value(x[0], a[u + 1], services, cfg) {
                lemma_values_agree(a, b, p, u + 1, services, rest, c);
            }
        }
    }
}

/// Flags behind a dash are an argument that is read as short flags.
proof fn lemma_short_argument(x: Text)
    requires
        x.len() > 0,
        x[0] != '-',
    ensures
        is_flag(seq!['-'] + x),
        !"--"@.is_prefix_of(seq!['-'] + x),
        (seq!['-'] + x).skip(1) == x,
{
    reveal_strlit("--");
    let s = seq!['-'] + x;
    assert(s[0] == '-' && s[1] == x[0]);
    assert("--"@[1] == '-');
    assert(!"--"@.is_prefix_of(s)) by {
        assert(s.subrange(0, 2)[1] == x[0]);
    }
    assert(s.skip(1) =~= x);
}

/// Flag chaining: an argument that chains flags, with the values of all of them
/// behind it, asks for the same as two arguments, each with its own values behind
/// it.
pub proof fn law_flags_chain(
    head: Seq<Text>,
    x: Text,
    y: Text,
    values: Seq<Text>,
    tail: Seq<Text>,
    services: Text,
    cfg: ConfigView,
)
    requires
        head.len() >= 1,
        x.len() > 0,
        x[0] != '-',
        y.len() > 0,
        y[0] != '-',
        values.len() == values_of(x),
    ensures
        ({
            let one = head + seq![seq!['-'] + x + y] + values + tail;
            let two = head + seq![seq!['-'] + x] + values + seq![seq!['-'] + y] + tail;
            let n = head.len() as int;
            match (scan_flags(one, n, services, cfg), scan_flags(two, n, services, cfg)) {
                (Scan::Next(c, p), Scan::Next(d, q)) => c == d && one.skip(p) == two.skip(q),
                (Scan::Stop(i), Scan::Stop(j)) => i == j,
                (Scan::Fail(_), Scan::Fail(_)) => true,
                _ => false,
            }
        }),
{
    let one = head + seq![seq!['-'] + x + y] + values + tail;
    let two = head + seq![seq!['-'] + x] + values + seq![seq!['-'] + y] + tail;
    let n = head.len() as int;
    let m = n + values.len();
    assert(seq!['-'] + x + y =~= seq!['-'] + (x + y));
    assert((x + y)[0] == x[0]);
    lemma_short_argument(x + y);
    lemma_short_argument(x);
    lemma_short_argument(y);
    assert(one[n] == seq!['-'] + (x + y) && two[n] == seq!['-'] + x);
    assert(two[m + 1] == seq!['-'] + y);
    assert forall|i: int| n < i <= m implies #[trigger] one[i] == two[i] by {
        assert(one[i] == values[i - n - 1]);
        assert(two[i] == values[i - n - 1]);
    }
    law_flags_in_sequence(one, n, n, services, x, y, cfg);
    lemma_values_agree(one, two, n, n, services, x, cfg);
    lemma_values_used(one, n, n, services, x, cfg);
    let first = short_flags(one, n, n, services, x, cfg);
    assert(flag_at(two, n, services, cfg) == first);
    if let Scan::Next(c, q) = first {
        assert(q == m + 1);
        assert(later_by_one(one, two, m + 1)) by {
            assert forall|i: int| m + 1 <= i < one.len() implies #[trigger] one[i] == two[i
                + 1] by {
                assert(one[i] == tail[i - m - 1]);
                assert(two[i + 1] == tail[i - m - 1]);
            }
        }
        // Both readings arrive at `y` with the same configuration.
        assert(flag_at(one, n, services, cfg) == short_flags(one, n, m, services, y, c));
        assert(flag_at(two, m + 1, services, c) == short_flags(
            two,
            m + 1,
            m + 1,
            services,
            y,
            c,
        ));
        lemma_short_flags_shift(one, two, n, m + 1, m, services, y, c);
        lemma_short_flags_advance(one, n, m, services, y, c);
        assert(scan_flags(two, n, services, cfg) == scan_flags(two, m + 1, services, c));
        if let Scan::Next(d, p) = short_flags(one, n, m, services, y, c) {
            assert(later_by_one(one, two, p));
            lemma_scan_shift(one, two, p, services, d);
            lemma_scan_advance(one, p, services, d);
            if let Scan::Next(_, p2) = scan_flags(one, p, services, d) {
                assert(one.skip(p2) =~= two.skip(p2 + 1)) by {
                    assert forall|i: int| 0 <= i < one.len() - p2 implies one.skip(p2)[i]
                        == two.skip(p2 + 1)[i] by {
                        assert(one[p2 + i] == two[p2 + i + 1]);
                    }
                }
            }
        }
    }
}

/// Reading flags ends no sooner than it starts, and not behind the end.
pub proof fn lemma_scan_advance(args: Seq<Text>, pos: int, services: Text, cfg: ConfigView)
    requires
        0 <= pos <= args.len(),
    ensures
        scan_flags(args, pos, services, cfg) matches Scan::Next(_, p) ==> pos <= p <= args.len(),
    decreases args.len() - pos,
{
    if pos < args.len() && args[pos] != "--"@ && is_flag(args[pos]) {
        lemma_short_flags_advance(args, pos, pos, services, args[pos].skip(1), cfg);
        if let Scan::Next(c, p) = flag_at(args, pos, services, cfg) {
            lemma_scan_advance(args, p, services, c);
        }
    }
}

/// Flag chaining, of a whole command line: it is accepted with the same outcome
/// whether its first argument chains the flags or two arguments hold them, each with
/// its values behind it.
pub proof fn law_chained_command_line(
    argv0: Text,
    x: Text,
    y: Text,
    values: Seq<Text>,
    tail: Seq<Text>,
    p: ParamsView,
    services: Text,
)
    requires
        x.len() > 0,
        x[0] != '-',
        y.len() > 0,
        y[0] != '-',
        values.len() == values_of(x),
    ensures
        ({
            let one = seq![argv0, seq!['-'] + x + y] + values + tail;
            let two = seq![argv0, seq!['-'] + x] + values + seq![seq!['-'] + y] + tail;
            match (command_line(one, p, services), command_line(two, p, services)) {
                (Ok(i), Ok(j)) => i == j,
                (Err(_), Err(_)) => true,
                _ => false,
            }
        }),
{
    let head = seq![argv0];
    let one = seq![argv0, seq!['-'] + x + y] + values + tail;
    let two = seq![argv0, seq!['-'] + x] + values + seq![seq!['-'] + y] + tail;
    assert(one =~= head + seq![seq!['-'] + x + y] + values + tail);
    assert(two =~= head + seq![seq!['-'] + x] + values + seq![seq!['-'] + y] + tail);
    law_flags_chain(head, x, y, values, tail, services, initial_config());
    lemma_scan_advance(one, 1, services, initial_config());
    lemma_scan_advance(two, 1, services, initial_config());
    match (
        scan_flags(one, 1, services, initial_config()),
        scan_flags(two, 1, services, initial_config()),
    ) {
        (Scan::Next(c, k), Scan::Next(_, l)) => {
            let a = one.skip(k);
            let b = two.skip(l);
            assert(a == b);
            assert(a.len() == one.len() - k && b.len() == two.len() - l);
            if a.len() > 0 {
                assert(a[0] == one[k] && b[0] == two[l]);
            }
            if a.len() > 1 {
                assert(a[1] == one[k + 1] && b[1] == two[l + 1]);
            }
            if a.len() > 2 {
                assert(a[2] == one[k + 2] && b[2] == two[l + 2]);
            }
            assert(one[0] == two[0]);
            assert(with_destination(one, k, services, c) == with_destination(two, l, services, c));
        },
        _ => {},
    }
}

// ---- Aliases ----

/// `-P` is `-p` that also sets hold-session.
pub proof fn law_capital_p(v: Text, services: Text, cfg: ConfigView)
    ensures
        with_value('P', v, services, cfg) == with_value(
            'p',
            v,
            services,
            ConfigView { f_hold_session: true, ..cfg },
        ),
{
}

/// `--idle-timeout` sets what `-W` sets.
pub proof fn law_idle_timeout(v: Text, services: Text, cfg: ConfigView)
    ensures
        match (with_long_value("idle-timeout"@, v, cfg), with_value('W', v, services, cfg)) {
            (Ok(a), Ok(b)) => a == b,
            (Err(_), Err(_)) => true,
            _ => false,
        },
{
    reveal_strlit("family");
    reveal_strlit("idle-timeout");
    assert("family"@.len() != "idle-timeout"@.len());
}

/// A long flag reads its value the same behind `=` and in the next argument.
pub proof fn law_long_value(args: Seq<Text>, pos: int, name: Text, value: Text, cfg: ConfigView)
    requires
        0 <= pos,
        pos + 1 < args.len(),
        args[pos + 1] == value,
        name == "family"@ || name == "idle-timeout"@,
    ensures
        match (
            long_flag(args, pos, name + seq!['='] + value, cfg),
            long_flag(args, pos, name, cfg),
        ) {
            (Scan::Next(c, p), Scan::Next(d, q)) => c == d && p == pos + 1 && q == pos + 2,
            (Scan::Fail(e), Scan::Fail(f)) => e == f,
            _ => false,
        },
{
    reveal_strlit("family");
    reveal_strlit("idle-timeout");
    reveal_strlit("help");
    reveal_strlit("version");
    let joined = name + seq!['='] + value;
    let n = name.len() as int;
    assert forall|j: int| 0 <= j < n implies name[j] != '=' by {
        if name == "family"@ {
            assert(name[j] == "family"@[j]);
        } else {
            assert(name[j] == "idle-timeout"@[j]);
        }
    }
    lemma_find_at(joined, '=', n);
    lemma_find_at(name, '=', n);
    assert(joined.take(n) =~= name);
    assert(joined.skip(n + 1) =~= value);
    assert(name.take(n) =~= name);
    assert(name[0] == 'f' || name[0] == 'i');
}

// ---- What a configuration holds ----

/// Every field that the method needs is set, a held session has a port to listen on,
/// and nothing was authenticated yet.
pub open spec fn is_complete(c: ConfigView) -> bool {
    &&& c.relay_method != ProxyMethod::Undecided
    &&& c.relay_method.is_proxy() ==> c.relay_port != 0
    &&& c.relay_method == ProxyMethod::Socks ==> c.socks_resolve != ResolveMode::Unknown
    &&& c.relay_method == ProxyMethod::Telnet ==> c.telnet_command is Some
    &&& flags_agree(c)
}

/// What every flag keeps.
pub open spec fn flags_agree(c: ConfigView) -> bool {
    &&& c.socks_version == 4 || c.socks_version == 5
    &&& c.f_hold_session ==> c.local_type is Socket
    &&& c.proxy_auth == ProxyAuthType::NoAuth
}

proof fn lemma_short_flags_agree(
    a: Seq<Text>,
    p: int,
    u: int,
    services: Text,
    flags: Text,
    cfg: ConfigView,
)
    requires
        flags_agree(cfg),
    ensures
        short_flags(a, p, u, services, flags, cfg) matches Scan::Next(c, _) ==> flags_agree(c),
        !(short_flags(a, p, u, services, flags, cfg) matches Scan::Stop(InvocationView::Run(_))),
    decreases flags.len(),
{
    if flags.len() > 0 {
        let rest = flags.drop_first();
        if with_switch(flags[0], cfg) is Some {
            lemma_short_flags_agree(a, p, u, services, rest, with_switch(flags[0], cfg)->0);
        } else if u + 1 < a.len() {
            if let Ok(c) = with_value(flags[0], a[u + 1], services, cfg) {
                lemma_short_flags_agree(a, p, u + 1, services, rest, c);
            }
        }
    }
}

/// Reading flags keeps what every flag keeps, and never runs anything.
pub proof fn lemma_scan_agree(args: Seq<Text>, pos: int, services: Text, cfg: ConfigView)
    requires
        flags_agree(cfg),
    ensures
        scan_flags(args, pos, services, cfg) matches Scan::Next(c, _) ==> flags_agree(c),
        !(scan_flags(args, pos, services, cfg) matches Scan::Stop(InvocationView::Run(_))),
    decreases args.len() - pos,
{
    if pos < args.len() && args[pos] != "--"@ && is_flag(args[pos]) {
        lemma_short_flags_agree(args, pos, pos, services, args[pos].skip(1), cfg);
        lemma_short_flags_advance(args, pos, pos, services, args[pos].skip(1), cfg);
        if let Scan::Next(c, p) = flag_at(args, pos, services, cfg) {
            lemma_scan_agree(args, p, services, c);
        }
    }
}

/// A command line that is accepted leaves no field open that its method needs.
pub proof fn law_accepted_is_complete(args: Seq<Text>, p: ParamsView, services: Text)
    ensures
        command_line(args, p, services) matches Ok(InvocationView::Run(c)) ==> is_complete(c),
{
    lemma_scan_agree(args, 1, services, initial_config());
}

// ---- The binary's name ----

/// The last piece of a path whose tail holds no separator is that tail.
proof fn lemma_split_last(dir: Text, name: Text, c: char)
    requires
        !holds(name, c),
    ensures
        split(dir + seq![c] + name, c).len() >= 1,
        split(dir + seq![c] + name, c).last() == name,
    decreases dir.len(),
{
    let s = dir + seq![c] + name;
    lemma_find(s, c);
    lemma_find(name, c);
    let i = find(s, c);
    assert(s[dir.len() as int] == c);
    if i > dir.len() {
        assert(false);
    }
    let rest = s.skip(i + 1);
    lemma_split_nonempty(rest, c);
    if i == dir.len() {
        assert(rest =~= name);
        assert(split(name, c) =~= seq![name]);
    } else {
        let d2 = dir.skip(i + 1);
        assert(rest =~= d2 + seq![c] + name);
        lemma_split_last(d2, name, c);
    }
    assert(split(s, c).last() == split(rest, c).last());
}

/// Without a port argument, a binary named `connect-NNN` connects to port NNN, run
/// by its bare name or by a path.
pub proof fn law_connect_name(dir: Text, port: u16, services: Text)
    requires
        port != 0,
    ensures
        name_port("connect-"@ + decimal(port as nat), services) == Some(port),
        name_port(dir + seq!['/'] + ("connect-"@ + decimal(port as nat)), services) == Some(port),
{
    let d = decimal(port as nat);
    let name = "connect-"@ + d;
    reveal_strlit("connect-");
    lemma_decimal_value(port as nat);
    assert forall|j: int| 0 <= j < name.len() implies name[j] != '/' by {
        if j >= 8 {
            assert(name[j] == d[j - 8]);
            assert(is_digit(d[j - 8]));
        } else {
            assert(name[j] == "connect-"@[j]);
        }
    }
    lemma_find_at(name, '/', name.len() as int);
    lemma_split_last(dir, name, '/');
    reveal_strlit(".");
    reveal_strlit("..");
    assert(name.len() > 8);
    assert("connect-"@ =~= name.subrange(0, 8));
    assert(find_text(name, "connect-"@) == 0);
    assert(name.skip(8) =~= d);
    assert(is_digit(d[0]));
    assert(unsigned_part(d) == d);
    assert(split(name, '/') =~= seq![name]);
    assert(basename(name) == name);
}

/// The file name of a path is its last component, behind any directory; a slash or a
/// single dot behind it is of no account, and the parent directory has no name.
pub proof fn law_file_name(dir: Text, name: Text, path: Text)
    requires
        name.len() > 0,
        !holds(name, '/'),
        name != seq!['.'],
        name != seq!['.', '.'],
    ensures
        basename(name) == name,
        basename(dir + seq!['/'] + name) == name,
        basename(path + seq!['/']) == basename(path),
        basename(path + seq!['/', '.']) == basename(path),
        basename(path + seq!['/', '.', '.']) == Seq::<char>::empty(),
        basename(Seq::empty()) == Seq::<char>::empty(),
{
    reveal_strlit(".");
    reveal_strlit("..");
    assert("."@ =~= seq!['.']);
    assert(".."@ =~= seq!['.', '.']);
    let e = Seq::<char>::empty();
    let dot = seq!['.'];
    let dots = seq!['.', '.'];
    lemma_find_at(e, '/', 0);
    lemma_find_at(dot, '/', 1);
    lemma_find_at(dots, '/', 2);
    law_split(name, e, '/');
    law_split(e, e, '/');
    law_split(dot, e, '/');
    law_split(dots, e, '/');
    law_split_both(dir, name, '/');
    law_split_both(path, e, '/');
    law_split_both(path, dot, '/');
    law_split_both(path, dots, '/');
    assert(path + seq!['/'] + e =~= path + seq!['/']);
    assert(path + seq!['/'] + dot =~= path + seq!['/', '.']);
    assert(path + seq!['/'] + dots =~= path + seq!['/', '.', '.']);
    let d = split(dir, '/');
    let q = split(path, '/');
    assert((d + seq![name]).last() == name);
    assert((q + seq![e]).last() == e && (q + seq![e]).drop_last() =~= q);
    assert((q + seq![dot]).last() == dot && (q + seq![dot]).drop_last() =~= q);
    assert((q + seq![dots]).last() == dots);
    assert(seq![name].last() == name);
    assert(seq![e].drop_last() =~= Seq::<Text>::empty());
    reveal_with_fuel(last_name, 2);
}

/// What follows the first `connect-` of the name is the port, as a number or as the
/// name of a service, whatever stands before it.
pub proof fn law_port_in_name(dir: Text, before: Text, port: Text, services: Text)
    requires
        !holds(before + "connect-"@ + port, '/'),
        find_text(before + "connect-"@ + port, "connect-"@) == before.len(),
    ensures
        name_port(before + "connect-"@ + port, services) == port_of(port, services),
        name_port(dir + seq!['/'] + (before + "connect-"@ + port), services) == port_of(
            port,
            services,
        ),
{
    let name = before + "connect-"@ + port;
    reveal_strlit("connect-");
    law_file_name(dir, name, Seq::empty());
    assert(name.skip(before.len() as int + 8) =~= port);
}

/// A name without `connect-` has no port.
pub proof fn law_no_port_in_name(argv0: Text, services: Text)
    requires
        find_text(basename(argv0), "connect-"@) < 0,
    ensures
        name_port(argv0, services) is None,
{
}

/// A host and nothing else, for such a binary.
pub proof fn law_connect_name_is_used(
    argv0: Text,
    host: Text,
    port: u16,
    p: ParamsView,
    services: Text,
)
    requires
        name_port(argv0, services) == Some(port),
        port != 0,
        host.len() > 0,
        host[0] != '-',
    ensures
        command_line(seq![argv0, host], p, services) matches Ok(InvocationView::Run(c))
            && c.dest_host == host && c.dest_port == port,
{
    let args = seq![argv0, host];
    reveal_strlit("--");
    assert(args[1] == host);
    assert("--"@[0] == '-');
    assert(scan_flags(args, 1, services, initial_config()) == Scan::Next(initial_config(), 1));
}

// ---- Defaults ----

/// The parameter files alone never make the defaults fail.
pub proof fn law_files_refuse_nothing(p: ParamsView, cfg: ConfigView)
    requires
        p.vars == Map::<Text, Text>::empty(),
    ensures
        with_defaults(p, cfg) is Ok,
{
}

/// Without a method, no parameter makes the defaults fail.
pub proof fn law_no_method_is_fine(p: ParamsView, cfg: ConfigView)
    requires
        cfg.relay_method == ProxyMethod::Undecided,
    ensures
        with_defaults(p, cfg) is Ok,
{
}

/// A server from a variable that is set to nothing is refused, unless a parameter
/// file has a host.
pub proof fn law_empty_variable(p: ParamsView, cfg: ConfigView, name: Text)
    requires
        cfg.relay_host is None,
        (cfg.relay_method == ProxyMethod::Http && name == "HTTP_PROXY"@) || (cfg.relay_method
            == ProxyMethod::Telnet && name == "TELNET_PROXY"@) || (cfg.relay_method
            == ProxyMethod::Socks && cfg.socks_version == 5 && name == "SOCKS5_SERVER"@),
        entry(p.vars, name) == Some(Seq::<char>::empty()),
    ensures
        match hosted(entry(p.file, lowered(name)), cfg.relay_method) {
            None => with_defaults(p, cfg) == Err::<ConfigView, ErrorView>(
                ErrorView::Config("empty host in relay spec: "@),
            ),
            Some(_) => with_defaults(p, cfg) is Ok,
        },
{
    let e = Seq::<char>::empty();
    reveal_strlit("http://");
    assert(trim(e) =~= e);
    assert(bare_spec(e, cfg.relay_method) =~= e);
    assert("empty host in relay spec: "@ + e =~= "empty host in relay spec: "@);
}

// ---- Relay specs ----

/// `user@host:port` names that user, host and port. An HTTP proxy's may be the start
/// of a URL, so that a slash would end it.
pub proof fn law_relay_spec(user: Text, host: Text, port: u16, method: ProxyMethod)
    requires
        !holds(user, '@'),
        user.len() > 0 ==> !is_space(user[0]),
        method == ProxyMethod::Http ==> !holds(user, '/') && !holds(host, '/'),
    ensures
        relay_parts(user + "@"@ + host + ":"@ + decimal(port as nat), method) == (RelayParts {
            user: Some(user),
            host,
            port: Some(port),
        }),
{
    reveal_strlit("@");
    reveal_strlit(":");
    let d = decimal(port as nat);
    let s = user + "@"@ + host + ":"@ + d;
    lemma_decimal_value(port as nat);
    assert(s[0] == if user.len() > 0 {
        user[0]
    } else {
        '@'
    });
    assert(s.last() == d[d.len() - 1]);
    assert(is_digit(s.last()));
    assert(trim(s) == s);
    if method == ProxyMethod::Http {
        lemma_no_slash(user, host, port);
    }
    lemma_find(user, '@');
    let n = user.len() as int;
    assert forall|i: int| 0 <= i < n implies s[i] != '@' by {
        assert(s[i] == user[i]);
    }
    lemma_find_at(s, '@', n);
    let t = host + ":"@ + d;
    assert(s.skip(n + 1) =~= t);
    assert(s.take(n) =~= user);
    lemma_host_port(host, port);
}

/// A spec of parts without a slash is no URL.
proof fn lemma_no_slash(user: Text, host: Text, port: u16)
    requires
        !holds(user, '/'),
        !holds(host, '/'),
    ensures
        ({
            let s = user + "@"@ + host + ":"@ + decimal(port as nat);
            &&& !"http://"@.is_prefix_of(s)
            &&& find(s, '/') == s.len()
            &&& s.take(s.len() as int) == s
        }),
{
    reveal_strlit("@");
    reveal_strlit(":");
    reveal_strlit("http://");
    let d = decimal(port as nat);
    let s = user + "@"@ + host + ":"@ + d;
    lemma_decimal_value(port as nat);
    lemma_find(user, '/');
    lemma_find(host, '/');
    let n = user.len() as int;
    let m = host.len() as int;
    assert forall|i: int| 0 <= i < s.len() implies s[i] != '/' by {
        if i < n {
            assert(s[i] == user[i]);
        } else if n < i < n + 1 + m {
            assert(s[i] == host[i - n - 1]);
        } else if i > n + 1 + m {
            assert(s[i] == d[i - n - m - 2]);
        }
    }
    lemma_find_at(s, '/', s.len() as int);
    if "http://"@.is_prefix_of(s) {
        assert("http://"@[5] == s.subrange(0, 7)[5]);
    }
    assert(s.take(s.len() as int) =~= s);
}

/// `host:port` divides at its last colon.
pub proof fn lemma_host_port(host: Text, port: u16)
    ensures
        ({
            let t = host + ":"@ + decimal(port as nat);
            let colon = rfind(t, ':');
            &&& colon == host.len()
            &&& t.take(colon) == host
            &&& parse_number(t.skip(colon + 1), 0xffff) == Some(port as nat)
        }),
{
    reveal_strlit(":");
    let d = decimal(port as nat);
    let t = host + ":"@ + d;
    let n = host.len() as int;
    lemma_decimal_value(port as nat);
    lemma_rfind(t, ':');
    assert(t[n] == ':');
    assert forall|i: int| n < i < t.len() implies t[i] != ':' by {
        assert(t[i] == d[i - n - 1]);
        assert(is_digit(d[i - n - 1]));
    }
    assert(rfind(t, ':') == n);
    assert(t.take(n) =~= host);
    assert(t.skip(n + 1) =~= d);
    assert(is_digit(d[0]));
    assert(unsigned_part(d) == d);
}

/// For HTTP, `http://` before a spec and a path behind it count for nothing.
pub proof fn law_http_url(spec: Text, path: Text)
    requires
        !holds(spec, '/'),
        trim("http://"@ + spec + "/"@ + path) == "http://"@ + spec + "/"@ + path,
    ensures
        bare_spec("http://"@ + spec + "/"@ + path, ProxyMethod::Http) == spec,
{
    reveal_strlit("http://");
    reveal_strlit("/");
    let s = "http://"@ + spec + "/"@ + path;
    assert("http://"@.is_prefix_of(s)) by {
        assert(s.take(7) =~= "http://"@);
    }
    let t = s.skip(7);
    assert(t =~= spec + "/"@ + path);
    lemma_find(spec, '/');
    assert forall|i: int| 0 <= i < spec.len() implies t[i] != '/' by {
        assert(t[i] == spec[i]);
    }
    lemma_find_at(t, '/', spec.len() as int);
    assert(t.take(spec.len() as int) =~= spec);
}

} // verus!

//! What holds of every list of entries, from its text to the decision.

use vstd::prelude::*;
use vstd::string::*;

use crate::addr::{law_ipv4_text, octet, parse_ipv4, Ipv4Addr};
use crate::config::{ConfigView, ProxyMethod};
use crate::direct_table::{
    bypassed, cidr_entry, direct_entries, direct_specs, dotted_prefix, entries_of, entry_matches,
    entry_of, in_network, is_direct, local_entries, octets_of, padded, trim_end_dots,
    trim_start_dots, EntryView, Interface,
};
use crate::number::laws::law_number_read;
use crate::number::{decimal, is_digit, lemma_decimal_value, parse_number};
use crate::parameters::{param, ParamsView};
use crate::text::laws::{all_space, is_tight, law_split, law_trim, lemma_tight};
use crate::text::{holds, join, lemma_find, lemma_find_at, lemma_split_join, lowered, split, Text};

verus! {

// ---- Tables ----

/// A host is direct where some entry matches it: never by an empty table, by one
/// entry where that matches, and by two tables where either makes it so.
pub proof fn law_tables_add_up(s: Seq<EntryView>, t: Seq<EntryView>, e: EntryView, host: Text)
    ensures
        !is_direct(Seq::empty(), host),
        is_direct(seq![e], host) <==> entry_matches(e, host),
        is_direct(s + t, host) <==> is_direct(s, host) || is_direct(t, host),
{
    if entry_matches(e, host) {
        assert(entry_matches(seq![e][0], host));
    }
    let u = s + t;
    if is_direct(s, host) {
        let i = choose|i: int| 0 <= i < s.len() && entry_matches(#[trigger] s[i], host);
        assert(u[i] == s[i]);
    }
    if is_direct(t, host) {
        let i = choose|i: int| 0 <= i < t.len() && entry_matches(#[trigger] t[i], host);
        assert(u[s.len() + i] == t[i]);
    }
    if is_direct(u, host) {
        let i = choose|i: int| 0 <= i < u.len() && entry_matches(#[trigger] u[i], host);
        if i < s.len() {
            assert(u[i] == s[i]);
        } else {
            assert(u[i] == t[i - s.len()]);
        }
    }
}

/// Every text writes its own entry, in order, and malformed ones none.
pub proof fn law_entries_add_up(a: Seq<Text>, b: Seq<Text>, s: Text)
    ensures
        entries_of(Seq::empty()) == Seq::<EntryView>::empty(),
        entries_of(seq![s]) == (match entry_of(s) {
            Some(e) => seq![e],
            None => Seq::empty(),
        }),
        entries_of(a + b) == entries_of(a) + entries_of(b),
    decreases b.len(),
{
    assert(seq![s].drop_last() =~= Seq::<Text>::empty());
    assert(Seq::<EntryView>::empty() =~= entries_of(Seq::<Text>::empty()));
    assert(entry_of(s) matches Some(e) ==> entries_of(seq![s]) =~= seq![e]);
    if b.len() == 0 {
        assert(a + b =~= a);
        assert(entries_of(a) + entries_of(b) =~= entries_of(a));
    } else {
        let h = b.drop_last();
        law_entries_add_up(a, h, s);
        assert((a + b).drop_last() =~= a + h);
        assert((a + b).last() == b.last());
        assert(entries_of(a + b) =~= entries_of(a) + entries_of(b));
    }
}

/// Every interface with an address and a netmask adds its network, and no other adds
/// anything.
pub proof fn law_interfaces_add_up(a: Seq<Interface>, b: Seq<Interface>, i: Interface)
    ensures
        local_entries(Seq::empty()) == Seq::<EntryView>::empty(),
        local_entries(seq![i]) == (if i.address is Some && i.netmask is Some {
            seq![
                EntryView::Cidr {
                    addr: i.address->0.number() as u32,
                    mask: i.netmask->0.number() as u32,
                },
            ]
        } else {
            Seq::empty()
        }),
        local_entries(a + b) == local_entries(a) + local_entries(b),
    decreases b.len(),
{
    assert(seq![i].drop_last() =~= Seq::<Interface>::empty());
    reveal_with_fuel(local_entries, 2);
    if i.address is Some && i.netmask is Some {
        assert(local_entries(seq![i]) =~= seq![
            EntryView::Cidr {
                addr: i.address->0.number() as u32,
                mask: i.netmask->0.number() as u32,
            },
        ]);
    }
    if b.len() == 0 {
        assert(a + b =~= a);
        assert(local_entries(a) + local_entries(b) =~= local_entries(a));
    } else {
        let h = b.drop_last();
        law_interfaces_add_up(a, h, i);
        assert((a + b).drop_last() =~= a + h);
        assert((a + b).last() == b.last());
        assert(local_entries(a + b) =~= local_entries(a) + local_entries(b));
    }
}

/// The interfaces count with `-D` only, and the entries in any case.
pub proof fn law_auto_direct(specs: Seq<Text>, ifs: Seq<Interface>, host: Text)
    ensures
        is_direct(direct_entries(specs, false, ifs), host) <==> is_direct(
            entries_of(specs),
            host,
        ),
        is_direct(direct_entries(specs, true, ifs), host) <==> is_direct(entries_of(specs), host)
            || is_direct(local_entries(ifs), host),
{
    law_tables_add_up(
        entries_of(specs),
        local_entries(ifs),
        EntryView::Cidr { addr: 0, mask: 0 },
        host,
    );
}

// ---- Parameters ----

/// The parameter counts for the configuration: the one of its method, or the one for
/// all of them.
pub open spec fn applies(key: Text, cfg: ConfigView) -> bool {
    ||| key == "CONNECT_DIRECT"@
    ||| key == "SOCKS5_DIRECT"@ && cfg.relay_method == ProxyMethod::Socks && cfg.socks_version == 5
    ||| key == "SOCKS4_DIRECT"@ && cfg.relay_method == ProxyMethod::Socks && cfg.socks_version != 5
    ||| key == "HTTP_DIRECT"@ && cfg.relay_method == ProxyMethod::Http
}

/// An entry that is among some texts is in the table.
proof fn lemma_listed(specs: Seq<Text>, i: int, host: Text)
    requires
        0 <= i < specs.len(),
        entry_of(specs[i]) matches Some(e) && entry_matches(e, host),
    ensures
        is_direct(entries_of(specs), host),
{
    let a = specs.take(i);
    let m = seq![specs[i]];
    let b = specs.skip(i + 1);
    let e = entry_of(specs[i])->0;
    assert(specs =~= a + m + b);
    law_entries_add_up(a + m, b, specs[i]);
    law_entries_add_up(a, m, specs[i]);
    law_tables_add_up(entries_of(a), entries_of(m), e, host);
    law_tables_add_up(entries_of(a + m), entries_of(b), e, host);
}

/// A table matches only by an entry that is among the texts.
proof fn lemma_unlisted(specs: Seq<Text>, host: Text)
    requires
        forall|i: int|
            0 <= i < specs.len() ==> !(entry_of(#[trigger] specs[i]) matches Some(e)
                && entry_matches(e, host)),
    ensures
        !is_direct(entries_of(specs), host),
    decreases specs.len(),
{
    if specs.len() > 0 {
        let h = specs.drop_last();
        let l = specs.last();
        assert(l == specs[specs.len() - 1]);
        assert forall|i: int| 0 <= i < h.len() implies !(entry_of(#[trigger] h[i]) matches Some(e)
            && entry_matches(e, host)) by {
            assert(h[i] == specs[i]);
        }
        lemma_unlisted(h, host);
        assert(specs =~= h + seq![l]);
        law_entries_add_up(h, seq![l], l);
        if let Some(e) = entry_of(l) {
            law_tables_add_up(entries_of(h), seq![e], e, host);
        } else {
            assert(entries_of(h) + Seq::<EntryView>::empty() =~= entries_of(h));
        }
    }
}

/// A destination that matches an entry at any place of a comma-separated parameter
/// bypasses the proxy: it is connected to directly, and the relay is forgotten.
pub proof fn law_listed_destination(
    cfg: ConfigView,
    p: ParamsView,
    ifs: Seq<Interface>,
    key: Text,
    items: Seq<Text>,
    i: int,
)
    requires
        applies(key, cfg),
        0 <= i < items.len(),
        forall|k: int| 0 <= k < items.len() ==> !holds(#[trigger] items[k], ','),
        param(p, key) == Some(join(items, ',')),
        entry_of(items[i]) matches Some(e) && entry_matches(e, cfg.dest_host),
    ensures
        ({
            let t = direct_entries(direct_specs(cfg, p), cfg.f_auto_direct, ifs);
            &&& is_direct(t, cfg.dest_host)
            &&& cfg.relay_method != ProxyMethod::Direct ==> bypassed(cfg, t) == (ConfigView {
                relay_method: ProxyMethod::Direct,
                relay_host: None,
                ..cfg
            })
        }),
{
    lemma_split_join(items, ',');
    let specs = direct_specs(cfg, p);
    lemma_keys();
    let place = if key == "CONNECT_DIRECT"@ {
        specs.len() - items.len() + i
    } else {
        i
    };
    assert(specs[place] == items[i]);
    lemma_listed(specs, place, cfg.dest_host);
    law_auto_direct(specs, ifs, cfg.dest_host);
}

/// Only what the parameters that count list is direct, and with `-D` what the local
/// networks hold.
pub proof fn law_only_listed_destinations(
    cfg: ConfigView,
    p: ParamsView,
    ifs: Seq<Interface>,
)
    requires
        forall|key: Text, i: int|
            #![trigger split(param(p, key)->0, ',')[i]]
            applies(key, cfg) && param(p, key) is Some && 0 <= i < split(
                param(p, key)->0,
                ',',
            ).len() ==> !(entry_of(split(param(p, key)->0, ',')[i]) matches Some(e)
                && entry_matches(e, cfg.dest_host)),
        cfg.f_auto_direct ==> !is_direct(local_entries(ifs), cfg.dest_host),
    ensures
        bypassed(cfg, direct_entries(direct_specs(cfg, p), cfg.f_auto_direct, ifs)) == cfg,
{
    let specs = direct_specs(cfg, p);
    lemma_keys();
    let own_key = if cfg.relay_method == ProxyMethod::Http {
        "HTTP_DIRECT"@
    } else if cfg.socks_version == 5 {
        "SOCKS5_DIRECT"@
    } else {
        "SOCKS4_DIRECT"@
    };
    let all = "CONNECT_DIRECT"@;
    let has_own = applies(own_key, cfg) && param(p, own_key) is Some;
    let own = if has_own {
        split(param(p, own_key)->0, ',')
    } else {
        Seq::empty()
    };
    assert forall|i: int| 0 <= i < specs.len() implies !(entry_of(#[trigger] specs[i]) matches Some(
        e,
    ) && entry_matches(e, cfg.dest_host)) by {
        if i < own.len() {
            assert(specs[i] == split(param(p, own_key)->0, ',')[i]);
        } else {
            assert(specs[i] == split(param(p, all)->0, ',')[i - own.len()]);
        }
    }
    lemma_unlisted(specs, cfg.dest_host);
    law_auto_direct(specs, ifs, cfg.dest_host);
}

/// The names of the parameters differ.
proof fn lemma_keys()
    ensures
        "CONNECT_DIRECT"@ != "SOCKS5_DIRECT"@,
        "CONNECT_DIRECT"@ != "SOCKS4_DIRECT"@,
        "CONNECT_DIRECT"@ != "HTTP_DIRECT"@,
        "SOCKS5_DIRECT"@ != "SOCKS4_DIRECT"@,
        "SOCKS5_DIRECT"@ != "HTTP_DIRECT"@,
        "SOCKS4_DIRECT"@ != "HTTP_DIRECT"@,
{
    reveal_strlit("CONNECT_DIRECT");
    reveal_strlit("SOCKS5_DIRECT");
    reveal_strlit("SOCKS4_DIRECT");
    reveal_strlit("HTTP_DIRECT");
    assert("CONNECT_DIRECT"@[0] == 'C');
    assert("SOCKS5_DIRECT"@[5] == '5');
    assert("SOCKS4_DIRECT"@[5] == '4');
    assert("HTTP_DIRECT"@[0] == 'H');
}

/// A direct connection stays one, whatever the table holds.
pub proof fn law_direct_stays(cfg: ConfigView, t: Seq<EntryView>)
    requires
        cfg.relay_method == ProxyMethod::Direct,
    ensures
        bypassed(cfg, t) == cfg,
{
}

// ---- Entries ----

/// White space around an entry is of no account, and nothing else is no entry.
pub proof fn law_entry_in_spaces(a: Text, s: Text, b: Text)
    requires
        all_space(a),
        is_tight(s),
        all_space(b),
    ensures
        entry_of(a + s + b) == entry_of(s),
        s.len() == 0 ==> entry_of(s) is None,
{
    law_trim(a, s, b);
    lemma_tight(s);
}

/// Text that names a host: no sign, no mask, no dot at its start or end, no address,
/// and no comma or white space around it.
pub open spec fn is_host_name(s: Text) -> bool {
    &&& s.len() > 0
    &&& is_tight(s)
    &&& !holds(s, '/')
    &&& s[0] != '!' && s[0] != '.' && s[0] != '*'
    &&& s.last() != '.'
}

/// A name is an entry for that host and no other, in any case of its letters.
pub proof fn law_host_entry(name: Text, host: Text)
    requires
        is_host_name(name),
        parse_ipv4(name) is None,
    ensures
        entry_of(name) matches Some(e) && (entry_matches(e, host) <==> lowered(host) == lowered(
            name,
        )),
{
    lemma_tight(name);
    lemma_find(name, '/');
    assert(name.take(name.len() as int) =~= name);
    assert(cidr_entry(name) is None);
    assert(trim_start_dots(name) == name);
}

/// A name behind `.` or `*.` is an entry for every host below it: some labels, a dot
/// and the name. The name itself and names that just end alike are not meant.
pub proof fn law_suffix_entry(name: Text, host: Text)
    requires
        is_host_name(name),
    ensures
        entry_of(seq!['.'] + name) matches Some(e) && (entry_matches(e, host) <==> exists|x: Text|
            lowered(host) == #[trigger] (x + seq!['.']) + lowered(name)),
        entry_of(seq!['*', '.'] + name) == entry_of(seq!['.'] + name),
{
    let s = seq!['.'] + name;
    let w = seq!['*', '.'] + name;
    let n = name.len() as int;
    let e0 = Seq::<char>::empty();
    lemma_find(name, '/');
    assert(s.last() == name.last());
    assert(w.last() == name.last());
    assert(s[0] == '.' && w[0] == '*' && w[1] == '.');
    lemma_tight(s);
    lemma_tight(w);
    assert forall|i: int| 0 <= i < s.len() implies s[i] != '/' by {
        if i > 0 {
            assert(s[i] == name[i - 1]);
        }
    }
    assert forall|i: int| 0 <= i < w.len() implies w[i] != '/' by {
        if i > 1 {
            assert(w[i] == name[i - 2]);
        }
    }
    lemma_find_at(s, '/', s.len() as int);
    lemma_find_at(w, '/', w.len() as int);
    assert(s.take(s.len() as int) =~= s);
    assert(w.take(w.len() as int) =~= w);
    lemma_find_at(e0, '.', 0);
    law_split(e0, name, '.');
    assert(s =~= e0 + seq!['.'] + name);
    assert(octet(e0) is None);
    assert(split(s, '.')[0] == e0);
    lemma_find_at(seq!['*'], '.', 1);
    law_split(seq!['*'], name, '.');
    assert(w =~= seq!['*'] + seq!['.'] + name);
    assert(split(w, '.')[0] == seq!['*']);
    assert(!is_digit(seq!['*'][0]));
    assert(octet(seq!['*']) is None);
    assert(cidr_entry(s) is None);
    assert(cidr_entry(w) is None);
    assert(w.drop_first() =~= s);
    assert(s.drop_first() =~= name);
    assert(trim_start_dots(name) == name);
    assert(trim_start_dots(s) == name);
    let l = lowered(host);
    let m = lowered(name);
    let e = entry_of(s)->0;
    assert(e == EntryView::Domain { name: m, suffix_only: true });
    if entry_matches(e, host) {
        let k = l.len() - m.len() - 1;
        let x = l.take(k);
        assert(l.subrange(k + 1, l.len() as int) =~= m);
        assert(l =~= (x + seq!['.']) + m);
    }
    if exists|x: Text| l == #[trigger] (x + seq!['.']) + m {
        let x = choose|x: Text| l == #[trigger] (x + seq!['.']) + m;
        assert(l[x.len() as int] == '.');
        assert(m =~= l.subrange(l.len() - m.len(), l.len() as int));
    }
}

/// The first octets with a dot behind each are an entry for their network.
pub proof fn law_octets_entry(a: u8, b: u8, c: u8)
    ensures
        ({
            let (x, y, z) = (decimal(a as nat), decimal(b as nat), decimal(c as nat));
            let dot = seq!['.'];
            &&& entry_of(x + dot) == Some(
                EntryView::Cidr { addr: (a * 0x1000000) as u32, mask: 0xFF00_0000 },
            )
            &&& entry_of(x + dot + (y + dot)) == Some(
                EntryView::Cidr { addr: (a * 0x1000000 + b * 0x10000) as u32, mask: 0xFFFF_0000 },
            )
            &&& entry_of(x + dot + (y + dot + (z + dot))) == Some(
                EntryView::Cidr {
                    addr: (a * 0x1000000 + b * 0x10000 + c * 0x100) as u32,
                    mask: 0xFFFF_FF00,
                },
            )
        }),
{
    lemma_one_octet(a);
    lemma_two_octets(a, b);
    lemma_three_octets(a, b, c);
}

proof fn lemma_one_octet(a: u8)
    ensures
        entry_of(decimal(a as nat) + seq!['.']) == Some(
            EntryView::Cidr { addr: (a * 0x1000000) as u32, mask: 0xFF00_0000 },
        ),
{
    let x = decimal(a as nat);
    lemma_octet_text(a);
    assert(0xFFFF_FFFFu32 << 24u32 == 0xFF00_0000u32) by (bit_vector);
    law_split(x, Seq::empty(), '.');
    lemma_octets_text(x, x + seq!['.']);
    reveal_with_fuel(octets_of, 2);
    assert(seq![x].drop_last() =~= Seq::<Text>::empty());
    assert(octets_of(seq![x]) == Some(seq![a])) by {
        assert(Seq::<u8>::empty().push(a) =~= seq![a]);
    }
    assert(padded(seq![a]).number() == a * 0x1000000);
}

proof fn lemma_two_octets(a: u8, b: u8)
    ensures
        entry_of(decimal(a as nat) + seq!['.'] + (decimal(b as nat) + seq!['.'])) == Some(
            EntryView::Cidr { addr: (a * 0x1000000 + b * 0x10000) as u32, mask: 0xFFFF_0000 },
        ),
{
    let (x, y) = (decimal(a as nat), decimal(b as nat));
    let dot = seq!['.'];
    let t = x + dot + y;
    lemma_octet_text(a);
    lemma_octet_text(b);
    assert(0xFFFF_FFFFu32 << 16u32 == 0xFFFF_0000u32) by (bit_vector);
    law_split(y, Seq::empty(), '.');
    law_split(x, y, '.');
    assert(split(t, '.') =~= seq![x, y]);
    let s = x + dot + (y + dot);
    assert(s =~= t + dot);
    assert(t[0] == x[0]);
    assert(t.last() == y[y.len() - 1]);
    assert forall|i: int| 0 <= i < t.len() implies is_digit(#[trigger] t[i]) || t[i] == '.' by {
        if i < x.len() {
            assert(t[i] == x[i]);
        } else if i > x.len() {
            assert(t[i] == y[i - x.len() - 1]);
        }
    }
    lemma_octets_text(t, s);
    reveal_with_fuel(octets_of, 3);
    assert(seq![x, y].drop_last() =~= seq![x]);
    assert(seq![x].drop_last() =~= Seq::<Text>::empty());
    assert(octets_of(seq![x, y]) == Some(seq![a, b])) by {
        assert(Seq::<u8>::empty().push(a).push(b) =~= seq![a, b]);
    }
    assert(padded(seq![a, b]).number() == a * 0x1000000 + b * 0x10000);
}

proof fn lemma_three_octets(a: u8, b: u8, c: u8)
    ensures
        entry_of(
            decimal(a as nat) + seq!['.'] + (decimal(b as nat) + seq!['.'] + (decimal(c as nat)
                + seq!['.'])),
        ) == Some(
            EntryView::Cidr {
                addr: (a * 0x1000000 + b * 0x10000 + c * 0x100) as u32,
                mask: 0xFFFF_FF00,
            },
        ),
{
    let (x, y, z) = (decimal(a as nat), decimal(b as nat), decimal(c as nat));
    let dot = seq!['.'];
    let u = y + dot + z;
    let t = x + dot + u;
    lemma_octet_text(a);
    lemma_octet_text(b);
    lemma_octet_text(c);
    assert(0xFFFF_FFFFu32 << 8u32 == 0xFFFF_FF00u32) by (bit_vector);
    law_split(z, Seq::empty(), '.');
    law_split(y, z, '.');
    law_split(x, u, '.');
    assert(split(t, '.') =~= seq![x, y, z]);
    let s = x + dot + (y + dot + (z + dot));
    assert(s =~= t + dot);
    assert(t[0] == x[0]);
    assert(t.last() == z[z.len() - 1]);
    assert forall|i: int| 0 <= i < u.len() implies is_digit(#[trigger] u[i]) || u[i] == '.' by {
        if i < y.len() {
            assert(u[i] == y[i]);
        } else if i > y.len() {
            assert(u[i] == z[i - y.len() - 1]);
        }
    }
    assert forall|i: int| 0 <= i < t.len() implies is_digit(#[trigger] t[i]) || t[i] == '.' by {
        if i < x.len() {
            assert(t[i] == x[i]);
        } else if i > x.len() {
            assert(t[i] == u[i - x.len() - 1]);
        }
    }
    lemma_octets_text(t, s);
    reveal_with_fuel(octets_of, 4);
    assert(seq![x, y, z].drop_last() =~= seq![x, y]);
    assert(seq![x, y].drop_last() =~= seq![x]);
    assert(seq![x].drop_last() =~= Seq::<Text>::empty());
    assert(octets_of(seq![x, y, z]) == Some(seq![a, b, c])) by {
        assert(Seq::<u8>::empty().push(a).push(b).push(c) =~= seq![a, b, c]);
    }
    assert(padded(seq![a, b, c]).number() == a * 0x1000000 + b * 0x10000 + c * 0x100);
}

/// An octet is digits, and read back.
proof fn lemma_octet_text(a: u8)
    ensures
        decimal(a as nat).len() > 0,
        forall|i: int|
            0 <= i < decimal(a as nat).len() ==> is_digit(#[trigger] decimal(a as nat)[i]),
        !holds(decimal(a as nat), '.'),
        parse_number(decimal(a as nat), 255) == Some(a as nat),
{
    let d = decimal(a as nat);
    lemma_decimal_value(a as nat);
    assert forall|i: int| 0 <= i < d.len() implies is_digit(#[trigger] d[i]) by {}
    lemma_find_at(d, '.', d.len() as int);
    law_number_read(a as nat, 0, 255);
    assert(Seq::new(0, |i: int| '0') + d =~= d);
}

/// Digits and dots that end with a dot are read as first octets.
proof fn lemma_octets_text(t: Text, s: Text)
    requires
        s == t + seq!['.'],
        t.len() > 0,
        is_digit(t[0]),
        is_digit(t.last()),
        forall|i: int| 0 <= i < t.len() ==> is_digit(#[trigger] t[i]) || t[i] == '.',
    ensures
        dotted_prefix(s) is Some ==> entry_of(s) == dotted_prefix(s),
        trim_end_dots(s) == t,
{
    assert(s[0] == t[0]);
    assert(s.last() == '.');
    lemma_tight(s);
    assert forall|i: int| 0 <= i < s.len() implies s[i] != '/' by {
        if i < t.len() {
            assert(s[i] == t[i]);
            assert(is_digit(t[i]) || t[i] == '.');
        }
    }
    lemma_find_at(s, '/', s.len() as int);
    assert(s.take(s.len() as int) =~= s);
    assert(s.drop_last() =~= t);
    assert(trim_end_dots(t) == t);
}

/// A network is the addresses that differ from it in no bit of the mask.
pub proof fn law_network(ip: u32, addr: u32, mask: u32)
    ensures
        in_network(ip, addr, mask) <==> (ip ^ addr) & mask == 0,
{
    assert((ip & mask == addr & mask) <==> (ip ^ addr) & mask == 0) by (bit_vector);
}

/// A network matches the hosts that are an address in it, and no name.
pub proof fn law_network_hosts(addr: u32, mask: u32, ip: Ipv4Addr, name: Text)
    requires
        parse_ipv4(name) is None,
    ensures
        entry_matches(EntryView::Cidr { addr, mask }, ip.text()) <==> ((ip.number() as u32) ^ addr)
            & mask == 0,
        !entry_matches(EntryView::Cidr { addr, mask }, name),
{
    law_ipv4_text(ip.text(), ip);
    law_network(ip.number() as u32, addr, mask);
}

} // verus!

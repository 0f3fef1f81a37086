//! What holds of the bypass table as a whole.

use vstd::prelude::*;

use crate::addr::{law_ipv4_text, lemma_quad_chars, parse_ipv4, Ipv4Addr};
use crate::config::{ConfigView, ProxyMethod};
use crate::direct_table::{
    bypassed, cidr_entry, direct_entries, entries_of, entry_matches, entry_of, in_network,
    is_direct, local_entries, mask_of, matches_at, plain_entry, prefix_mask, EntryView, Interface,
};
use crate::number::{decimal, is_digit, lemma_decimal_value, parse_number, unsigned_part};
use crate::text::{
    holds, is_space, lemma_find, lemma_find_at, lower, lowered, trim, trim_end, trim_start, Text,
};

verus! {

// ---- Matching ----

/// A network of `n` bits holds the addresses that agree with it in these bits.
pub proof fn law_prefix_network(ip: u32, addr: u32, n: u32)
    requires
        0 < n <= 32,
    ensures
        in_network(ip, addr, prefix_mask(n as nat)) <==> ip >> ((32 - n) as u32) == addr >> ((32
            - n) as u32),
{
    let k = (32 - n) as u32;
    assert(k < 32 ==> ((ip & (0xFFFF_FFFFu32 << k) == addr & (0xFFFF_FFFFu32 << k)) <==> ip >> k
        == addr >> k)) by (bit_vector);
}

/// A network of no bits holds every address, one of all bits only its own.
pub proof fn law_network_bounds(ip: u32, addr: u32)
    ensures
        in_network(ip, addr, prefix_mask(0)),
        in_network(ip, addr, prefix_mask(32)) <==> ip == addr,
{
    assert(ip & 0 == addr & 0) by (bit_vector);
    assert(0xFFFF_FFFFu32 << 0u32 == 0xFFFF_FFFFu32) by (bit_vector);
    assert((ip & 0xFFFF_FFFFu32 == addr & 0xFFFF_FFFFu32) <==> ip == addr) by (bit_vector);
}

/// A negative entry matches wherever its inner one does not, whatever the name and
/// the address.
pub proof fn law_negative(e: EntryView, host: Text, ip: Option<Ipv4Addr>)
    ensures
        matches_at(EntryView::Negative(Box::new(e)), host, ip) == !matches_at(e, host, ip),
        entry_matches(EntryView::Negative(Box::new(e)), host) == !entry_matches(e, host),
{
}

/// A network matches the addresses in it, whatever the name, and nothing that has
/// no address.
pub proof fn law_network_goes_by_address(addr: u32, mask: u32, host: Text, ip: Option<Ipv4Addr>)
    ensures
        matches_at(EntryView::Cidr { addr, mask }, host, ip) <==> ip is Some && in_network(
            ip->0.number() as u32,
            addr,
            mask,
        ),
{
}

/// A name matches in any case, whatever the address.
pub proof fn law_name_goes_by_name(
    name: Text,
    suffix_only: bool,
    host: Text,
    ip: Option<Ipv4Addr>,
    other: Option<Ipv4Addr>,
)
    ensures
        matches_at(EntryView::Domain { name, suffix_only }, host, ip) == matches_at(
            EntryView::Domain { name, suffix_only },
            lowered(host),
            other,
        ),
{
    assert(lowered(lowered(host)) =~= lowered(host));
}

/// The case of a host's letters does not matter.
pub proof fn law_case_of_host(e: EntryView, host: Text)
    ensures
        entry_matches(e, host) == entry_matches(e, lowered(host)),
    decreases e,
{
    assert(lowered(lowered(host)) =~= lowered(host));
    match e {
        EntryView::Negative(inner) => {
            law_case_of_host(*inner, host);
        },
        EntryView::Cidr { .. } => {
            if parse_ipv4(host) is Some {
                let ip = parse_ipv4(host)->0;
                law_ipv4_text(host, ip);
                lemma_quad_chars(ip);
                assert(lowered(host) =~= host);
            }
            if parse_ipv4(lowered(host)) is Some {
                let ip = parse_ipv4(lowered(host))->0;
                law_ipv4_text(lowered(host), ip);
                lemma_quad_chars(ip);
                assert forall|i: int| 0 <= i < host.len() implies lower(host[i]) == host[i] by {
                    assert(lowered(host)[i] == lower(host[i]));
                }
                assert(lowered(host) =~= host);
            }
        },
        _ => {},
    }
}

/// A suffix entry matches names below its own, not its own.
pub proof fn law_suffix_not_itself(name: Text)
    ensures
        !entry_matches(EntryView::Domain { name: lowered(name), suffix_only: true }, name),
        entry_matches(EntryView::Domain { name: lowered(name), suffix_only: false }, name),
{
}

/// More entries never make a host go through the proxy.
pub proof fn law_more_entries(t: Seq<EntryView>, more: Seq<EntryView>, host: Text)
    requires
        is_direct(t, host),
    ensures
        is_direct(t + more, host),
        is_direct(more + t, host),
{
    let i = choose|i: int| 0 <= i < t.len() && entry_matches(#[trigger] t[i], host);
    assert((t + more)[i] == t[i]);
    assert((more + t)[more.len() + i] == t[i]);
}

// ---- Entries ----

/// Text that neither starts nor ends with white space is not trimmed.
proof fn lemma_trim_none(s: Text)
    requires
        s.len() > 0,
        !is_space(s[0]),
        !is_space(s.last()),
    ensures
        trim(s) == s,
{
}

/// The address that a number is.
pub open spec fn dotted(m: u32) -> Ipv4Addr {
    Ipv4Addr {
        a: (m / 0x1000000) as u8,
        b: (m / 0x10000 % 0x100) as u8,
        c: (m / 0x100 % 0x100) as u8,
        d: (m % 0x100) as u8,
    }
}

/// The number of that address is the number.
proof fn lemma_dotted(m: u32)
    ensures
        dotted(m).number() == m,
{
    assert(m / 0x100 / 0x100 == m / 0x10000);
    assert(m / 0x10000 / 0x100 == m / 0x1000000);
}

/// The mask of a length has exactly that many leading bits; a length of 0 none.
pub proof fn law_prefix_mask(n: u32, i: u32)
    requires
        n <= 32,
        i < 32,
    ensures
        prefix_mask(n as nat) >> ((31 - i) as u32) & 1 == 1 <==> i < n,
        prefix_mask(0) == 0,
{
    let k = (32 - n) as u32;
    let j = (31 - i) as u32;
    assert(0u32 >> j & 1 == 0) by (bit_vector);
    assert(k < 32 && j < 32 ==> ((0xFFFF_FFFFu32 << k) >> j & 1 == 1 <==> j >= k)) by (bit_vector);
}

/// The forms of a network agree: `/n`, and the dotted mask of `n` bits, are the
/// address under the mask of `n` bits.
pub proof fn law_cidr_forms(ip: Ipv4Addr, n: nat)
    requires
        n <= 32,
    ensures
        cidr_entry(ip.text() + "/"@ + decimal(n)) == Some(
            EntryView::Cidr { addr: ip.number() as u32, mask: prefix_mask(n) },
        ),
        cidr_entry(ip.text() + "/"@ + dotted(prefix_mask(n)).text()) == Some(
            EntryView::Cidr { addr: ip.number() as u32, mask: prefix_mask(n) },
        ),
{
    let d = decimal(n);
    let m = prefix_mask(n);
    lemma_mask_bits(n);
    lemma_cidr_slash(ip, d);
    let quad = dotted(m);
    lemma_dotted(m);
    law_ipv4_text(quad.text(), quad);
    lemma_quad_shape(quad);
    lemma_cidr_slash(ip, quad.text());
}

/// An address alone is the same as with `/32`.
pub proof fn law_cidr_single_host(ip: Ipv4Addr)
    ensures
        cidr_entry(ip.text()) == cidr_entry(ip.text() + "/"@ + decimal(32)),
        cidr_entry(ip.text()) == Some(
            EntryView::Cidr { addr: ip.number() as u32, mask: 0xFFFF_FFFF },
        ),
{
    law_cidr_forms(ip, 32);
    lemma_quad_plain(ip);
    assert(0xFFFF_FFFFu32 << 0u32 == 0xFFFF_FFFFu32) by (bit_vector);
}

/// A length above 32 is no network, and the entry that has it is none, negated or
/// not.
pub proof fn law_cidr_too_long(ip: Ipv4Addr, k: nat)
    requires
        k > 32,
    ensures
        cidr_entry(ip.text() + "/"@ + decimal(k)) is None,
        entry_of(ip.text() + "/"@ + decimal(k)) is None,
        entry_of("!"@ + (ip.text() + "/"@ + decimal(k))) is None,
{
    let d = decimal(k);
    let s = ip.text() + "/"@ + d;
    lemma_mask_bits(k);
    lemma_cidr_slash(ip, d);
    lemma_slash(ip, d);
    reveal_strlit("/");
    assert(s[ip.text().len() as int] == '/');
    lemma_find(s, '/');
    lemma_quad_shape(ip);
    assert(s[0] == ip.text()[0]);
    law_negated_spec(s);
}

/// A number of bits is digits and no dotted mask.
proof fn lemma_mask_bits(n: nat)
    ensures
        decimal(n).len() > 0,
        is_digit(decimal(n).last()),
        mask_of(decimal(n)) == (if n <= 32 {
            Some(prefix_mask(n))
        } else {
            None
        }),
{
    let d = decimal(n);
    lemma_decimal_value(n);
    assert(!holds(d, '.')) by {
        lemma_find(d, '.');
    }
    assert(is_digit(d[0]));
    assert(unsigned_part(d) == d);
}

/// `a.b.c.d/n` is an entry for the network of the first `n` bits of the address.
pub proof fn law_network_spec(ip: Ipv4Addr, n: nat)
    requires
        n <= 32,
    ensures
        entry_of(ip.text() + "/"@ + decimal(n)) == Some(
            EntryView::Cidr { addr: ip.number() as u32, mask: prefix_mask(n) },
        ),
{
    law_cidr_forms(ip, n);
    lemma_mask_bits(n);
    lemma_slash(ip, decimal(n));
}

/// `a.b.c.d/m.m.m.m` is an entry for the network of the address under that mask.
pub proof fn law_mask_spec(ip: Ipv4Addr, mask: Ipv4Addr)
    ensures
        entry_of(ip.text() + "/"@ + mask.text()) == Some(
            EntryView::Cidr { addr: ip.number() as u32, mask: mask.number() as u32 },
        ),
{
    let m = mask.text();
    law_ipv4_text(m, mask);
    lemma_quad_shape(mask);
    lemma_cidr_slash(ip, m);
    lemma_slash(ip, m);
}

/// A dotted quad starts and ends with a digit and has a dot.
proof fn lemma_quad_shape(ip: Ipv4Addr)
    ensures
        ip.text().len() > 0,
        is_digit(ip.text()[0]),
        is_digit(ip.text().last()),
        holds(ip.text(), '.'),
{
    let p = ip.parts();
    let s = ip.text();
    lemma_decimal_value(ip.a as nat);
    lemma_decimal_value(ip.b as nat);
    lemma_decimal_value(ip.c as nat);
    lemma_decimal_value(ip.d as nat);
    reveal_with_fuel(crate::text::join, 4);
    assert(s =~= p[0] + seq!['.'] + (p[1] + seq!['.'] + (p[2] + seq!['.'] + p[3])));
    assert(s[0] == p[0][0]);
    assert(s.last() == p[3][p[3].len() - 1]);
    assert(s[p[0].len() as int] == '.');
    lemma_find(s, '.');
}

/// An address, a slash and a mask divide at the slash.
proof fn lemma_cidr_slash(ip: Ipv4Addr, m: Text)
    ensures
        cidr_entry(ip.text() + "/"@ + m) == (match mask_of(m) {
            Some(k) => Some(EntryView::Cidr { addr: ip.number() as u32, mask: k }),
            None => None,
        }),
{
    reveal_strlit("/");
    let a = ip.text();
    let s = a + "/"@ + m;
    lemma_quad_chars(ip);
    lemma_quad_shape(ip);
    law_ipv4_text(a, ip);
    assert forall|i: int| 0 <= i < a.len() implies s[i] != '/' by {
        assert(s[i] == a[i]);
        assert(is_digit(a[i]) || a[i] == '.');
    }
    lemma_find_at(s, '/', a.len() as int);
    assert(s.take(a.len() as int) =~= a);
    assert(s.skip(a.len() as int + 1) =~= m);
}

/// Such text is not trimmed and has no sign.
proof fn lemma_slash(ip: Ipv4Addr, m: Text)
    requires
        m.len() > 0,
        is_digit(m.last()),
    ensures
        ({
            let s = ip.text() + "/"@ + m;
            &&& trim(s) == s
            &&& entry_of(s) == plain_entry(s)
        }),
{
    let a = ip.text();
    let s = a + "/"@ + m;
    lemma_quad_shape(ip);
    assert(s.last() == m.last());
    assert(s[0] == a[0]);
    lemma_trim_none(s);
}

/// An address alone is one for the parser too.
proof fn lemma_quad_plain(ip: Ipv4Addr)
    ensures
        trim(ip.text()) == ip.text(),
        cidr_entry(ip.text()) == Some(
            EntryView::Cidr { addr: ip.number() as u32, mask: 0xFFFF_FFFF },
        ),
        entry_of(ip.text()) == cidr_entry(ip.text()),
{
    let s = ip.text();
    lemma_quad_chars(ip);
    lemma_quad_shape(ip);
    law_ipv4_text(s, ip);
    lemma_trim_none(s);
    assert forall|i: int| 0 <= i < s.len() implies s[i] != '/' by {
        assert(is_digit(s[i]) || s[i] == '.');
    }
    lemma_find_at(s, '/', s.len() as int);
    assert(s.take(s.len() as int) =~= s);
}

/// An address alone is an entry for that address.
pub proof fn law_address_spec(ip: Ipv4Addr, host: Text)
    ensures
        entry_of(ip.text()) == Some(
            EntryView::Cidr { addr: ip.number() as u32, mask: 0xFFFF_FFFF },
        ),
        entry_matches(entry_of(ip.text())->0, host) <==> parse_ipv4(host) == Some(ip),
{
    lemma_quad_plain(ip);
    if let Some(q) = parse_ipv4(host) {
        let (m, n) = (q.number() as u32, ip.number() as u32);
        assert((m & 0xFFFF_FFFFu32 == n & 0xFFFF_FFFFu32) <==> m == n) by (bit_vector);
        lemma_number_injective(q, ip);
    }
}

/// Two addresses with one number are one address.
proof fn lemma_number_injective(x: Ipv4Addr, y: Ipv4Addr)
    ensures
        x.number() == y.number() <==> x == y,
        x.number() <= u32::MAX,
        y.number() <= u32::MAX,
{
    if x.number() == y.number() {
        assert(x.a == y.a);
        assert(x.b == y.b);
        assert(x.c == y.c);
        assert(x.d == y.d);
    }
}

/// `!` before an entry negates it; before malformed text it writes no entry either.
pub proof fn law_negated_spec(s: Text)
    requires
        s.len() > 0,
        trim(s) == s,
        s[0] != '!',
    ensures
        entry_of("!"@ + s) == (match entry_of(s) {
            Some(e) => Some(EntryView::Negative(Box::new(e))),
            None => None,
        }),
{
    reveal_strlit("!");
    let t = "!"@ + s;
    assert(t[0] == '!');
    assert(t.drop_first() =~= s);
    lemma_trimmed(s);
    assert(t.last() == s.last());
    lemma_trim_none(t);
}

/// What stands directly behind `!` is the entry that is negated, a space too.
pub proof fn law_sign_comes_first(s: Text)
    requires
        s.len() > 0,
        !is_space(s.last()),
    ensures
        entry_of("!"@ + s) == (match plain_entry(s) {
            Some(e) => Some(EntryView::Negative(Box::new(e))),
            None => None,
        }),
{
    reveal_strlit("!");
    let t = "!"@ + s;
    assert(t[0] == '!');
    assert(t.drop_first() =~= s);
    assert(t.last() == s.last());
    lemma_trim_none(t);
}

/// Text that trimming leaves alone does not end with white space.
proof fn lemma_trimmed(s: Text)
    requires
        s.len() > 0,
        trim(s) == s,
    ensures
        !is_space(s.last()),
{
    lemma_trim_len(s);
    if trim_start(s).len() < s.len() {
        lemma_trim_len(trim_start(s));
    } else if is_space(s.last()) {
        lemma_trim_len(s.drop_last());
    }
}

/// Trimming makes text no longer.
proof fn lemma_trim_len(s: Text)
    ensures
        trim_start(s).len() <= s.len(),
        trim_start(s).len() == s.len() ==> trim_start(s) == s,
        trim_end(s).len() <= s.len(),
    decreases s.len(),
{
    if s.len() > 0 {
        lemma_trim_len(s.drop_first());
        lemma_trim_len(s.drop_last());
    }
}

// ---- Local networks ----

/// The network of an interface is in what the interfaces give.
proof fn lemma_local_entries(ifs: Seq<Interface>, i: int, a: Ipv4Addr, m: Ipv4Addr)
    requires
        0 <= i < ifs.len(),
        ifs[i].address == Some(a),
        ifs[i].netmask == Some(m),
    ensures
        local_entries(ifs).contains(
            EntryView::Cidr { addr: a.number() as u32, mask: m.number() as u32 },
        ),
    decreases ifs.len(),
{
    let e = EntryView::Cidr { addr: a.number() as u32, mask: m.number() as u32 };
    let r = local_entries(ifs);
    if i == ifs.len() - 1 {
        assert(r.last() == e);
    } else {
        let h = ifs.drop_last();
        assert(h[i] == ifs[i]);
        lemma_local_entries(h, i, a, m);
        let k = choose|k: int| 0 <= k < local_entries(h).len() && local_entries(h)[k] == e;
        assert(r[k] == e);
    }
}

/// With `-D`, a destination in the network of a local interface bypasses the
/// proxy.
pub proof fn law_local_network_bypasses(
    cfg: ConfigView,
    specs: Seq<Text>,
    ifs: Seq<Interface>,
    i: int,
    a: Ipv4Addr,
    m: Ipv4Addr,
    ip: Ipv4Addr,
)
    requires
        0 <= i < ifs.len(),
        ifs[i].address == Some(a),
        ifs[i].netmask == Some(m),
        parse_ipv4(cfg.dest_host) == Some(ip),
        in_network(ip.number() as u32, a.number() as u32, m.number() as u32),
    ensures
        is_direct(direct_entries(specs, true, ifs), cfg.dest_host),
        bypassed(cfg, direct_entries(specs, true, ifs)).relay_method == ProxyMethod::Direct,
{
    lemma_local_entries(ifs, i, a, m);
    let e = EntryView::Cidr { addr: a.number() as u32, mask: m.number() as u32 };
    let t = local_entries(ifs);
    let k = choose|k: int| 0 <= k < t.len() && t[k] == e;
    assert(entry_matches(t[k], cfg.dest_host));
    assert(is_direct(t, cfg.dest_host));
    law_more_entries(t, entries_of(specs), cfg.dest_host);
}

/// A destination that nothing in the table matches keeps its proxy.
pub proof fn law_unlisted_keeps_proxy(cfg: ConfigView, t: Seq<EntryView>)
    requires
        !is_direct(t, cfg.dest_host),
    ensures
        bypassed(cfg, t) == cfg,
{
}

// ---- Malformed entries ----

/// An address with a mask that is neither a number of bits nor an address is no entry,
/// negated or not.
pub proof fn law_bad_mask(ip: Ipv4Addr, m: Text)
    requires
        m.len() > 0,
        !is_space(m.last()),
        holds(m, '.') ==> parse_ipv4(m) is None,
        !holds(m, '.') ==> parse_number(m, 32) is None,
    ensures
        entry_of(ip.text() + "/"@ + m) is None,
        entry_of("!"@ + (ip.text() + "/"@ + m)) is None,
{
    let a = ip.text();
    let s = a + "/"@ + m;
    lemma_cidr_slash(ip, m);
    lemma_quad_shape(ip);
    reveal_strlit("/");
    assert(s[a.len() as int] == '/');
    lemma_find(s, '/');
    assert(s[0] == a[0]);
    assert(s.last() == m.last());
    lemma_trim_none(s);
    law_negated_spec(s);
}

/// A slash belongs to an address: text with one whose start is no address is no entry.
pub proof fn law_slash_without_address(a: Text, m: Text)
    requires
        a.len() > 0,
        !holds(a, '/'),
        !is_space(a[0]),
        a[0] != '!',
        a.last() != '.',
        parse_ipv4(a) is None,
        m.len() > 0 ==> !is_space(m.last()),
    ensures
        entry_of(a + seq!['/'] + m) is None,
{
    let s = a + seq!['/'] + m;
    let n = a.len() as int;
    lemma_find(a, '/');
    assert forall|i: int| 0 <= i < n implies s[i] != '/' by {
        assert(s[i] == a[i]);
    }
    lemma_find_at(s, '/', n);
    assert(s.take(n) =~= a);
    assert(s[0] == a[0]);
    assert(s.last() == if m.len() > 0 {
        m.last()
    } else {
        '/'
    });
    lemma_trim_none(s);
}

} // verus!

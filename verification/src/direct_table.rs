//! Bypass-proxy table (CIDR + domain entries).
//!
//! Initialised from the parameters (`SOCKS5_DIRECT` / `SOCKS4_DIRECT` /
//! `HTTP_DIRECT` / `CONNECT_DIRECT`) and from `-D` (auto-add local interface
//! addresses).
//!
//! Entry formats:
//! - `addr[/mask]`: `10.0.0.0/8`, `192.168.1.0/255.255.255.0`,
//!   `192.168.1.` (trailing dot: the octets that are there)
//! - `hostname`, or `.hostname` or `*.hostname` (exact or subdomain match)
//! - `!` prefix = negative (everything but this matches)
//!
//! `check_direct(table, host)` returns `true` if the host should bypass the
//! proxy.

pub mod laws;
pub mod lists;

use vstd::prelude::*;
use vstd::slice::slice_subrange;
use vstd::string::*;

use crate::addr::{parse_ipv4, read_ipv4, Ipv4Addr};
use crate::config::{Config, ConfigView, ProxyMethod};
use crate::error::Result;
use crate::number::{parse_number, read_number};
use crate::parameters::{getparam, param, Params, ParamsView};
use crate::text::{
    chars_of, cut, ends_with, find, find_char, holds, is_text, lemma_find, lemma_split_nonempty,
    lowered, opt_text, pieces, split, split_at_char, string_of, texts, to_lower, trim, Text,
};

verus! {

/// A single direct-table entry.
#[derive(Debug)]
pub enum Entry {
    Cidr { addr: u32, mask: u32 },
    Domain { name: String, suffix_only: bool },
    Negative(Box<Entry>),
}

/// An entry with its text as a sequence of characters.
pub enum EntryView {
    Cidr { addr: u32, mask: u32 },
    Domain { name: Text, suffix_only: bool },
    Negative(Box<EntryView>),
}

impl Entry {
    /// What the entry is.
    pub open spec fn model(self) -> EntryView
        decreases self,
    {
        match self {
            Entry::Cidr { addr, mask } => EntryView::Cidr { addr, mask },
            Entry::Domain { name, suffix_only } => EntryView::Domain { name: name@, suffix_only },
            Entry::Negative(inner) => EntryView::Negative(Box::new(inner.model())),
        }
    }
}

/// What the entries of a table are.
pub open spec fn table_view(t: Seq<Entry>) -> Seq<EntryView> {
    Seq::new(t.len(), |i: int| t[i].model())
}

// ---- Matching ----

/// The address is in the network.
pub open spec fn in_network(ip: u32, addr: u32, mask: u32) -> bool {
    ip & mask == addr & mask
}

/// `host` is a name below `name`; every name is below the empty one.
pub open spec fn is_subdomain(host: Text, name: Text) -> bool {
    &&& host.len() > name.len()
    &&& name.is_suffix_of(host)
    &&& name.len() == 0 || host[host.len() - name.len() - 1] == '.'
}

/// Whether an entry matches a host name and an address, if there is one: networks
/// go by the address, names by the name, in any case.
pub open spec fn matches_at(e: EntryView, host: Text, ip: Option<Ipv4Addr>) -> bool
    decreases e,
{
    match e {
        EntryView::Cidr { addr, mask } => match ip {
            Some(i) => in_network(i.number() as u32, addr, mask),
            None => false,
        },
        EntryView::Domain { name, suffix_only } => if suffix_only {
            is_subdomain(lowered(host), name)
        } else {
            lowered(host) == name
        },
        EntryView::Negative(inner) => !matches_at(*inner, host, ip),
    }
}

/// Whether an entry matches a host: its address is the one that it spells, if it
/// is numeric.
pub open spec fn entry_matches(e: EntryView, host: Text) -> bool {
    matches_at(e, host, parse_ipv4(host))
}

/// Whether a host is to be reached directly.
pub open spec fn is_direct(t: Seq<EntryView>, host: Text) -> bool {
    exists|i: int| 0 <= i < t.len() && entry_matches(#[trigger] t[i], host)
}

impl Entry {
    /// Does this entry match `host`, or its address `ip`? `Negative` inverts its
    /// inner.
    pub fn matches_host(&self, host: &str, ip: Option<Ipv4Addr>) -> (r: bool)
        ensures
            r == matches_at(self.model(), host@, ip),
        decreases self,
    {
        match self {
            Entry::Cidr { addr, mask } => match ip {
                Some(i) => i.to_bits() & *mask == *addr & *mask,
                None => false,
            },
            Entry::Domain { name, suffix_only } => {
                let v = chars_of(host);
                let w = to_lower(v.as_slice());
                let n = chars_of(name.as_str());
                if *suffix_only {
                    w.len() > n.len() && ends_with(w.as_slice(), n.as_slice()) && (n.len() == 0
                        || w[w.len() - n.len() - 1] == '.')
                } else {
                    is_text(w.as_slice(), name.as_str())
                }
            },
            Entry::Negative(inner) => !inner.matches_host(host, ip),
        }
    }
}

/// Decide whether `host` should bypass the proxy. Domain entries match in any
/// case, exactly or as a subdomain; `!`-prefixed entries negate their inner match.
pub fn check_direct(table: &Vec<Entry>, host: &str) -> (r: bool)
    ensures
        r == is_direct(table_view(table@), host@),
{
    let v = chars_of(host);
    let ip = read_ipv4(v.as_slice());
    let ghost t = table_view(table@);
    for i in 0..table.len()
        invariant
            t == table_view(table@),
            ip == parse_ipv4(host@),
            forall|j: int| 0 <= j < i ==> !entry_matches(#[trigger] t[j], host@),
    {
        assert(t[i as int] == table@[i as int].model());
        if table[i].matches_host(host, ip) {
            return true;
        }
    }
    false
}

// ---- Parsing ----

/// The mask of the first `n` bits of an address.
pub open spec fn prefix_mask(n: nat) -> u32 {
    if n == 0 {
        0
    } else {
        0xFFFF_FFFFu32 << ((32 - n) as u32)
    }
}

/// `s` without the dots at its end.
pub open spec fn trim_end_dots(s: Text) -> Text
    decreases s.len(),
{
    if s.len() > 0 && s.last() == '.' {
        trim_end_dots(s.drop_last())
    } else {
        s
    }
}

/// `s` without the dots at its start.
pub open spec fn trim_start_dots(s: Text) -> Text
    decreases s.len(),
{
    if s.len() > 0 && s[0] == '.' {
        trim_start_dots(s.drop_first())
    } else {
        s
    }
}

/// The octets that pieces write, where all of them do.
pub open spec fn octets_of(p: Seq<Text>) -> Option<Seq<u8>>
    decreases p.len(),
{
    if p.len() == 0 {
        Some(Seq::empty())
    } else {
        match (octets_of(p.drop_last()), parse_number(p.last(), 255)) {
            (Some(h), Some(n)) => Some(h.push(n as u8)),
            _ => None,
        }
    }
}

/// The address of up to four octets; those that are missing are zero.
pub open spec fn padded(o: Seq<u8>) -> Ipv4Addr {
    Ipv4Addr {
        a: if o.len() > 0 {
            o[0]
        } else {
            0
        },
        b: if o.len() > 1 {
            o[1]
        } else {
            0
        },
        c: if o.len() > 2 {
            o[2]
        } else {
            0
        },
        d: if o.len() > 3 {
            o[3]
        } else {
            0
        },
    }
}

/// A network by its first octets: `192.168.1.`.
pub open spec fn dotted_prefix(s: Text) -> Option<EntryView> {
    let p = split(trim_end_dots(s), '.');
    match octets_of(p) {
        Some(o) => if p.len() <= 4 {
            Some(
                EntryView::Cidr {
                    addr: padded(o).number() as u32,
                    mask: prefix_mask(8 * p.len()),
                },
            )
        } else {
            None
        },
        None => None,
    }
}

/// A mask: four octets or a number of bits.
pub open spec fn mask_of(s: Text) -> Option<u32> {
    if holds(s, '.') {
        match parse_ipv4(s) {
            Some(ip) => Some(ip.number() as u32),
            None => None,
        }
    } else {
        match parse_number(s, 32) {
            Some(n) => Some(prefix_mask(n)),
            None => None,
        }
    }
}

/// An entry by address: `a.b.c.d[/mask]` or the first octets with a dot at the
/// end.
pub open spec fn cidr_entry(s: Text) -> Option<EntryView> {
    let slash = find(s, '/');
    let a = s.take(slash);
    if a.len() > 0 && a.last() == '.' {
        dotted_prefix(a)
    } else {
        match parse_ipv4(a) {
            None => None,
            Some(ip) => if slash >= s.len() {
                Some(EntryView::Cidr { addr: ip.number() as u32, mask: 0xFFFF_FFFF })
            } else {
                match mask_of(s.skip(slash + 1)) {
                    Some(m) => Some(EntryView::Cidr { addr: ip.number() as u32, mask: m }),
                    None => None,
                }
            },
        }
    }
}

/// An entry by name: `.name` and `*.name` match below the name only.
pub open spec fn domain_entry(s: Text) -> EntryView {
    let t = if s.len() > 1 && s[0] == '*' && s[1] == '.' {
        s.drop_first()
    } else {
        s
    };
    EntryView::Domain {
        name: lowered(trim_start_dots(t)),
        suffix_only: t.len() > 0 && t[0] == '.',
    }
}

/// An entry without its sign: by address, otherwise by name. A slash belongs to an
/// address, so what has one and is no address entry is malformed.
pub open spec fn plain_entry(s: Text) -> Option<EntryView> {
    if cidr_entry(s) is Some {
        cidr_entry(s)
    } else if holds(s, '/') {
        None
    } else {
        Some(domain_entry(s))
    }
}

/// The entry that a text writes; empty and malformed text writes none.
pub open spec fn entry_of(spec: Text) -> Option<EntryView> {
    let s = trim(spec);
    if s.len() == 0 {
        None
    } else if s[0] == '!' {
        match plain_entry(s.drop_first()) {
            Some(e) => Some(EntryView::Negative(Box::new(e))),
            None => None,
        }
    } else {
        plain_entry(s)
    }
}

/// What was read of an entry.
pub open spec fn entry_view(e: Option<Entry>) -> Option<EntryView> {
    match e {
        Some(e) => Some(e.model()),
        None => None,
    }
}

/// The mask of the first `n` bits.
fn bits_mask(n: u32) -> (m: u32)
    requires
        n <= 32,
    ensures
        m == prefix_mask(n as nat),
{
    if n == 0 {
        0
    } else {
        0xFFFF_FFFFu32 << (32 - n)
    }
}

fn read_prefix(v: &[char]) -> (r: Option<Entry>)
    ensures
        entry_view(r) == dotted_prefix(v@),
{
    let mut n: usize = v.len();
    assert(v@.take(n as int) =~= v@);
    while n > 0 && v[n - 1] == '.'
        invariant
            n <= v@.len(),
            trim_end_dots(v@.take(n as int)) == trim_end_dots(v@),
        decreases n,
    {
        assert(v@.take(n as int).drop_last() =~= v@.take(n - 1));
        n = n - 1;
    }
    let body = slice_subrange(v, 0, n);
    assert(body@ =~= v@.take(n as int));
    let p = split_at_char(body, '.');
    let ghost all = pieces(p@);
    if p.len() > 4 {
        return None;
    }
    let mut o: Vec<u8> = Vec::new();
    assert(all.take(0) =~= Seq::empty());
    for i in 0..p.len()
        invariant
            all == pieces(p@),
            all == split(trim_end_dots(v@), '.'),
            octets_of(all.take(i as int)) == Some(o@),
            o@.len() == i,
    {
        let ghost upto = all.take(i + 1);
        assert(upto.drop_last() =~= all.take(i as int));
        assert(upto.last() == p@[i as int]@);
        match read_number(p[i].as_slice(), 255) {
            Some(k) => {
                o.push(k as u8);
            },
            None => {
                proof {
                    lemma_octets_prefix(all, i + 1);
                }
                return None;
            },
        }
    }
    assert(all.take(p@.len() as int) =~= all);
    proof {
        lemma_split_nonempty(trim_end_dots(v@), '.');
    }
    let k = o.len();
    let ip = Ipv4Addr {
        a: if k > 0 {
            o[0]
        } else {
            0
        },
        b: if k > 1 {
            o[1]
        } else {
            0
        },
        c: if k > 2 {
            o[2]
        } else {
            0
        },
        d: if k > 3 {
            o[3]
        } else {
            0
        },
    };
    Some(Entry::Cidr { addr: ip.to_bits(), mask: bits_mask(8 * (k as u32)) })
}

/// A piece that writes no octet spoils the whole.
proof fn lemma_octets_prefix(p: Seq<Text>, i: int)
    requires
        0 <= i <= p.len(),
        octets_of(p.take(i)) is None,
    ensures
        octets_of(p) is None,
    decreases p.len() - i,
{
    if i == p.len() {
        assert(p.take(i) =~= p);
    } else {
        assert(p.take(i + 1).drop_last() =~= p.take(i));
        lemma_octets_prefix(p, i + 1);
    }
}

fn parse_cidr(v: &[char]) -> (r: Option<Entry>)
    ensures
        entry_view(r) == cidr_entry(v@),
{
    proof {
        lemma_find(v@, '/');
    }
    let n = v.len();
    let slash = match find_char(v, '/') {
        Some(i) => i,
        None => n,
    };
    let a = slice_subrange(v, 0, slash);
    assert(a@ =~= v@.take(slash as int));
    let k = a.len();
    if k > 0 && a[k - 1] == '.' {
        return read_prefix(a);
    }
    let ip = match read_ipv4(a) {
        Some(ip) => ip,
        None => {
            return None;
        },
    };
    if slash >= n {
        return Some(Entry::Cidr { addr: ip.to_bits(), mask: 0xFFFF_FFFF });
    }
    let m = slice_subrange(v, slash + 1, n);
    assert(m@ =~= v@.skip(slash + 1));
    let mask = if find_char(m, '.').is_some() {
        match read_ipv4(m) {
            Some(q) => q.to_bits(),
            None => {
                return None;
            },
        }
    } else {
        match read_number(m, 32) {
            Some(b) => bits_mask(b as u32),
            None => {
                return None;
            },
        }
    };
    Some(Entry::Cidr { addr: ip.to_bits(), mask })
}

fn parse_domain(v: &[char]) -> (r: Entry)
    ensures
        r.model() == domain_entry(v@),
{
    let n = v.len();
    let t = if n > 1 && v[0] == '*' && v[1] == '.' {
        let rest = slice_subrange(v, 1, n);
        assert(rest@ =~= v@.drop_first());
        rest
    } else {
        v
    };
    let m = t.len();
    let suffix_only = m > 0 && t[0] == '.';
    let mut i: usize = 0;
    assert(t@.skip(0) =~= t@);
    while i < m && t[i] == '.'
        invariant
            m == t.len(),
            i <= m,
            trim_start_dots(t@.skip(i as int)) == trim_start_dots(t@),
        decreases m - i,
    {
        assert(t@.skip(i as int).drop_first() =~= t@.skip(i + 1));
        i = i + 1;
    }
    let body = slice_subrange(t, i, m);
    assert(body@ =~= t@.skip(i as int));
    let w = to_lower(body);
    Entry::Domain { name: string_of(w.as_slice()), suffix_only }
}

/// Parse a single entry. Returns `None` on format errors, and for an empty one.
pub fn parse_entry(spec: &str) -> (r: Option<Entry>)
    ensures
        entry_view(r) == entry_of(spec@),
{
    let v = chars_of(spec);
    let s = cut(v.as_slice());
    let n = s.len();
    if n == 0 {
        return None;
    }
    let negative = s[0] == '!';
    let body = if negative {
        let rest = slice_subrange(s, 1, n);
        assert(rest@ =~= s@.drop_first());
        rest
    } else {
        s
    };
    let entry = match parse_cidr(body) {
        Some(e) => e,
        None => {
            proof {
                lemma_find(body@, '/');
            }
            if find_char(body, '/').is_some() {
                return None;
            }
            parse_domain(body)
        },
    };
    if negative {
        Some(Entry::Negative(Box::new(entry)))
    } else {
        Some(entry)
    }
}

// ---- Filling ----

/// A local network interface: its IPv4 address and netmask, where it has them.
#[derive(Debug, Clone, Copy)]
pub struct Interface {
    pub address: Option<Ipv4Addr>,
    pub netmask: Option<Ipv4Addr>,
}

/// The entries that texts write, in order.
pub open spec fn entries_of(specs: Seq<Text>) -> Seq<EntryView>
    decreases specs.len(),
{
    if specs.len() == 0 {
        Seq::empty()
    } else {
        match entry_of(specs.last()) {
            Some(e) => entries_of(specs.drop_last()).push(e),
            None => entries_of(specs.drop_last()),
        }
    }
}

/// The networks of the interfaces that have an IPv4 address and netmask, in order.
pub open spec fn local_entries(ifs: Seq<Interface>) -> Seq<EntryView>
    decreases ifs.len(),
{
    if ifs.len() == 0 {
        Seq::empty()
    } else {
        match (ifs.last().address, ifs.last().netmask) {
            (Some(a), Some(m)) => local_entries(ifs.drop_last()).push(
                EntryView::Cidr { addr: a.number() as u32, mask: m.number() as u32 },
            ),
            _ => local_entries(ifs.drop_last()),
        }
    }
}

/// The whole table.
pub open spec fn direct_entries(
    specs: Seq<Text>,
    auto_local: bool,
    ifs: Seq<Interface>,
) -> Seq<EntryView> {
    if auto_local {
        entries_of(specs) + local_entries(ifs)
    } else {
        entries_of(specs)
    }
}

/// Add local network interface IPv4 addresses to the table.
fn add_local_interfaces(table: &mut Vec<Entry>, ifs: &Vec<Interface>) -> (added: usize)
    ensures
        table_view(final(table)@) == table_view(old(table)@) + local_entries(ifs@),
        added == local_entries(ifs@).len(),
{
    let ghost before = table_view(table@);
    let mut added: usize = 0;
    assert(ifs@.take(0) =~= Seq::empty());
    assert(table_view(table@) =~= before + local_entries(ifs@.take(0)));
    for i in 0..ifs.len()
        invariant
            table_view(table@) == before + local_entries(ifs@.take(i as int)),
            added == local_entries(ifs@.take(i as int)).len(),
            added <= i,
    {
        let ghost upto = ifs@.take(i + 1);
        let ghost mid = table_view(table@);
        assert(upto.drop_last() =~= ifs@.take(i as int));
        match (ifs[i].address, ifs[i].netmask) {
            (Some(a), Some(m)) => {
                let e = Entry::Cidr { addr: a.to_bits(), mask: m.to_bits() };
                table.push(e);
                assert(table_view(table@) =~= mid.push(e.model()));
                assert(table_view(table@) =~= before + local_entries(upto));
                added = added + 1;
            },
            _ => {},
        }
    }
    assert(ifs@.take(ifs@.len() as int) =~= ifs@);
    added
}

/// Initialise the bypass table from entries (read by the caller) and, for `-D`,
/// from the local interfaces. Returns the number of entries added.
pub fn initialize(
    table: &mut Vec<Entry>,
    entries: &Vec<String>,
    auto_local: bool,
    interfaces: &Vec<Interface>,
) -> (r: Result<usize>)
    requires
        entries@.len() + interfaces@.len() <= usize::MAX,
    ensures
        table_view(final(table)@) == direct_entries(texts(entries@), auto_local, interfaces@),
        r matches Ok(n) && n == final(table)@.len(),
{
    let ghost specs = texts(entries@);
    table.clear();
    let mut added: usize = 0;
    assert(specs.take(0) =~= Seq::empty());
    assert(table_view(table@) =~= Seq::empty());
    for i in 0..entries.len()
        invariant
            specs == texts(entries@),
            table_view(table@) == entries_of(specs.take(i as int)),
            added == table@.len(),
            added <= i,
    {
        let ghost upto = specs.take(i + 1);
        let ghost mid = table_view(table@);
        assert(upto.drop_last() =~= specs.take(i as int));
        assert(upto.last() == entries@[i as int]@);
        if let Some(e) = parse_entry(entries[i].as_str()) {
            table.push(e);
            assert(table_view(table@) =~= mid.push(e.model()));
            added = added + 1;
        }
    }
    assert(specs.take(specs.len() as int) =~= specs);
    if auto_local {
        proof {
            lemma_local_entries_len(interfaces@);
        }
        added = added + add_local_interfaces(table, interfaces);
        assert(table_view(table@).len() == added);
    }
    Ok(added)
}

proof fn lemma_local_entries_len(ifs: Seq<Interface>)
    ensures
        local_entries(ifs).len() <= ifs.len(),
    decreases ifs.len(),
{
    if ifs.len() > 0 {
        lemma_local_entries_len(ifs.drop_last());
    }
}

/// The parameter that holds the entries of a method.
pub open spec fn direct_key(cfg: ConfigView) -> Option<Text> {
    match cfg.relay_method {
        ProxyMethod::Socks => if cfg.socks_version == 5 {
            Some("SOCKS5_DIRECT"@)
        } else {
            Some("SOCKS4_DIRECT"@)
        },
        ProxyMethod::Http => Some("HTTP_DIRECT"@),
        _ => None,
    }
}

/// The entries of a parameter, between commas; none where it is not set.
pub open spec fn listed(value: Option<Text>) -> Seq<Text> {
    match value {
        Some(s) => split(s, ','),
        None => Seq::empty(),
    }
}

/// The entries that the parameters give: those of the method, then those of
/// `CONNECT_DIRECT`.
pub open spec fn direct_specs(cfg: ConfigView, p: ParamsView) -> Seq<Text> {
    let own = match direct_key(cfg) {
        Some(key) => listed(param(p, key)),
        None => Seq::empty(),
    };
    own + listed(param(p, "CONNECT_DIRECT"@))
}

/// Appends the entries of a parameter.
fn append_listed(value: Option<String>, entries: &mut Vec<String>)
    ensures
        texts(final(entries)@) == texts(old(entries)@) + listed(opt_text(value)),
{
    let ghost before = texts(entries@);
    if let Some(s) = value {
        let v = chars_of(s.as_str());
        let p = split_at_char(v.as_slice(), ',');
        let ghost all = pieces(p@);
        assert(texts(entries@) =~= before + all.take(0));
        for i in 0..p.len()
            invariant
                all == pieces(p@),
                texts(entries@) == before + all.take(i as int),
        {
            let ghost mid = texts(entries@);
            entries.push(string_of(p[i].as_slice()));
            assert(texts(entries@) =~= mid.push(all[i as int]));
            assert(texts(entries@) =~= before + all.take(i + 1));
        }
        assert(all.take(p@.len() as int) =~= all);
    } else {
        assert(texts(entries@) =~= before + listed(None));
    }
}

/// Initialise the bypass table from `cfg`: reads the per-method parameter
/// (`SOCKS5_DIRECT` / `SOCKS4_DIRECT` / `HTTP_DIRECT`) plus the
/// catch-all `CONNECT_DIRECT`, both routed through `parameters::getparam` so
/// `.connectrc` / `/etc/connectrc` are honoured. Then layers on local interface
/// auto-add when `-D` is set. Returns the number of entries, or `None` where the
/// machine cannot count so many.
pub fn init_from_config(
    table: &mut Vec<Entry>,
    cfg: &Config,
    params: &Params,
    interfaces: &Vec<Interface>,
) -> (r: Option<usize>)
    ensures
        r matches Some(n) ==> n == final(table)@.len() && table_view(final(table)@)
            == direct_entries(direct_specs(cfg@, params@), cfg@.f_auto_direct, interfaces@),
        r is None <==> direct_specs(cfg@, params@).len() + interfaces@.len() > usize::MAX,
        r is None ==> final(table)@ == old(table)@,
{
    let mut entries: Vec<String> = Vec::new();
    assert(texts(entries@) =~= Seq::empty());
    match cfg.relay_method {
        ProxyMethod::Socks => {
            if cfg.socks_version == 5 {
                append_listed(getparam(params, "SOCKS5_DIRECT"), &mut entries);
            } else {
                append_listed(getparam(params, "SOCKS4_DIRECT"), &mut entries);
            }
        },
        ProxyMethod::Http => {
            append_listed(getparam(params, "HTTP_DIRECT"), &mut entries);
        },
        _ => {},
    }
    append_listed(getparam(params, "CONNECT_DIRECT"), &mut entries);
    assert(texts(entries@) =~= direct_specs(cfg@, params@));
    if entries.len() > usize::MAX - interfaces.len() {
        return None;
    }
    match initialize(table, &entries, cfg.f_auto_direct, interfaces) {
        Ok(n) => Some(n),
        Err(_) => None,
    }
}

/// The configuration with a bypassed proxy, where the table holds the
/// destination.
pub open spec fn bypassed(cfg: ConfigView, t: Seq<EntryView>) -> ConfigView {
    if cfg.relay_method != ProxyMethod::Direct && is_direct(t, cfg.dest_host) {
        ConfigView { relay_method: ProxyMethod::Direct, relay_host: None, ..cfg }
    } else {
        cfg
    }
}

/// If the destination matches a direct-table entry, overrides the proxy method
/// to Direct, and says so.
pub fn apply_bypass(cfg: &mut Config, table: &Vec<Entry>) -> (r: bool)
    ensures
        final(cfg)@ == bypassed(old(cfg)@, table_view(table@)),
        r == (old(cfg)@.relay_method != ProxyMethod::Direct && is_direct(
            table_view(table@),
            old(cfg)@.dest_host,
        )),
{
    if cfg.relay_method != ProxyMethod::Direct && check_direct(table, cfg.dest_host.as_str()) {
        cfg.relay_method = ProxyMethod::Direct;
        cfg.relay_host = None;
        true
    } else {
        false
    }
}

} // verus!

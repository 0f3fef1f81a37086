//! Host resolution that filters by address family.
//!
//! A numeric host is its own answer. Any other host is looked up by the caller;
//! [`resolve_host`] picks from the answers by `--family {v4|v6|any}` (default
//! `any`).

use vstd::prelude::*;
use vstd::string::*;

use crate::addr::{
    law_ip_text, law_ipv4_text, parse_ip, parse_ipv4, parse_ipv6, read_ip, read_ipv4, read_ipv6,
    IpAddr, IpView, Ipv4Addr, Ipv6Addr,
};
use crate::config::Family;
use crate::error::{Error, ErrorView, Result};
use crate::text::{chars_of, concat, Text};

verus! {

/// An address to connect to.
#[allow(inconsistent_fields)]
#[derive(Debug, Clone, Copy)]
pub enum SocketAddr {
    V4 { ip: Ipv4Addr, port: u16 },
    V6 { ip: Ipv6Addr, port: u16, flowinfo: u32, scope_id: u32 },
}

/// An address to connect to, with the segments of an IPv6 address as a sequence.
pub enum SocketView {
    V4 { ip: Ipv4Addr, port: u16 },
    V6 { segments: Seq<u16>, port: u16, flowinfo: u32, scope_id: u32 },
}

impl View for SocketAddr {
    type V = SocketView;

    open spec fn view(&self) -> SocketView {
        match self {
            SocketAddr::V4 { ip, port } => SocketView::V4 { ip: *ip, port: *port },
            SocketAddr::V6 { ip, port, flowinfo, scope_id } => SocketView::V6 {
                segments: ip.segments@,
                port: *port,
                flowinfo: *flowinfo,
                scope_id: *scope_id,
            },
        }
    }
}

impl SocketView {
    /// The address without its port.
    pub open spec fn ip(self) -> IpView {
        match self {
            SocketView::V4 { ip, .. } => IpView::V4(ip),
            SocketView::V6 { segments, .. } => IpView::V6(segments),
        }
    }
}

impl SocketAddr {
    /// The address without its port.
    pub fn ip(&self) -> (r: IpAddr)
        ensures
            r@ == self@.ip(),
    {
        match self {
            SocketAddr::V4 { ip, .. } => IpAddr::V4(*ip),
            SocketAddr::V6 { ip, .. } => IpAddr::V6(*ip),
        }
    }
}

/// The addresses of a vector.
pub open spec fn socket_views(v: Seq<SocketAddr>) -> Seq<SocketView> {
    Seq::new(v.len(), |i: int| v[i]@)
}

/// A family takes IPv4 addresses.
pub open spec fn takes_v4(f: Family) -> bool {
    f != Family::V6
}

/// A family takes IPv6 addresses.
pub open spec fn takes_v6(f: Family) -> bool {
    f != Family::V4
}

/// The first IPv4 address, if `v4`, and the first IPv6 address, if `v6`, in the
/// order of the answers.
pub open spec fn first_of_each(s: Seq<SocketView>, v4: bool, v6: bool) -> Seq<SocketView>
    decreases s.len(),
{
    if s.len() == 0 {
        Seq::empty()
    } else {
        let rest = s.drop_first();
        match s[0] {
            SocketView::V4 { .. } => if v4 {
                seq![s[0]] + first_of_each(rest, false, v6)
            } else {
                first_of_each(rest, false, v6)
            },
            SocketView::V6 { .. } => if v6 {
                seq![s[0]] + first_of_each(rest, v4, false)
            } else {
                first_of_each(rest, v4, false)
            },
        }
    }
}

/// The host is an address and needs no lookup.
pub open spec fn is_literal(host: Text) -> bool {
    parse_ipv4(host) is Some || parse_ipv6(host) is Some
}

/// What a numeric host gives.
pub open spec fn literal_addrs(host: Text, port: u16, family: Family) -> Seq<SocketView> {
    match parse_ipv4(host) {
        Some(ip) => if takes_v4(family) {
            seq![SocketView::V4 { ip, port }]
        } else {
            Seq::empty()
        },
        None => if takes_v6(family) {
            seq![
                SocketView::V6 {
                    segments: parse_ipv6(host)->0,
                    port,
                    flowinfo: 0,
                    scope_id: 0,
                },
            ]
        } else {
            Seq::empty()
        },
    }
}

/// The kind of address that is missing.
pub open spec fn family_label(f: Family) -> Text {
    match f {
        Family::V4 => "IPv4"@,
        Family::V6 => "IPv6"@,
        Family::Any => "usable"@,
    }
}

/// No address of the family.
pub open spec fn no_addresses(host: Text, family: Family) -> ErrorView {
    ErrorView::Dns("no "@ + family_label(family) + " addresses for "@ + host)
}

/// What a lookup gave: addresses, or the text of its failure.
pub open spec fn answer_view(
    a: std::result::Result<Vec<SocketAddr>, String>,
) -> std::result::Result<Seq<SocketView>, Text> {
    match a {
        Ok(v) => Ok(socket_views(v@)),
        Err(e) => Err(e@),
    }
}

/// What a host resolves to.
pub open spec fn resolution(
    host: Text,
    port: u16,
    family: Family,
    answers: std::result::Result<Seq<SocketView>, Text>,
) -> std::result::Result<Seq<SocketView>, ErrorView> {
    if !is_literal(host) && answers is Err {
        Err(ErrorView::Dns(host + ": "@ + answers->Err_0))
    } else {
        let found = if is_literal(host) {
            literal_addrs(host, port, family)
        } else {
            first_of_each(answers->Ok_0, takes_v4(family), takes_v6(family))
        };
        if found.len() == 0 {
            Err(no_addresses(host, family))
        } else {
            Ok(found)
        }
    }
}

/// What was resolved.
pub open spec fn resolved_view(r: Result<Vec<SocketAddr>>) -> std::result::Result<
    Seq<SocketView>,
    ErrorView,
> {
    match r {
        Ok(v) => Ok(socket_views(v@)),
        Err(e) => Err(e@),
    }
}

/// Whether a host has to be looked up.
pub fn needs_lookup(host: &str) -> (r: bool)
    ensures
        r == !is_literal(host@),
{
    let v = chars_of(host);
    read_ip(v.as_slice()).is_none()
}

/// The addresses of the wanted families, the first of each.
fn pick(answers: &Vec<SocketAddr>, family: Family) -> (out: Vec<SocketAddr>)
    ensures
        socket_views(out@) == first_of_each(
            socket_views(answers@),
            takes_v4(family),
            takes_v6(family),
        ),
{
    let mut v4 = family != Family::V6;
    let mut v6 = family != Family::V4;
    let ghost all = socket_views(answers@);
    let ghost whole = first_of_each(all, v4, v6);
    let mut out: Vec<SocketAddr> = Vec::new();
    assert(all.skip(0) =~= all);
    assert(socket_views(out@) + first_of_each(all.skip(0), v4, v6) =~= whole);
    for i in 0..answers.len()
        invariant
            all == socket_views(answers@),
            socket_views(out@) + first_of_each(all.skip(i as int), v4, v6) == whole,
    {
        let ghost before = socket_views(out@);
        let ghost rest = all.skip(i as int);
        assert(rest.drop_first() =~= all.skip(i + 1));
        assert(rest[0] == answers@[i as int]@);
        let a = answers[i];
        match a {
            SocketAddr::V4 { .. } => {
                if v4 {
                    out.push(a);
                    assert(socket_views(out@) =~= before + seq![a@]);
                }
                v4 = false;
            },
            SocketAddr::V6 { .. } => {
                if v6 {
                    out.push(a);
                    assert(socket_views(out@) =~= before + seq![a@]);
                }
                v6 = false;
            },
        }
        assert(socket_views(out@) + first_of_each(all.skip(i + 1), v4, v6) =~= whole);
    }
    assert(all.skip(all.len() as int) =~= Seq::<SocketView>::empty());
    assert(socket_views(out@) =~= whole);
    out
}

/// Resolve `host:port` into one or more `SocketAddr`s, filtered by `family`.
/// `answers` is what a lookup of the host gave; it is ignored where the host is
/// numeric.
///
/// Returns up to one IPv4 and one IPv6 candidate (one of each), preferring
/// the first of each family returned by the resolver.
pub fn resolve_host(
    host: &str,
    port: u16,
    family: Family,
    answers: std::result::Result<Vec<SocketAddr>, String>,
) -> (r: Result<Vec<SocketAddr>>)
    ensures
        resolved_view(r) == resolution(host@, port, family, answer_view(answers)),
{
    let v = chars_of(host);
    let mut out: Vec<SocketAddr> = Vec::new();
    if let Some(ip) = read_ipv4(v.as_slice()) {
        if family != Family::V6 {
            out.push(SocketAddr::V4 { ip, port });
        }
        assert(socket_views(out@) =~= literal_addrs(host@, port, family));
    } else if let Some(ip) = read_ipv6(v.as_slice()) {
        if family != Family::V4 {
            out.push(SocketAddr::V6 { ip, port, flowinfo: 0, scope_id: 0 });
        }
        assert(socket_views(out@) =~= literal_addrs(host@, port, family));
    } else {
        match answers {
            Ok(found) => {
                out = pick(&found, family);
            },
            Err(e) => {
                let mut m = concat(host, ": ");
                m.append(e.as_str());
                return Err(Error::Dns(m));
            },
        }
    }
    assert(socket_views(out@).len() == out@.len());
    if out.len() == 0 {
        let label = match family {
            Family::V4 => "IPv4",
            Family::V6 => "IPv6",
            Family::Any => "usable",
        };
        let mut m = concat("no ", label);
        m.append(" addresses for ");
        m.append(host);
        return Err(Error::Dns(m));
    }
    Ok(out)
}

// ---- Laws ----

/// Picking takes answers of the wanted families only, at most one of each.
pub proof fn law_one_of_each(s: Seq<SocketView>, v4: bool, v6: bool)
    ensures
        forall|i: int|
            0 <= i < first_of_each(s, v4, v6).len() ==> {
                let a = #[trigger] first_of_each(s, v4, v6)[i];
                &&& s.contains(a)
                &&& a is V4 ==> v4
                &&& a is V6 ==> v6
            },
        forall|i: int, j: int|
            0 <= i < j < first_of_each(s, v4, v6).len() ==> !(#[trigger] first_of_each(
                s,
                v4,
                v6,
            )[i] is V4 <==> #[trigger] first_of_each(s, v4, v6)[j] is V4),
    decreases s.len(),
{
    if s.len() > 0 {
        let rest = s.drop_first();
        law_one_of_each(rest, false, v6);
        law_one_of_each(rest, v4, false);
        assert forall|a: SocketView| rest.contains(a) implies s.contains(a) by {
            let k = choose|k: int| 0 <= k < rest.len() && rest[k] == a;
            assert(s[k + 1] == a);
        }
        assert(s.contains(s[0]));
        let r = first_of_each(s, v4, v6);
        match s[0] {
            SocketView::V4 { .. } => {
                let t = first_of_each(rest, false, v6);
                if v4 {
                    assert(forall|i: int| 1 <= i < r.len() ==> #[trigger] r[i] == t[i - 1]);
                    assert(forall|i: int| 0 <= i < t.len() ==> !(#[trigger] t[i] is V4));
                }
            },
            SocketView::V6 { .. } => {
                let t = first_of_each(rest, v4, false);
                if v6 {
                    assert(forall|i: int| 1 <= i < r.len() ==> #[trigger] r[i] == t[i - 1]);
                    assert(forall|i: int| 0 <= i < t.len() ==> !(#[trigger] t[i] is V6));
                }
            },
        }
    }
}

/// A wanted family that has an answer is not left out.
pub proof fn law_no_family_lost(s: Seq<SocketView>, v4: bool, v6: bool, i: int)
    requires
        0 <= i < s.len(),
        if s[i] is V4 {
            v4
        } else {
            v6
        },
    ensures
        exists|j: int|
            0 <= j < first_of_each(s, v4, v6).len() && (s[i] is V4 <==> #[trigger] first_of_each(
                s,
                v4,
                v6,
            )[j] is V4),
    decreases s.len(),
{
    let r = first_of_each(s, v4, v6);
    let rest = s.drop_first();
    if s[0] is V4 == s[i] is V4 {
        assert(r[0] == s[0]);
    } else {
        let (w4, w6) = if s[0] is V4 {
            (false, v6)
        } else {
            (v4, false)
        };
        assert(rest[i - 1] == s[i]);
        law_no_family_lost(rest, w4, w6, i - 1);
        let t = first_of_each(rest, w4, w6);
        let j = choose|j: int| 0 <= j < t.len() && (rest[i - 1] is V4 <==> #[trigger] t[j] is V4);
        if s[0] is V4 && v4 || s[0] is V6 && v6 {
            assert(r[j + 1] == t[j]);
        } else {
            assert(r[j] == t[j]);
        }
    }
}

/// What a host resolves to is never nothing, at most two addresses, and of the
/// family asked for.
pub proof fn law_resolution(
    host: Text,
    port: u16,
    family: Family,
    answers: std::result::Result<Seq<SocketView>, Text>,
)
    ensures
        resolution(host, port, family, answers) matches Ok(v) ==> {
            &&& 1 <= v.len() <= 2
            &&& family != Family::Any ==> v.len() == 1
            &&& forall|i: int|
                0 <= i < v.len() ==> if #[trigger] v[i] is V4 {
                    takes_v4(family)
                } else {
                    takes_v6(family)
                }
        },
{
    if !is_literal(host) && answers is Ok {
        let s = answers->Ok_0;
        law_one_of_each(s, takes_v4(family), takes_v6(family));
        let v = first_of_each(s, takes_v4(family), takes_v6(family));
        if v.len() > 2 {
            assert(!(v[0] is V4 <==> v[1] is V4));
            assert(!(v[1] is V4 <==> v[2] is V4));
            assert(!(v[0] is V4 <==> v[2] is V4));
        }
        if family != Family::Any && v.len() == 2 {
            assert(!(v[0] is V4 <==> v[1] is V4));
        }
    }
}

/// An IPv4 address is its own answer, with the port, whatever a lookup would give; for
/// IPv6 alone there is none.
pub proof fn law_ipv4_host(
    ip: Ipv4Addr,
    port: u16,
    family: Family,
    answers: std::result::Result<Seq<SocketView>, Text>,
)
    ensures
        family == Family::Any || family == Family::V4 ==> resolution(
            ip.text(),
            port,
            family,
            answers,
        ) == Ok::<Seq<SocketView>, ErrorView>(seq![SocketView::V4 { ip, port }]),
        family == Family::V6 ==> resolution(ip.text(), port, family, answers) == Err::<
            Seq<SocketView>,
            ErrorView,
        >(ErrorView::Dns("no IPv6 addresses for "@ + ip.text())),
{
    law_ipv4_text(ip.text(), ip);
    lemma_no_addresses(ip.text());
}

/// An IPv6 address is its own answer too; for IPv4 alone there is none.
pub proof fn law_ipv6_host(
    ip: Ipv6Addr,
    port: u16,
    family: Family,
    answers: std::result::Result<Seq<SocketView>, Text>,
)
    ensures
        ({
            let host = IpAddr::V6(ip)@.text();
            &&& family == Family::Any || family == Family::V6 ==> resolution(
                host,
                port,
                family,
                answers,
            ) == Ok::<Seq<SocketView>, ErrorView>(
                seq![
                    SocketView::V6 { segments: ip.segments@, port, flowinfo: 0, scope_id: 0 },
                ],
            )
            &&& family == Family::V4 ==> resolution(host, port, family, answers) == Err::<
                Seq<SocketView>,
                ErrorView,
            >(ErrorView::Dns("no IPv4 addresses for "@ + host))
        }),
{
    law_ip_text(IpAddr::V6(ip));
    lemma_no_addresses(IpAddr::V6(ip)@.text());
}

proof fn lemma_no_addresses(host: Text)
    ensures
        no_addresses(host, Family::V4) == ErrorView::Dns("no IPv4 addresses for "@ + host),
        no_addresses(host, Family::V6) == ErrorView::Dns("no IPv6 addresses for "@ + host),
        no_addresses(host, Family::Any) == ErrorView::Dns("no usable addresses for "@ + host),
{
    reveal_strlit("no ");
    reveal_strlit("IPv4");
    reveal_strlit("IPv6");
    reveal_strlit("usable");
    reveal_strlit(" addresses for ");
    reveal_strlit("no IPv4 addresses for ");
    reveal_strlit("no IPv6 addresses for ");
    reveal_strlit("no usable addresses for ");
    assert("no "@ + "IPv4"@ + " addresses for "@ + host =~= "no IPv4 addresses for "@ + host);
    assert("no "@ + "IPv6"@ + " addresses for "@ + host =~= "no IPv6 addresses for "@ + host);
    assert("no "@ + "usable"@ + " addresses for "@ + host =~= "no usable addresses for "@ + host);
}

/// Nothing is picked where no family is wanted, or none of the wanted one is there.
proof fn lemma_nothing_picked(s: Seq<SocketView>, v4: bool, v6: bool)
    requires
        forall|k: int| 0 <= k < s.len() ==> if #[trigger] s[k] is V4 {
            !v4
        } else {
            !v6
        },
    ensures
        first_of_each(s, v4, v6) == Seq::<SocketView>::empty(),
    decreases s.len(),
{
    if s.len() > 0 {
        let t = s.drop_first();
        assert(s[0] is V4 || s[0] is V6);
        assert forall|k: int| 0 <= k < t.len() implies if #[trigger] t[k] is V4 {
            !v4
        } else {
            !v6
        } by {
            assert(t[k] == s[k + 1]);
        }
        if s[0] is V4 {
            lemma_nothing_picked(t, false, v6);
        } else {
            lemma_nothing_picked(t, v4, false);
        }
    }
}

/// The first of the one family that is wanted is picked.
proof fn lemma_one_picked(s: Seq<SocketView>, v4: bool, i: int)
    requires
        0 <= i < s.len(),
        s[i] is V4 == v4,
        forall|k: int| 0 <= k < i ==> #[trigger] s[k] is V4 != v4,
    ensures
        first_of_each(s, v4, !v4) == seq![s[i]],
    decreases i,
{
    let t = s.drop_first();
    if i == 0 {
        lemma_nothing_picked(t, false, false);
        assert(seq![s[0]] + Seq::<SocketView>::empty() =~= seq![s[0]]);
    } else {
        assert(s[0] is V4 != v4);
        assert forall|k: int| 0 <= k < i - 1 implies #[trigger] t[k] is V4 != v4 by {
            assert(t[k] == s[k + 1]);
        }
        lemma_one_picked(t, v4, i - 1);
    }
}

/// A name gives the first address of the family that is wanted, wherever that stands
/// among the answers.
pub proof fn law_name_of_one_family(host: Text, port: u16, v4: bool, s: Seq<SocketView>, i: int)
    requires
        parse_ip(host) is None,
        0 <= i < s.len(),
        s[i] is V4 == v4,
        forall|k: int| 0 <= k < i ==> #[trigger] s[k] is V4 != v4,
    ensures
        ({
            let family = if v4 {
                Family::V4
            } else {
                Family::V6
            };
            resolution(host, port, family, Ok(s)) == Ok::<Seq<SocketView>, ErrorView>(seq![s[i]])
        }),
{
    lemma_one_picked(s, v4, i);
}

/// A name of any family gives the first answer, and behind it the first of the other
/// family where there is one.
pub proof fn law_name_of_any_family(host: Text, port: u16, s: Seq<SocketView>, i: int)
    requires
        parse_ip(host) is None,
        s.len() > 0,
        0 < i <= s.len(),
        forall|k: int| 0 <= k < i ==> (#[trigger] s[k] is V4 <==> s[0] is V4),
        i < s.len() ==> !(s[i] is V4 <==> s[0] is V4),
    ensures
        resolution(host, port, Family::Any, Ok(s)) == Ok::<Seq<SocketView>, ErrorView>(
            if i < s.len() {
                seq![s[0], s[i]]
            } else {
                seq![s[0]]
            },
        ),
{
    let t = s.drop_first();
    let v4 = !(s[0] is V4);
    assert forall|k: int| 0 <= k < i - 1 implies #[trigger] t[k] is V4 != v4 by {
        assert(t[k] == s[k + 1]);
    }
    assert(s[0] is V4 || s[0] is V6);
    if i < s.len() {
        lemma_one_picked(t, v4, i - 1);
        assert(seq![s[0]] + seq![s[i]] =~= seq![s[0], s[i]]);
    } else {
        lemma_nothing_picked(t, v4, !v4);
        assert(seq![s[0]] + Seq::<SocketView>::empty() =~= seq![s[0]]);
    }
}

/// A name without an address of the family, and a lookup that failed, are reported.
pub proof fn law_name_not_found(
    host: Text,
    port: u16,
    family: Family,
    s: Seq<SocketView>,
    e: Text,
)
    requires
        parse_ip(host) is None,
        forall|k: int| 0 <= k < s.len() ==> if #[trigger] s[k] is V4 {
            family == Family::V6
        } else {
            family == Family::V4
        },
    ensures
        ({
            let got = resolution(host, port, family, Ok(s));
            let dns = |t: Text| Err::<Seq<SocketView>, ErrorView>(ErrorView::Dns(t));
            &&& family == Family::V4 ==> got == dns("no IPv4 addresses for "@ + host)
            &&& family == Family::V6 ==> got == dns("no IPv6 addresses for "@ + host)
            &&& family == Family::Any ==> got == dns("no usable addresses for "@ + host)
            &&& resolution(host, port, family, Err(e)) == dns(host + ": "@ + e)
        }),
{
    lemma_no_addresses(host);
    lemma_nothing_picked(s, family != Family::V6, family != Family::V4);
}

} // verus!

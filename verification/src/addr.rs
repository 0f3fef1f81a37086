//! IP addresses and their text.

use vstd::prelude::*;
use vstd::slice::slice_subrange;
use vstd::string::*;

use crate::number::{
    all_digits, all_hex, decimal, decimal_of, hex_value, hexadecimal, hexadecimal_of, is_digit,
    is_hex, lemma_decimal_value, lemma_hexadecimal_value, lemma_value_decimal, read_digits,
    read_hex, value,
};
use crate::text::{
    find_str, find_text, holds, join, lemma_find, lemma_find_at, lemma_find_text_bounds,
    lemma_join_split, lemma_split_join, pieces, split, split_at_char, Text,
};

verus! {

// ---- IPv4 ----

/// An IPv4 address: its four octets in order.
#[derive(Debug, Clone, Copy, PartialEq, Eq, Structural)]
pub struct Ipv4Addr {
    pub a: u8,
    pub b: u8,
    pub c: u8,
    pub d: u8,
}

/// An octet as an address writes it: up to three digits, no leading zero.
pub open spec fn octet(s: Text) -> Option<u8> {
    if s.len() > 0 && all_digits(s) && (s.len() > 1 ==> s[0] != '0') && value(s) <= 255 {
        Some(value(s) as u8)
    } else {
        None
    }
}

/// The address that a dotted quad writes.
pub open spec fn parse_ipv4(s: Text) -> Option<Ipv4Addr> {
    let p = split(s, '.');
    if p.len() == 4 && octet(p[0]) is Some && octet(p[1]) is Some && octet(p[2]) is Some && octet(
        p[3],
    ) is Some {
        Some(
            Ipv4Addr {
                a: octet(p[0])->0,
                b: octet(p[1])->0,
                c: octet(p[2])->0,
                d: octet(p[3])->0,
            },
        )
    } else {
        None
    }
}

impl Ipv4Addr {
    /// The octets, as text, between the dots.
    pub open spec fn parts(self) -> Seq<Text> {
        seq![
            decimal(self.a as nat),
            decimal(self.b as nat),
            decimal(self.c as nat),
            decimal(self.d as nat),
        ]
    }

    /// The dotted quad.
    pub open spec fn text(self) -> Text {
        join(self.parts(), '.')
    }

    /// The octets in order.
    pub open spec fn bytes(self) -> Seq<u8> {
        seq![self.a, self.b, self.c, self.d]
    }

    /// The address as one number, most significant octet first.
    pub open spec fn number(self) -> nat {
        (self.a as nat) * 0x1000000 + (self.b as nat) * 0x10000 + (self.c as nat) * 0x100 + (
        self.d as nat)
    }

    /// The address of four octets.
    pub fn new(a: u8, b: u8, c: u8, d: u8) -> (r: Ipv4Addr)
        ensures
            r == (Ipv4Addr { a, b, c, d }),
    {
        Ipv4Addr { a, b, c, d }
    }

    /// The octets in order.
    pub fn octets(&self) -> (r: [u8; 4])
        ensures
            r@ == self.bytes(),
    {
        let r = [self.a, self.b, self.c, self.d];
        assert(r@ =~= self.bytes());
        r
    }

    /// The address as one number.
    pub fn to_bits(&self) -> (r: u32)
        ensures
            r == self.number(),
    {
        (self.a as u32) * 0x1000000 + (self.b as u32) * 0x10000 + (self.c as u32) * 0x100 + (
        self.d as u32)
    }

    /// The dotted quad.
    pub fn to_text(&self) -> (r: String)
        ensures
            r@ == self.text(),
    {
        let mut r = decimal_of(self.a as u64);
        r.push('.');
        r.append(decimal_of(self.b as u64).as_str());
        r.push('.');
        r.append(decimal_of(self.c as u64).as_str());
        r.push('.');
        r.append(decimal_of(self.d as u64).as_str());
        proof {
            reveal_with_fuel(join, 4);
            let p = self.parts();
            assert(p.drop_first().drop_first().drop_first().len() == 1);
            assert(r@ =~= self.text());
        }
        r
    }
}

/// A dotted quad is read as the address that it is the text of, and nothing
/// else is read as an address.
pub proof fn law_ipv4_text(s: Text, ip: Ipv4Addr)
    ensures
        parse_ipv4(s) == Some(ip) <==> s == ip.text(),
{
    if s == ip.text() {
        lemma_ipv4_parts(ip);
        lemma_split_join(ip.parts(), '.');
    }
    if parse_ipv4(s) == Some(ip) {
        let p = split(s, '.');
        lemma_join_split(s, '.');
        lemma_value_decimal(p[0]);
        lemma_value_decimal(p[1]);
        lemma_value_decimal(p[2]);
        lemma_value_decimal(p[3]);
        assert(p =~= ip.parts());
    }
}

/// No digit of an address is a separator.
proof fn lemma_ipv4_parts(ip: Ipv4Addr)
    ensures
        forall|k: int| 0 <= k < 4 ==> !holds(#[trigger] ip.parts()[k], '.'),
        forall|k: int| 0 <= k < 4 ==> !holds(#[trigger] ip.parts()[k], ':'),
        octet(ip.parts()[0]) == Some(ip.a),
        octet(ip.parts()[1]) == Some(ip.b),
        octet(ip.parts()[2]) == Some(ip.c),
        octet(ip.parts()[3]) == Some(ip.d),
{
    lemma_decimal_value(ip.a as nat);
    lemma_decimal_value(ip.b as nat);
    lemma_decimal_value(ip.c as nat);
    lemma_decimal_value(ip.d as nat);
    assert forall|k: int| 0 <= k < 4 implies !holds(#[trigger] ip.parts()[k], '.') by {
        lemma_digits_only(ip.parts()[k]);
    }
    assert forall|k: int| 0 <= k < 4 implies !holds(#[trigger] ip.parts()[k], ':') by {
        lemma_digits_only(ip.parts()[k]);
    }
}

proof fn lemma_digits_only(s: Text)
    requires
        all_digits(s),
    ensures
        !holds(s, '.'),
        !holds(s, ':'),
{
    assert forall|j: int| 0 <= j < s.len() implies s[j] != '.' && s[j] != ':' by {
        assert(is_digit(s[j]));
    }
    lemma_find_at(s, '.', s.len() as int);
    lemma_find_at(s, ':', s.len() as int);
}

/// A dotted quad is made of digits and dots.
pub proof fn lemma_quad_chars(ip: Ipv4Addr)
    ensures
        forall|i: int|
            0 <= i < ip.text().len() ==> is_digit(#[trigger] ip.text()[i]) || ip.text()[i] == '.',
{
    lemma_decimal_value(ip.a as nat);
    lemma_decimal_value(ip.b as nat);
    lemma_decimal_value(ip.c as nat);
    lemma_decimal_value(ip.d as nat);
    let p = ip.parts();
    let s = ip.text();
    reveal_with_fuel(join, 4);
    assert(s =~= p[0] + seq!['.'] + (p[1] + seq!['.'] + (p[2] + seq!['.'] + p[3])));
    assert forall|j: int| 0 <= j < s.len() implies is_digit(#[trigger] s[j]) || s[j] == '.' by {
        let n0 = p[0].len() as int;
        let n1 = n0 + 1 + p[1].len();
        let n2 = n1 + 1 + p[2].len();
        if j < n0 {
            assert(s[j] == p[0][j]);
        } else if n0 < j < n1 {
            assert(s[j] == p[1][j - n0 - 1]);
        } else if n1 < j < n2 {
            assert(s[j] == p[2][j - n1 - 1]);
        } else if n2 < j {
            assert(s[j] == p[3][j - n2 - 1]);
        }
    }
}

/// Reads an octet.
fn read_octet(v: &[char]) -> (r: Option<u8>)
    ensures
        r == octet(v@),
{
    if v.len() > 1 && v[0] == '0' {
        return None;
    }
    match read_digits(v, 255) {
        Some(n) => Some(n as u8),
        None => None,
    }
}

/// Reads a dotted quad.
pub fn read_ipv4(v: &[char]) -> (r: Option<Ipv4Addr>)
    ensures
        r == parse_ipv4(v@),
{
    let p = split_at_char(v, '.');
    let ghost parts = pieces(p@);
    if p.len() != 4 {
        return None;
    }
    assert(parts[0] == p@[0]@ && parts[1] == p@[1]@ && parts[2] == p@[2]@ && parts[3] == p@[3]@);
    match (
        read_octet(p[0].as_slice()),
        read_octet(p[1].as_slice()),
        read_octet(p[2].as_slice()),
        read_octet(p[3].as_slice()),
    ) {
        (Some(a), Some(b), Some(c), Some(d)) => Some(Ipv4Addr { a, b, c, d }),
        _ => None,
    }
}

// ---- IPv6 ----

/// An IPv6 address: its eight 16-bit segments in order.
#[derive(Debug, Clone, Copy, PartialEq, Eq)]
pub struct Ipv6Addr {
    pub segments: [u16; 8],
}

/// A segment as an address writes it: one to four hexadecimal digits.
pub open spec fn segment(s: Text) -> Option<u16> {
    if 1 <= s.len() <= 4 && all_hex(s) {
        Some(hex_value(s) as u16)
    } else {
        None
    }
}

/// The two segments that an IPv4 address fills.
pub open spec fn ipv4_segments(ip: Ipv4Addr) -> Seq<u16> {
    seq![
        (ip.a as nat * 0x100 + ip.b as nat) as u16,
        (ip.c as nat * 0x100 + ip.d as nat) as u16,
    ]
}

/// The segments between colons. The last piece may be a dotted quad, where
/// `quad` allows it.
pub open spec fn segments_of(p: Seq<Text>, quad: bool) -> Option<Seq<u16>>
    decreases p.len(),
{
    if p.len() == 0 {
        Some(Seq::empty())
    } else if segment(p[0]) is Some {
        match segments_of(p.drop_first(), quad) {
            Some(rest) => Some(seq![segment(p[0])->0] + rest),
            None => None,
        }
    } else if quad && p.len() == 1 && parse_ipv4(p[0]) is Some {
        Some(ipv4_segments(parse_ipv4(p[0])->0))
    } else {
        None
    }
}

/// The segments on one side of a double colon; there may be none.
pub open spec fn side(s: Text, quad: bool) -> Option<Seq<u16>> {
    if s.len() == 0 {
        Some(Seq::empty())
    } else {
        segments_of(split(s, ':'), quad)
    }
}

/// The double colon that stands for a run of zero segments.
pub open spec fn double_colon() -> Text {
    seq![':', ':']
}

/// A run of zero segments.
pub open spec fn zeros(n: nat) -> Seq<u16> {
    Seq::new(n, |i: int| 0u16)
}

/// The eight segments that an address text writes: all eight of them, or fewer
/// around one double colon, which stands for the one or more that are missing.
/// The last two may be a dotted quad.
pub open spec fn parse_ipv6(s: Text) -> Option<Seq<u16>> {
    let p = find_text(s, double_colon());
    if p < 0 {
        match segments_of(split(s, ':'), true) {
            Some(g) => if g.len() == 8 {
                Some(g)
            } else {
                None
            },
            None => None,
        }
    } else {
        match (side(s.take(p), false), side(s.skip(p + 2), true)) {
            (Some(h), Some(t)) => if h.len() + t.len() <= 7 {
                Some(h + zeros((8 - h.len() - t.len()) as nat) + t)
            } else {
                None
            },
            _ => None,
        }
    }
}

/// What was read of an IPv6 address.
pub open spec fn ipv6_view(r: Option<Ipv6Addr>) -> Option<Seq<u16>> {
    match r {
        Some(ip) => Some(ip.segments@),
        None => None,
    }
}

/// The segments between colons.
fn read_segments(p: &Vec<Vec<char>>, quad: bool) -> (r: Option<Vec<u16>>)
    ensures
        match r {
            Some(g) => segments_of(pieces(p@), quad) == Some(g@),
            None => segments_of(pieces(p@), quad) is None,
        },
{
    let ghost all = pieces(p@);
    let mut g: Vec<u16> = Vec::new();
    let mut i: usize = 0;
    assert(all.skip(0) =~= all);
    assert(forall|t: Seq<u16>| #[trigger] (g@ + t) =~= t);
    while i < p.len()
        invariant
            i <= p@.len(),
            all == pieces(p@),
            segments_of(all.skip(i as int), quad) is None ==> segments_of(all, quad) is None,
            segments_of(all.skip(i as int), quad) matches Some(t) ==> segments_of(all, quad)
                == Some(g@ + t),
        decreases p@.len() - i,
    {
        let ghost rest = all.skip(i as int);
        assert(rest[0] == p@[i as int]@);
        assert(rest.drop_first() =~= all.skip(i + 1));
        match read_hex(p[i].as_slice()) {
            Some(n) => {
                let ghost before = g@;
                g.push(n);
                assert(segment(rest[0]) == Some(n));
                assert(forall|t: Seq<u16>| #[trigger]
                    (before + (seq![n] + t)) =~= before.push(n) + t);
            },
            None => {
                assert(segment(rest[0]) is None);
                if quad && i + 1 == p.len() {
                    match read_ipv4(p[i].as_slice()) {
                        Some(ip) => {
                            let ghost before = g@;
                            g.push((ip.a as u16) * 0x100 + ip.b as u16);
                            g.push((ip.c as u16) * 0x100 + ip.d as u16);
                            assert(g@ =~= before + ipv4_segments(ip));
                            return Some(g);
                        },
                        None => {
                            return None;
                        },
                    }
                }
                return None;
            },
        }
        i = i + 1;
    }
    assert(all.skip(i as int) =~= Seq::empty());
    assert(g@ + Seq::<u16>::empty() =~= g@);
    Some(g)
}

/// The segments on one side of a double colon.
fn read_side(v: &[char], quad: bool) -> (r: Option<Vec<u16>>)
    ensures
        match r {
            Some(g) => side(v@, quad) == Some(g@),
            None => side(v@, quad) is None,
        },
{
    if v.len() == 0 {
        let g: Vec<u16> = Vec::new();
        assert(g@ =~= Seq::empty());
        Some(g)
    } else {
        let p = split_at_char(v, ':');
        read_segments(&p, quad)
    }
}

/// Reads the text of an IPv6 address.
pub fn read_ipv6(v: &[char]) -> (r: Option<Ipv6Addr>)
    ensures
        ipv6_view(r) == parse_ipv6(v@),
{
    proof {
        reveal_strlit("::");
        assert("::"@ =~= double_colon());
        lemma_find_text_bounds(v@, double_colon());
    }
    let mut out: Vec<u16> = Vec::new();
    match find_str(v, "::") {
        None => {
            let p = split_at_char(v, ':');
            match read_segments(&p, true) {
                Some(g) => {
                    out = g;
                },
                None => {
                    return None;
                },
            }
            if out.len() != 8 {
                return None;
            }
        },
        Some(i) => {
            let n = v.len();
            let head = slice_subrange(v, 0, i);
            let tail = slice_subrange(v, i + 2, n);
            assert(head@ =~= v@.take(i as int));
            assert(tail@ =~= v@.skip(i + 2));
            let mut h = match read_side(head, false) {
                Some(h) => h,
                None => {
                    return None;
                },
            };
            let mut t = match read_side(tail, true) {
                Some(t) => t,
                None => {
                    return None;
                },
            };
            if h.len() > 7 || t.len() > 7 || h.len() + t.len() > 7 {
                return None;
            }
            let ghost h0 = h@;
            let ghost t0 = t@;
            let k = 8 - h.len() - t.len();
            for j in 0..k
                invariant
                    h@ == h0 + zeros(j as nat),
            {
                h.push(0);
                assert(h@ =~= h0 + zeros((j + 1) as nat));
            }
            h.append(&mut t);
            assert(h@ =~= h0 + zeros(k as nat) + t0);
            out = h;
        },
    }
    let segments = [out[0], out[1], out[2], out[3], out[4], out[5], out[6], out[7]];
    assert(segments@ =~= out@);
    Some(Ipv6Addr { segments })
}

/// How many segments are zero in a row from place `i` on.
pub open spec fn zero_run(s: Seq<u16>, i: int) -> nat
    decreases s.len() - i,
{
    if i < 0 || i >= s.len() || s[i] != 0 {
        0
    } else {
        1 + zero_run(s, i + 1)
    }
}

/// The first place below `n` from which the most segments are zero.
pub open spec fn longest_run(s: Seq<u16>, n: nat) -> int
    decreases n,
{
    if n <= 1 {
        0
    } else {
        let best = longest_run(s, (n - 1) as nat);
        if zero_run(s, n - 1) > zero_run(s, best) {
            n - 1
        } else {
            best
        }
    }
}

/// The segments, each as hexadecimal text.
pub open spec fn hex_parts(s: Seq<u16>) -> Seq<Text> {
    Seq::new(s.len(), |i: int| hexadecimal(s[i] as nat))
}

/// The address holds an IPv4 address (`::ffff:0:0/96`).
pub open spec fn is_mapped(s: Seq<u16>) -> bool {
    s[0] == 0 && s[1] == 0 && s[2] == 0 && s[3] == 0 && s[4] == 0 && s[5] == 0xffff
}

/// The IPv4 address in the last two segments.
pub open spec fn mapped_ipv4(s: Seq<u16>) -> Ipv4Addr {
    Ipv4Addr {
        a: (s[6] / 0x100) as u8,
        b: (s[6] % 0x100) as u8,
        c: (s[7] / 0x100) as u8,
        d: (s[7] % 0x100) as u8,
    }
}

/// The canonical text of an IPv6 address: lower case, no leading zeros, the
/// first of the longest runs of two or more zero segments as a double colon, a
/// mapped IPv4 address as a dotted quad.
pub open spec fn ipv6_text(s: Seq<u16>) -> Text {
    let b = longest_run(s, 8);
    let k = zero_run(s, b);
    if is_mapped(s) {
        double_colon() + join(seq![hexadecimal(0xffff), mapped_ipv4(s).text()], ':')
    } else if k > 1 {
        join(hex_parts(s.take(b)), ':') + double_colon() + join(hex_parts(s.skip(b + k)), ':')
    } else {
        join(hex_parts(s), ':')
    }
}

/// The sixteen octets of eight segments, most significant first.
pub open spec fn ipv6_bytes(s: Seq<u16>) -> Seq<u8> {
    Seq::new(
        16,
        |i: int|
            if i % 2 == 0 {
                (s[i / 2] / 0x100) as u8
            } else {
                (s[i / 2] % 0x100) as u8
            },
    )
}

/// The text joins its pieces with single colons and has none at its ends.
spec fn single_colons(s: Text) -> bool {
    &&& s.len() > 0
    &&& s[0] != ':'
    &&& s.last() != ':'
    &&& forall|i: int| 0 <= i < s.len() - 1 ==> !(#[trigger] s[i] == ':' && s[i + 1] == ':')
}

proof fn lemma_join_single_colons(parts: Seq<Text>)
    requires
        parts.len() > 0,
        forall|k: int| 0 <= k < parts.len() ==> (#[trigger] parts[k]).len() > 0,
        forall|k: int| 0 <= k < parts.len() ==> !holds(#[trigger] parts[k], ':'),
    ensures
        single_colons(join(parts, ':')),
    decreases parts.len(),
{
    let s = join(parts, ':');
    let h = parts[0];
    assert(!holds(h, ':'));
    lemma_find(h, ':');
    if parts.len() > 1 {
        let tail = parts.drop_first();
        assert forall|k: int| 0 <= k < tail.len() implies (#[trigger] tail[k]).len() > 0 && !holds(
            tail[k],
            ':',
        ) by {
            assert(parts[k + 1].len() > 0);
            assert(!holds(parts[k + 1], ':'));
        }
        lemma_join_single_colons(tail);
        let t = join(tail, ':');
        let n = h.len() as int;
        assert(s.last() == t.last());
        assert(s[0] == h[0]);
        assert forall|i: int| 0 <= i < s.len() - 1 implies !(#[trigger] s[i] == ':' && s[i + 1]
            == ':') by {
            if i < n {
                assert(s[i] == h[i]);
            } else if i == n {
                assert(s[i + 1] == t[0]);
            } else {
                assert(s[i] == t[i - n - 1]);
                assert(s[i + 1] == t[i - n]);
            }
        }
    }
}

/// Where a text first holds `p`.
proof fn lemma_find_text_at(s: Text, p: Text, i: int)
    requires
        0 <= i <= s.len(),
        p.is_prefix_of(s.skip(i)),
        forall|j: int| 0 <= j < i ==> !p.is_prefix_of(#[trigger] s.skip(j)),
    ensures
        find_text(s, p) == i,
    decreases i,
{
    assert(s.skip(0) =~= s);
    if i > 0 {
        assert(!p.is_prefix_of(s.skip(0)));
        let r = s.drop_first();
        assert(r.skip(i - 1) =~= s.skip(i));
        assert forall|j: int| 0 <= j < i - 1 implies !p.is_prefix_of(#[trigger] r.skip(j)) by {
            assert(r.skip(j) =~= s.skip(j + 1));
        }
        lemma_find_text_at(r, p, i - 1);
    }
}

proof fn lemma_find_text_none(s: Text, p: Text)
    requires
        forall|j: int| 0 <= j <= s.len() ==> !p.is_prefix_of(#[trigger] s.skip(j)),
    ensures
        find_text(s, p) < 0,
    decreases s.len(),
{
    assert(s.skip(0) =~= s);
    assert(!p.is_prefix_of(s.skip(0)));
    if s.len() > 0 {
        let r = s.drop_first();
        assert forall|j: int| 0 <= j <= r.len() implies !p.is_prefix_of(#[trigger] r.skip(j)) by {
            assert(r.skip(j) =~= s.skip(j + 1));
        }
        lemma_find_text_none(r, p);
    }
}

proof fn lemma_hex_parts(s: Seq<u16>)
    ensures
        forall|k: int|
            0 <= k < s.len() ==> (#[trigger] hex_parts(s)[k]).len() > 0 && !holds(
                hex_parts(s)[k],
                ':',
            ) && segment(hex_parts(s)[k]) == Some(s[k]),
{
    assert forall|k: int| 0 <= k < s.len() implies (#[trigger] hex_parts(s)[k]).len() > 0 && !holds(
        hex_parts(s)[k],
        ':',
    ) && segment(hex_parts(s)[k]) == Some(s[k]) by {
        lemma_hexadecimal_value(s[k] as nat);
        let t = hex_parts(s)[k];
        assert forall|j: int| 0 <= j < t.len() implies t[j] != ':' by {
            assert(is_hex(t[j]));
        }
        lemma_find_at(t, ':', t.len() as int);
    }
}

proof fn lemma_segments_of_hex_parts(s: Seq<u16>, quad: bool)
    ensures
        segments_of(hex_parts(s), quad) == Some(s),
    decreases s.len(),
{
    if s.len() > 0 {
        lemma_hex_parts(s);
        assert(segment(hex_parts(s)[0]) == Some(s[0]));
        assert(hex_parts(s).drop_first() =~= hex_parts(s.drop_first()));
        lemma_segments_of_hex_parts(s.drop_first(), quad);
        assert(seq![s[0]] + s.drop_first() =~= s);
    } else {
        assert(hex_parts(s) =~= Seq::empty());
        assert(s =~= Seq::empty());
    }
}

proof fn lemma_side_of_hex_parts(s: Seq<u16>, quad: bool)
    ensures
        side(join(hex_parts(s), ':'), quad) == Some(s),
        s.len() > 0 ==> single_colons(join(hex_parts(s), ':')),
        s.len() == 0 ==> join(hex_parts(s), ':').len() == 0,
{
    lemma_hex_parts(s);
    lemma_segments_of_hex_parts(s, quad);
    if s.len() > 0 {
        assert forall|k: int| 0 <= k < hex_parts(s).len() implies !holds(
            #[trigger] hex_parts(s)[k],
            ':',
        ) by {}
        lemma_join_single_colons(hex_parts(s));
        lemma_split_join(hex_parts(s), ':');
    } else {
        assert(s =~= Seq::empty());
    }
}

proof fn lemma_zero_run(s: Seq<u16>, i: int)
    requires
        0 <= i <= s.len(),
    ensures
        i + zero_run(s, i) <= s.len(),
        forall|j: int| i <= j < i + zero_run(s, i) ==> s[j] == 0,
    decreases s.len() - i,
{
    if i < s.len() && s[i] == 0 {
        lemma_zero_run(s, i + 1);
    }
}

proof fn lemma_longest_run(s: Seq<u16>, n: nat)
    requires
        n <= s.len(),
    ensures
        0 <= longest_run(s, n),
        n > 0 ==> longest_run(s, n) < n,
        n == 0 ==> longest_run(s, n) == 0,
    decreases n,
{
    if n > 1 {
        lemma_longest_run(s, (n - 1) as nat);
    }
}

/// The text of an IPv6 address is read as that address.
pub proof fn law_ipv6_text(s: Seq<u16>)
    requires
        s.len() == 8,
    ensures
        parse_ipv6(ipv6_text(s)) == Some(s),
{
    if is_mapped(s) {
        lemma_mapped_text(s);
    } else if zero_run(s, longest_run(s, 8)) > 1 {
        lemma_shortened_text(s);
    } else {
        lemma_full_text(s);
    }
}

proof fn lemma_mapped_text(s: Seq<u16>)
    requires
        s.len() == 8,
        is_mapped(s),
    ensures
        parse_ipv6(ipv6_text(s)) == Some(s),
{
    let t = ipv6_text(s);
    let dc = double_colon();
    let ip = mapped_ipv4(s);
    let hp = hexadecimal(0xffff);
    let parts = seq![hp, ip.text()];
    lemma_hexadecimal_value(0xffff);
    lemma_hex_parts(seq![0xffffu16]);
    assert(hex_parts(seq![0xffffu16])[0] == hp);
    lemma_quad_text(ip);
    law_ipv4_text(ip.text(), ip);
    assert forall|i: int| 0 <= i < parts.len() implies !holds(#[trigger] parts[i], ':') by {}
    lemma_split_join(parts, ':');
    assert(t.skip(0) =~= t);
    assert(dc =~= t.subrange(0, 2));
    lemma_find_text_at(t, dc, 0);
    assert(t.take(0) =~= Seq::empty());
    assert(t.skip(2) =~= join(parts, ':'));
    assert(parts.drop_first() =~= seq![ip.text()]);
    let got = seq![0xffffu16] + ipv4_segments(ip);
    assert(segments_of(seq![ip.text()], true) == Some(ipv4_segments(ip)));
    assert(segments_of(parts, true) == Some(got));
    assert(Seq::<u16>::empty() + zeros(5) + got =~= s);
}

proof fn lemma_shortened_text(s: Seq<u16>)
    requires
        s.len() == 8,
        !is_mapped(s),
        zero_run(s, longest_run(s, 8)) > 1,
    ensures
        parse_ipv6(ipv6_text(s)) == Some(s),
{
    let t = ipv6_text(s);
    let dc = double_colon();
    let b = longest_run(s, 8);
    let k = zero_run(s, b);
    lemma_longest_run(s, 8);
    lemma_zero_run(s, b);
    let head = s.take(b);
    let tail = s.skip(b + k);
    let h = join(hex_parts(head), ':');
    let u = join(hex_parts(tail), ':');
    lemma_side_of_hex_parts(head, false);
    lemma_side_of_hex_parts(tail, true);
    let n = h.len() as int;
    assert(dc =~= t.skip(n).subrange(0, 2));
    assert forall|j: int| 0 <= j < n implies !dc.is_prefix_of(#[trigger] t.skip(j)) by {
        if dc.is_prefix_of(t.skip(j)) {
            let w = t.skip(j).subrange(0, 2);
            assert(w[0] == ':' && w[1] == ':');
            assert(t[j] == w[0] && t[j + 1] == w[1]);
            assert(t[j] == h[j]);
            if j + 1 < n {
                assert(t[j + 1] == h[j + 1]);
                assert(!(h[j] == ':' && h[j + 1] == ':'));
            } else {
                assert(h[j] == h.last());
            }
        }
    }
    lemma_find_text_at(t, dc, n);
    assert(t.take(n) =~= h);
    assert(t.skip(n + 2) =~= u);
    assert(head + zeros(k) + tail =~= s);
}

proof fn lemma_full_text(s: Seq<u16>)
    requires
        s.len() == 8,
        !is_mapped(s),
        zero_run(s, longest_run(s, 8)) <= 1,
    ensures
        parse_ipv6(ipv6_text(s)) == Some(s),
{
    let t = ipv6_text(s);
    let dc = double_colon();
    lemma_side_of_hex_parts(s, true);
    assert forall|j: int| 0 <= j <= t.len() implies !dc.is_prefix_of(#[trigger] t.skip(j)) by {
        if dc.is_prefix_of(t.skip(j)) {
            let w = t.skip(j).subrange(0, 2);
            assert(w[0] == ':' && w[1] == ':');
            assert(t[j] == w[0] && t[j + 1] == w[1]);
            assert(!(t[j] == ':' && t[j + 1] == ':'));
        }
    }
    lemma_find_text_none(t, dc);
}

/// A dotted quad holds no colon and is longer than a segment.
proof fn lemma_quad_text(ip: Ipv4Addr)
    ensures
        !holds(ip.text(), ':'),
        ip.text().len() > 4,
{
    lemma_quad_chars(ip);
    lemma_decimal_value(ip.a as nat);
    lemma_decimal_value(ip.b as nat);
    lemma_decimal_value(ip.c as nat);
    lemma_decimal_value(ip.d as nat);
    let p = ip.parts();
    let s = ip.text();
    reveal_with_fuel(join, 4);
    assert(s =~= p[0] + seq!['.'] + (p[1] + seq!['.'] + (p[2] + seq!['.'] + p[3])));
    assert forall|j: int| 0 <= j < s.len() implies s[j] != ':' by {
        assert(is_digit(s[j]) || s[j] == '.');
    }
    lemma_find_at(s, ':', s.len() as int);
}

/// Segments in hexadecimal with colons between them.
fn join_segments(s: &[u16]) -> (r: String)
    ensures
        r@ == join(hex_parts(s@), ':'),
    decreases s@.len(),
{
    if s.len() == 0 {
        let r = String::new();
        assert(r@ =~= join(hex_parts(s@), ':'));
        r
    } else if s.len() == 1 {
        hexadecimal_of(s[0])
    } else {
        let n = s.len();
        let rest = slice_subrange(s, 1, n);
        let mut r = hexadecimal_of(s[0]);
        r.push(':');
        r.append(join_segments(rest).as_str());
        assert(hex_parts(s@).drop_first() =~= hex_parts(rest@));
        assert(r@ =~= join(hex_parts(s@), ':'));
        r
    }
}

impl Ipv6Addr {
    /// The address of eight segments.
    pub fn new(segments: [u16; 8]) -> (r: Ipv6Addr)
        ensures
            r.segments@ == segments@,
    {
        Ipv6Addr { segments }
    }

    /// How many segments are zero in a row from place `i` on.
    fn zeros_from(&self, i: usize) -> (n: usize)
        requires
            i <= 8,
        ensures
            n == zero_run(self.segments@, i as int),
            n <= 8 - i,
        decreases 8 - i,
    {
        if i >= 8 || self.segments[i] != 0 {
            0
        } else {
            1 + self.zeros_from(i + 1)
        }
    }

    /// The sixteen octets in order.
    pub fn octets(&self) -> (r: [u8; 16])
        ensures
            r@ == ipv6_bytes(self.segments@),
    {
        let s = self.segments;
        let r: [u8; 16] = [
            (s[0] / 0x100) as u8,
            (s[0] % 0x100) as u8,
            (s[1] / 0x100) as u8,
            (s[1] % 0x100) as u8,
            (s[2] / 0x100) as u8,
            (s[2] % 0x100) as u8,
            (s[3] / 0x100) as u8,
            (s[3] % 0x100) as u8,
            (s[4] / 0x100) as u8,
            (s[4] % 0x100) as u8,
            (s[5] / 0x100) as u8,
            (s[5] % 0x100) as u8,
            (s[6] / 0x100) as u8,
            (s[6] % 0x100) as u8,
            (s[7] / 0x100) as u8,
            (s[7] % 0x100) as u8,
        ];
        assert(r@ =~= ipv6_bytes(self.segments@));
        r
    }

    /// The canonical text.
    pub fn to_text(&self) -> (r: String)
        ensures
            r@ == ipv6_text(self.segments@),
    {
        let s = self.segments;
        proof {
            reveal_strlit("::");
            assert("::"@ =~= double_colon());
        }
        if s[0] == 0 && s[1] == 0 && s[2] == 0 && s[3] == 0 && s[4] == 0 && s[5] == 0xffff {
            let ip = Ipv4Addr {
                a: (s[6] / 0x100) as u8,
                b: (s[6] % 0x100) as u8,
                c: (s[7] / 0x100) as u8,
                d: (s[7] % 0x100) as u8,
            };
            let mut r = "::".to_owned();
            r.append(hexadecimal_of(0xffff).as_str());
            r.push(':');
            r.append(ip.to_text().as_str());
            proof {
                reveal_with_fuel(join, 2);
                let parts = seq![hexadecimal(0xffff), ip.text()];
                assert(parts.drop_first() =~= seq![ip.text()]);
                assert(r@ =~= ipv6_text(self.segments@));
            }
            return r;
        }
        let mut best: usize = 0;
        let mut best_run: usize = self.zeros_from(0);
        for i in 1usize..8
            invariant
                best < i,
                best == longest_run(self.segments@, i as nat),
                best_run == zero_run(self.segments@, best as int),
                best_run <= 8 - best,
        {
            let n = self.zeros_from(i);
            if n > best_run {
                best = i;
                best_run = n;
            }
        }
        if best_run > 1 {
            let all = s.as_slice();
            let head = slice_subrange(all, 0, best);
            let tail = slice_subrange(all, best + best_run, 8);
            assert(head@ =~= self.segments@.take(best as int));
            assert(tail@ =~= self.segments@.skip(best + best_run));
            let mut r = join_segments(head);
            r.append("::");
            r.append(join_segments(tail).as_str());
            r
        } else {
            join_segments(s.as_slice())
        }
    }
}

// ---- Either ----

/// An IP address of either family.
#[derive(Debug, Clone, Copy, PartialEq, Eq)]
pub enum IpAddr {
    V4(Ipv4Addr),
    V6(Ipv6Addr),
}

/// What an IP address is.
pub enum IpView {
    V4(Ipv4Addr),
    V6(Seq<u16>),
}

impl View for IpAddr {
    type V = IpView;

    open spec fn view(&self) -> IpView {
        match self {
            IpAddr::V4(ip) => IpView::V4(*ip),
            IpAddr::V6(ip) => IpView::V6(ip.segments@),
        }
    }
}

impl IpView {
    /// The text of the address.
    pub open spec fn text(self) -> Text {
        match self {
            IpView::V4(ip) => ip.text(),
            IpView::V6(s) => ipv6_text(s),
        }
    }
}

/// The address that a text writes, IPv4 before IPv6.
pub open spec fn parse_ip(s: Text) -> Option<IpView> {
    if parse_ipv4(s) is Some {
        Some(IpView::V4(parse_ipv4(s)->0))
    } else if parse_ipv6(s) is Some {
        Some(IpView::V6(parse_ipv6(s)->0))
    } else {
        None
    }
}

impl IpAddr {
    /// The text of the address.
    pub fn to_text(&self) -> (r: String)
        ensures
            r@ == self@.text(),
    {
        match self {
            IpAddr::V4(ip) => ip.to_text(),
            IpAddr::V6(ip) => ip.to_text(),
        }
    }
}

/// Reads an address of either family.
pub fn read_ip(v: &[char]) -> (r: Option<IpAddr>)
    ensures
        match r {
            Some(ip) => parse_ip(v@) == Some(ip@),
            None => parse_ip(v@) is None,
        },
{
    match read_ipv4(v) {
        Some(ip) => Some(IpAddr::V4(ip)),
        None => match read_ipv6(v) {
            Some(ip) => Some(IpAddr::V6(ip)),
            None => None,
        },
    }
}

/// The text of an address is read as that address.
pub proof fn law_ip_text(ip: IpAddr)
    ensures
        parse_ip(ip@.text()) == Some(ip@),
{
    match ip {
        IpAddr::V4(a) => {
            law_ipv4_text(a.text(), a);
        },
        IpAddr::V6(a) => {
            let s = a.segments@;
            law_ipv6_text(s);
            let t = ipv6_text(s);
            if parse_ipv4(t) is Some {
                let q = parse_ipv4(t)->0;
                law_ipv4_text(t, q);
                lemma_quad_text(q);
                lemma_ipv6_text_has_colon(s);
            }
        },
    }
}

/// The text of an IPv6 address holds a colon.
proof fn lemma_ipv6_text_has_colon(s: Seq<u16>)
    requires
        s.len() == 8,
    ensures
        holds(ipv6_text(s), ':'),
{
    let t = ipv6_text(s);
    lemma_find(t, ':');
    let b = longest_run(s, 8);
    let k = zero_run(s, b);
    if is_mapped(s) {
        assert(t[0] == ':');
    } else if k > 1 {
        let n = join(hex_parts(s.take(b)), ':').len() as int;
        assert(t[n] == ':');
    } else {
        let n = hex_parts(s)[0].len() as int;
        assert(t[n] == ':');
    }
}

// ---- Ports ----

/// A 16-bit number as two octets, most significant first.
pub open spec fn be16(n: u16) -> Seq<u8> {
    seq![(n / 0x100) as u8, (n % 0x100) as u8]
}

/// Appends a 16-bit number, most significant octet first.
pub fn push_be16(v: &mut Vec<u8>, n: u16)
    ensures
        final(v)@ == old(v)@ + be16(n),
{
    v.push((n / 0x100) as u8);
    v.push((n % 0x100) as u8);
    assert(v@ =~= old(v)@ + be16(n));
}

// ---- Laws ----

/// An IPv4 address: its text, its octets and its number all have the octets in the
/// same order, the first being the most significant.
pub proof fn law_ipv4_forms(a: u8, b: u8, c: u8, d: u8)
    ensures
        ({
            let ip = Ipv4Addr { a, b, c, d };
            let dot = seq!['.'];
            &&& ip.text() == decimal(a as nat) + dot + decimal(b as nat) + dot + decimal(c as nat)
                + dot + decimal(d as nat)
            &&& ip.bytes() == seq![a, b, c, d]
            &&& ip.number() == ((a * 256 + b) * 256 + c) * 256 + d
        }),
{
    let ip = Ipv4Addr { a, b, c, d };
    let dot = seq!['.'];
    reveal_with_fuel(join, 4);
    let p = ip.parts();
    assert(p.drop_first().drop_first().drop_first().len() == 1);
    assert(ip.text() =~= decimal(a as nat) + dot + decimal(b as nat) + dot + decimal(c as nat) + dot
        + decimal(d as nat));
}

/// A port is two octets, the more significant first.
pub proof fn law_port_octets(n: u16)
    ensures
        be16(n).len() == 2,
        be16(n)[0] * 0x100 + be16(n)[1] == n,
{
}

/// The octets of an IPv6 address are those of its segments in order, the more
/// significant first.
pub proof fn law_ipv6_octets(s: Seq<u16>, i: int)
    requires
        s.len() == 8,
        0 <= i < 8,
    ensures
        ipv6_bytes(s).len() == 16,
        ipv6_bytes(s)[2 * i] * 0x100 + ipv6_bytes(s)[2 * i + 1] == s[i],
{
    assert(2 * i / 2 == i && 2 * i % 2 == 0 && (2 * i + 1) / 2 == i && (2 * i + 1) % 2 == 1);
}

/// A segment as one may write it: one to four hexadecimal digits of either case.
pub open spec fn is_segment(t: Text) -> bool {
    &&& 1 <= t.len() <= 4
    &&& forall|i: int|
        0 <= i < t.len() ==> ('0' <= #[trigger] t[i] <= '9' || 'a' <= t[i] <= 'f' || 'A' <= t[i]
            <= 'F')
}

/// What segments count.
pub open spec fn segment_values(p: Seq<Text>) -> Seq<u16> {
    Seq::new(p.len(), |i: int| hex_value(p[i]) as u16)
}

/// Segments are read one by one.
proof fn lemma_segments_read(p: Seq<Text>, quad: bool)
    requires
        forall|k: int| 0 <= k < p.len() ==> is_segment(#[trigger] p[k]),
    ensures
        segments_of(p, quad) == Some(segment_values(p)),
        forall|k: int| 0 <= k < p.len() ==> (#[trigger] p[k]).len() > 0 && !holds(p[k], ':'),
    decreases p.len(),
{
    assert forall|k: int| 0 <= k < p.len() implies (#[trigger] p[k]).len() > 0 && !holds(
        p[k],
        ':',
    ) by {
        let t = p[k];
        assert(is_segment(t));
        lemma_find_at(t, ':', t.len() as int);
    }
    if p.len() > 0 {
        let r = p.drop_first();
        assert(is_segment(p[0]));
        assert forall|k: int| 0 <= k < r.len() implies is_segment(#[trigger] r[k]) by {
            assert(r[k] == p[k + 1]);
        }
        lemma_segments_read(r, quad);
        assert(all_hex(p[0]));
        assert(seq![segment(p[0])->0] + segment_values(r) =~= segment_values(p));
    } else {
        assert(segment_values(p) =~= Seq::<u16>::empty());
    }
}

/// Eight segments between colons are an address.
pub proof fn law_ipv6_full(p: Seq<Text>)
    requires
        p.len() == 8,
        forall|k: int| 0 <= k < 8 ==> is_segment(#[trigger] p[k]),
    ensures
        parse_ipv6(join(p, ':')) == Some(segment_values(p)),
{
    lemma_segments_read(p, true);
    lemma_split_join(p, ':');
    lemma_join_single_colons(p);
    lemma_no_double_colon(join(p, ':'));
}

/// Single colons are no double colon.
proof fn lemma_no_double_colon(s: Text)
    requires
        single_colons(s),
    ensures
        find_text(s, double_colon()) < 0,
{
    assert forall|j: int| 0 <= j <= s.len() implies !double_colon().is_prefix_of(
        #[trigger] s.skip(j),
    ) by {
        let t = s.skip(j);
        if double_colon().is_prefix_of(t) {
            assert(t.subrange(0, 2)[0] == ':' && t.subrange(0, 2)[1] == ':');
            assert(s[j] == ':' && s[j + 1] == ':');
        }
    }
    lemma_find_text_none(s, double_colon());
}

/// Segments on both sides of a double colon are an address: the missing ones are zero.
/// There may be none on a side, and at most seven in all.
pub proof fn law_ipv6_compressed(h: Seq<Text>, t: Seq<Text>)
    requires
        h.len() + t.len() <= 7,
        forall|k: int| 0 <= k < h.len() ==> is_segment(#[trigger] h[k]),
        forall|k: int| 0 <= k < t.len() ==> is_segment(#[trigger] t[k]),
    ensures
        parse_ipv6(join(h, ':') + seq![':', ':'] + join(t, ':')) == Some(
            segment_values(h) + Seq::new((8 - h.len() - t.len()) as nat, |i: int| 0u16)
                + segment_values(t),
        ),
{
    let a = join(h, ':');
    let b = join(t, ':');
    let s = a + seq![':', ':'] + b;
    lemma_segments_read(h, false);
    lemma_segments_read(t, true);
    let n = a.len() as int;
    if h.len() > 0 {
        lemma_split_join(h, ':');
        lemma_join_single_colons(h);
    } else {
        assert(segment_values(h) =~= Seq::<u16>::empty());
    }
    if t.len() > 0 {
        lemma_split_join(t, ':');
        lemma_join_single_colons(t);
    } else {
        assert(segment_values(t) =~= Seq::<u16>::empty());
    }
    assert(s.skip(n).subrange(0, 2) =~= double_colon());
    assert forall|j: int| 0 <= j < n implies !double_colon().is_prefix_of(#[trigger] s.skip(j)) by {
        let r = s.skip(j);
        if double_colon().is_prefix_of(r) {
            assert(r.subrange(0, 2)[0] == ':' && r.subrange(0, 2)[1] == ':');
            assert(s[j] == a[j] && s[j] == ':' && s[j + 1] == ':');
            if j + 1 < n {
                assert(s[j + 1] == a[j + 1]);
            } else {
                assert(a.last() == ':');
            }
        }
    }
    lemma_find_text_at(s, double_colon(), n);
    assert(s.take(n) =~= a);
    assert(s.skip(n + 2) =~= b);
    let z = (8 - h.len() - t.len()) as nat;
    assert(zeros(z) =~= Seq::new(z, |i: int| 0u16));
}

/// A dotted quad is an IPv4 address where either family is read.
pub proof fn law_quad_is_ipv4(ip: Ipv4Addr)
    ensures
        parse_ip(ip.text()) == Some(IpView::V4(ip)),
{
    law_ipv4_text(ip.text(), ip);
}

/// The last two segments may be written as a dotted quad, behind six segments or
/// behind a double colon.
pub proof fn law_ipv6_with_quad(p: Seq<Text>, ip: Ipv4Addr)
    requires
        p.len() == 6,
        forall|k: int| 0 <= k < 6 ==> is_segment(#[trigger] p[k]),
    ensures
        parse_ipv6(join(p.push(ip.text()), ':')) matches Some(s) && s.len() == 8 && s.take(6)
            == segment_values(p) && s[6] == ip.a * 0x100 + ip.b && s[7] == ip.c * 0x100 + ip.d,
{
    let q = p.push(ip.text());
    law_ipv4_text(ip.text(), ip);
    lemma_quad_text(ip);
    lemma_segments_read(p, true);
    lemma_quad_behind(p, ip);
    assert forall|k: int| 0 <= k < q.len() implies (#[trigger] q[k]).len() > 0 && !holds(
        q[k],
        ':',
    ) by {
        if k < 6 {
            assert(q[k] == p[k]);
        }
    }
    lemma_split_join(q, ':');
    lemma_join_single_colons(q);
    lemma_no_double_colon(join(q, ':'));
    assert((segment_values(p) + ipv4_segments(ip)).take(6) =~= segment_values(p));
}

proof fn lemma_quad_behind(p: Seq<Text>, ip: Ipv4Addr)
    requires
        forall|k: int| 0 <= k < p.len() ==> is_segment(#[trigger] p[k]),
        parse_ipv4(ip.text()) == Some(ip),
        segment(ip.text()) is None,
    ensures
        segments_of(p.push(ip.text()), true) == Some(segment_values(p) + ipv4_segments(ip)),
    decreases p.len(),
{
    let q = p.push(ip.text());
    if p.len() == 0 {
        assert(q[0] == ip.text());
        assert(segment_values(p) + ipv4_segments(ip) =~= ipv4_segments(ip));
    } else {
        let r = p.drop_first();
        assert(is_segment(p[0]));
        assert(all_hex(p[0]));
        assert forall|k: int| 0 <= k < r.len() implies is_segment(#[trigger] r[k]) by {
            assert(r[k] == p[k + 1]);
        }
        lemma_quad_behind(r, ip);
        assert(q.drop_first() =~= r.push(ip.text()));
        assert(seq![segment(p[0])->0] + (segment_values(r) + ipv4_segments(ip)) =~= segment_values(
            p,
        ) + ipv4_segments(ip));
    }
}

/// The text of an IPv6 address is canonical: the first of its longest runs of two or
/// more zero segments is a double colon, and an address that has none is written in
/// full; an address that holds an IPv4 address shows that.
pub proof fn law_ipv6_canonical(s: Seq<u16>, b: int, k: int)
    requires
        s.len() == 8,
        !(s.take(6) =~= seq![0u16, 0u16, 0u16, 0u16, 0u16, 0xffffu16]),
        0 <= b,
        0 <= k,
        b + k <= 8,
        forall|i: int| b <= i < b + k ==> #[trigger] s[i] == 0,
        forall|i: int| 0 <= i < 8 ==> #[trigger] zero_run(s, i) <= k,
        forall|i: int| 0 <= i < b ==> #[trigger] zero_run(s, i) < k,
    ensures
        k > 1 ==> ipv6_text(s) == join(hex_parts(s.take(b)), ':') + seq![':', ':'] + join(
            hex_parts(s.skip(b + k)),
            ':',
        ),
        k <= 1 ==> ipv6_text(s) == join(hex_parts(s), ':'),
{
    assert(!is_mapped(s)) by {
        if is_mapped(s) {
            assert(s.take(6) =~= seq![0u16, 0u16, 0u16, 0u16, 0u16, 0xffffu16]);
        }
    }
    lemma_longest(s, 8);
    let l = longest_run(s, 8);
    if k > 1 {
        lemma_zero_run_covers(s, b, k);
        assert(zero_run(s, b) == k);
        assert(zero_run(s, l) >= k);
        assert(l == b);
    } else {
        assert(zero_run(s, l) <= 1);
    }
}

/// The run that is found is the longest, and the first such.
proof fn lemma_longest(s: Seq<u16>, n: nat)
    requires
        n >= 1,
    ensures
        0 <= longest_run(s, n) < n,
        forall|i: int| 0 <= i < n ==> #[trigger] zero_run(s, i) <= zero_run(s, longest_run(s, n)),
        forall|i: int|
            0 <= i < longest_run(s, n) ==> #[trigger] zero_run(s, i) < zero_run(
                s,
                longest_run(s, n),
            ),
    decreases n,
{
    if n > 1 {
        lemma_longest(s, (n - 1) as nat);
    }
}

proof fn lemma_zero_run_covers(s: Seq<u16>, b: int, k: int)
    requires
        0 <= b,
        0 <= k,
        b + k <= s.len(),
        forall|i: int| b <= i < b + k ==> #[trigger] s[i] == 0,
    ensures
        zero_run(s, b) >= k,
    decreases k,
{
    if k > 0 {
        assert(s[b] == 0);
        lemma_zero_run_covers(s, b + 1, k - 1);
    }
}

/// A run of zeros has only zeros in it and ends before something else.
pub proof fn law_zero_run(s: Seq<u16>, i: int)
    requires
        0 <= i < s.len(),
    ensures
        i + zero_run(s, i) <= s.len(),
        forall|j: int| i <= j < i + zero_run(s, i) ==> #[trigger] s[j] == 0,
        i + zero_run(s, i) < s.len() ==> s[i + zero_run(s, i)] != 0,
    decreases s.len() - i,
{
    reveal_with_fuel(zero_run, 2);
    if s[i] == 0 && i + 1 < s.len() {
        law_zero_run(s, i + 1);
    }
}

/// Text with a character that is neither a hexadecimal digit nor a colon or a dot is no
/// address, and neither is text without a colon that is no dotted quad.
pub proof fn law_no_address(s: Text, i: int)
    requires
        (0 <= i < s.len() && !is_hex(s[i]) && s[i] != ':' && s[i] != '.') || !holds(s, ':'),
    ensures
        parse_ipv6(s) is None,
        parse_ip(s) == (match parse_ipv4(s) {
            Some(ip) => Some(IpView::V4(ip)),
            None => None,
        }),
{
    let p = find_text(s, double_colon());
    lemma_find(s, ':');
    if parse_ipv6(s) is Some {
        if p < 0 {
            lemma_join_split(s, ':');
            lemma_segment_chars(split(s, ':'), true);
            if !holds(s, ':') {
                assert(split(s, ':') =~= seq![s]);
                assert(seq![s].drop_first() =~= Seq::<Text>::empty());
                reveal_with_fuel(segments_of, 2);
                assert(segments_of(seq![s], true)->0.len() <= 2);
            }
        } else {
            lemma_find_text_place(s, double_colon());
            assert(s.subrange(p, p + 2)[0] == ':');
            assert(s[p] == ':');
            let h = s.take(p);
            let t = s.skip(p + 2);
            lemma_side_chars(h, false);
            lemma_side_chars(t, true);
            assert(s.subrange(p, p + 2)[1] == ':');
            if 0 <= i < s.len() {
                if i < p {
                    assert(h[i] == s[i]);
                } else if i >= p + 2 {
                    assert(t[i - p - 2] == s[i]);
                } else {
                    assert(s.subrange(p, p + 2)[i - p] == s[i]);
                }
            }
        }
    }
}

proof fn lemma_find_text_place(s: Text, p: Text)
    requires
        find_text(s, p) >= 0,
    ensures
        find_text(s, p) + p.len() <= s.len(),
        s.subrange(find_text(s, p), find_text(s, p) + p.len()) == p,
    decreases s.len(),
{
    if !p.is_prefix_of(s) {
        let t = s.drop_first();
        lemma_find_text_place(t, p);
        let k = find_text(t, p);
        assert(s.subrange(k + 1, k + 1 + p.len()) =~= t.subrange(k, k + p.len()));
    }
}

proof fn lemma_side_chars(s: Text, quad: bool)
    requires
        side(s, quad) is Some,
    ensures
        forall|i: int|
            0 <= i < s.len() ==> is_hex(#[trigger] s[i]) || s[i] == ':' || s[i] == '.',
{
    if s.len() > 0 {
        lemma_join_split(s, ':');
        lemma_segment_chars(split(s, ':'), quad);
    }
}

proof fn lemma_segment_chars(p: Seq<Text>, quad: bool)
    requires
        segments_of(p, quad) is Some,
    ensures
        forall|i: int|
            0 <= i < join(p, ':').len() ==> is_hex(#[trigger] join(p, ':')[i]) || join(p, ':')[i]
                == ':' || join(p, ':')[i] == '.',
    decreases p.len(),
{
    let s = join(p, ':');
    if p.len() > 0 {
        let r = p.drop_first();
        let t = join(r, ':');
        assert forall|i: int| 0 <= i < p[0].len() implies is_hex(#[trigger] p[0][i]) || p[0][i]
            == '.' by {
            if segment(p[0]) is None {
                let ip = parse_ipv4(p[0])->0;
                law_ipv4_text(p[0], ip);
                lemma_quad_chars(ip);
                assert(is_digit(p[0][i]) || p[0][i] == '.');
            }
        }
        if segment(p[0]) is Some {
            lemma_segment_chars(r, quad);
        } else {
            assert(p.len() == 1);
        }
        assert forall|i: int| 0 <= i < s.len() implies is_hex(#[trigger] s[i]) || s[i] == ':'
            || s[i] == '.' by {
            if p.len() == 1 || i < p[0].len() {
                assert(s[i] == p[0][i]);
            } else if i > p[0].len() {
                assert(s[i] == t[i - p[0].len() - 1]);
            }
        }
    }
}

} // verus!

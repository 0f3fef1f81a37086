//! Numbers as text.

pub mod laws;

use vstd::prelude::*;
use vstd::slice::slice_subrange;
use vstd::string::*;

use crate::text::{concat, Text};

verus! {

// ---- Decimal digits ----

/// An ASCII decimal digit.
pub open spec fn is_digit(c: char) -> bool {
    '0' <= c <= '9'
}

/// Nothing but decimal digits.
pub open spec fn all_digits(s: Text) -> bool {
    forall|i: int| 0 <= i < s.len() ==> is_digit(#[trigger] s[i])
}

/// What a text of decimal digits counts.
pub open spec fn value(s: Text) -> nat
    decreases s.len(),
{
    if s.len() == 0 {
        0
    } else {
        10 * value(s.drop_last()) + (s.last() as nat - '0' as nat) as nat
    }
}

/// The digits of a number without leading zeros.
pub open spec fn decimal(n: nat) -> Text
    decreases n,
{
    if n < 10 {
        seq![(('0' as u8) + n) as u8 as char]
    } else {
        decimal(n / 10).push((('0' as u8) + n % 10) as u8 as char)
    }
}

/// `s` without one plus sign at its start.
pub open spec fn unsigned_part(s: Text) -> Text {
    if s.len() > 0 && s[0] == '+' {
        s.drop_first()
    } else {
        s
    }
}

/// An unsigned number up to `max` in decimal: at least one digit, a plus sign
/// before it at most, leading zeros as one likes.
pub open spec fn parse_number(s: Text, max: nat) -> Option<nat> {
    let d = unsigned_part(s);
    if d.len() > 0 && all_digits(d) && value(d) <= max {
        Some(value(d))
    } else {
        None
    }
}

/// Reading back the digits of a number gives the number.
pub proof fn lemma_decimal_value(n: nat)
    ensures
        decimal(n).len() > 0,
        all_digits(decimal(n)),
        value(decimal(n)) == n,
        decimal(n).len() > 1 ==> decimal(n)[0] != '0',
    decreases n,
{
    reveal_with_fuel(value, 2);
    if n < 10 {
        assert(decimal(n).drop_last() =~= Seq::empty());
    } else {
        lemma_decimal_value(n / 10);
        assert(decimal(n).drop_last() =~= decimal(n / 10));
        if n / 10 < 10 {
            assert(n / 10 > 0);
        }
    }
}

/// Digits without a leading zero are the digits of what they count.
pub proof fn lemma_value_decimal(s: Text)
    requires
        s.len() > 0,
        all_digits(s),
        s.len() > 1 ==> s[0] != '0',
    ensures
        decimal(value(s)) == s,
    decreases s.len(),
{
    reveal_with_fuel(value, 2);
    if s.len() == 1 {
        assert(s.drop_last() =~= Seq::empty());
        assert(is_digit(s[0]));
        assert(decimal(value(s)) =~= s);
    } else {
        let h = s.drop_last();
        assert(all_digits(h)) by {
            assert forall|i: int| 0 <= i < h.len() implies is_digit(#[trigger] h[i]) by {
                assert(is_digit(s[i]));
            }
        }
        assert(h[0] == s[0]);
        lemma_value_decimal(h);
        assert(is_digit(s.last()));
        lemma_value_positive(h);
        assert(value(s) / 10 == value(h));
        assert(value(s) >= 10);
        assert(decimal(value(s)) =~= s);
    }
}

proof fn lemma_value_positive(s: Text)
    requires
        s.len() > 0,
        all_digits(s),
        s[0] != '0',
    ensures
        value(s) > 0,
    decreases s.len(),
{
    assert(is_digit(s[0]));
    if s.len() > 1 {
        let h = s.drop_last();
        assert forall|i: int| 0 <= i < h.len() implies is_digit(#[trigger] h[i]) by {
            assert(is_digit(s[i]));
        }
        lemma_value_positive(h);
    }
}

/// The text of digits of a bounded number.
pub fn read_digits(v: &[char], max: u64) -> (r: Option<u64>)
    ensures
        match r {
            Some(n) => v@.len() > 0 && all_digits(v@) && value(v@) == n && n <= max,
            None => v@.len() == 0 || !all_digits(v@) || value(v@) > max,
        },
{
    if v.len() == 0 {
        return None;
    }
    let mut acc: u128 = 0;
    let mut over = false;
    for i in 0..v.len()
        invariant
            all_digits(v@.take(i as int)),
            !over ==> acc == value(v@.take(i as int)) && acc <= max,
            over ==> value(v@.take(i as int)) > max,
    {
        let c = v[i];
        if !('0' <= c && c <= '9') {
            assert(!is_digit(v@[i as int]));
            return None;
        }
        let ghost t = v@.take(i + 1);
        assert(t.drop_last() =~= v@.take(i as int));
        assert(all_digits(t)) by {
            assert forall|j: int| 0 <= j < t.len() implies is_digit(#[trigger] t[j]) by {
                if j < i {
                    assert(is_digit(v@.take(i as int)[j]));
                }
            }
        }
        if !over {
            acc = acc * 10 + (c as u8 - '0' as u8) as u128;
            if acc > max as u128 {
                over = true;
            }
        }
    }
    assert(v@.take(v@.len() as int) =~= v@);
    if over {
        None
    } else {
        Some(acc as u64)
    }
}

/// An unsigned number up to `max` in decimal.
pub fn read_number(v: &[char], max: u64) -> (r: Option<u64>)
    ensures
        match r {
            Some(n) => parse_number(v@, max as nat) == Some(n as nat) && n <= max,
            None => parse_number(v@, max as nat) is None,
        },
{
    if v.len() > 0 && v[0] == '+' {
        let rest = slice_subrange(v, 1, v.len());
        assert(rest@ =~= v@.drop_first());
        read_digits(rest, max)
    } else {
        read_digits(v, max)
    }
}

/// The digits of a number.
pub fn decimal_of(n: u64) -> (r: String)
    ensures
        r@ == decimal(n as nat),
    decreases n,
{
    let d = (0x30u8 + (n % 10) as u8) as char;
    if n < 10 {
        let mut r = String::new();
        r.push(d);
        r
    } else {
        let mut r = decimal_of(n / 10);
        r.push(d);
        r
    }
}

/// A number in decimal, with its sign where it is negative.
pub open spec fn signed(n: int) -> Text {
    if n < 0 {
        "-"@ + decimal((-n) as nat)
    } else {
        decimal(n as nat)
    }
}

/// Writes a number in decimal, with its sign where it is negative.
pub fn signed_of(n: i32) -> (r: String)
    ensures
        r@ == signed(n as int),
{
    if n < 0 {
        concat("-", decimal_of((-(n as i64)) as u64).as_str())
    } else {
        decimal_of(n as u64)
    }
}

// ---- Hexadecimal digits ----

/// An ASCII hexadecimal digit of either case.
pub open spec fn is_hex(c: char) -> bool {
    is_digit(c) || 'a' <= c <= 'f' || 'A' <= c <= 'F'
}

/// What a hexadecimal digit counts.
pub open spec fn hex_digit(c: char) -> nat {
    if is_digit(c) {
        (c as nat - '0' as nat) as nat
    } else if 'a' <= c <= 'f' {
        (c as nat - 'a' as nat + 10) as nat
    } else {
        (c as nat - 'A' as nat + 10) as nat
    }
}

/// Nothing but hexadecimal digits.
pub open spec fn all_hex(s: Text) -> bool {
    forall|i: int| 0 <= i < s.len() ==> is_hex(#[trigger] s[i])
}

/// What a text of hexadecimal digits counts.
pub open spec fn hex_value(s: Text) -> nat
    decreases s.len(),
{
    if s.len() == 0 {
        0
    } else {
        16 * hex_value(s.drop_last()) + hex_digit(s.last())
    }
}

/// The lower-case hexadecimal digit of a number below sixteen.
pub open spec fn hex_char(n: nat) -> char {
    if n < 10 {
        (('0' as u8) + n) as u8 as char
    } else {
        (('a' as u8) + n - 10) as u8 as char
    }
}

/// The lower-case hexadecimal digits of a number without leading zeros.
pub open spec fn hexadecimal(n: nat) -> Text
    decreases n,
{
    if n < 16 {
        seq![hex_char(n)]
    } else {
        hexadecimal(n / 16).push(hex_char(n % 16))
    }
}

/// A byte as two lower-case hexadecimal digits.
pub open spec fn hex_byte(b: u8) -> Text {
    seq![hex_char(b as nat / 16), hex_char(b as nat % 16)]
}

/// The lower-case hexadecimal digit.
pub fn hex_char_of(n: u8) -> (c: char)
    requires
        n < 16,
    ensures
        c == hex_char(n as nat),
{
    if n < 10 {
        (0x30u8 + n) as char
    } else {
        (0x61u8 + (n - 10)) as char
    }
}

/// A byte as two lower-case hexadecimal digits.
pub fn hex_byte_of(b: u8) -> (r: String)
    ensures
        r@ == hex_byte(b),
{
    let mut r = String::new();
    r.push(hex_char_of(b / 16));
    r.push(hex_char_of(b % 16));
    r
}

/// The lower-case hexadecimal digits of a number.
pub fn hexadecimal_of(n: u16) -> (r: String)
    ensures
        r@ == hexadecimal(n as nat),
    decreases n,
{
    let d = hex_char_of((n % 16) as u8);
    if n < 16 {
        let mut r = String::new();
        r.push(d);
        r
    } else {
        let mut r = hexadecimal_of(n / 16);
        r.push(d);
        r
    }
}

/// Reading back the hexadecimal digits of a 16-bit number gives the number.
pub proof fn lemma_hexadecimal_value(n: nat)
    requires
        n < 0x10000,
    ensures
        1 <= hexadecimal(n).len() <= 4,
        all_hex(hexadecimal(n)),
        hex_value(hexadecimal(n)) == n,
{
    lemma_hexadecimal_len(n, 4);
}

proof fn lemma_hexadecimal_len(n: nat, k: nat)
    requires
        k >= 1,
        n < 0x10000,
        k == 1 ==> n < 0x10,
        k == 2 ==> n < 0x100,
        k == 3 ==> n < 0x1000,
    ensures
        1 <= hexadecimal(n).len() <= k,
        all_hex(hexadecimal(n)),
        hex_value(hexadecimal(n)) == n,
    decreases n,
{
    reveal_with_fuel(hex_value, 2);
    if n < 16 {
        assert(hexadecimal(n).drop_last() =~= Seq::empty());
    } else {
        lemma_hexadecimal_len(n / 16, (k - 1) as nat);
        assert(hexadecimal(n).drop_last() =~= hexadecimal(n / 16));
    }
}

/// The value of one to four hexadecimal digits.
pub fn read_hex(v: &[char]) -> (r: Option<u16>)
    ensures
        match r {
            Some(n) => 1 <= v@.len() <= 4 && all_hex(v@) && hex_value(v@) == n,
            None => v@.len() == 0 || v@.len() > 4 || !all_hex(v@),
        },
{
    if v.len() == 0 || v.len() > 4 {
        return None;
    }
    let mut acc: u32 = 0;
    for i in 0..v.len()
        invariant
            v.len() <= 4,
            all_hex(v@.take(i as int)),
            acc == hex_value(v@.take(i as int)),
            i == 0 ==> acc == 0,
            i == 1 ==> acc < 0x10,
            i == 2 ==> acc < 0x100,
            i == 3 ==> acc < 0x1000,
            i == 4 ==> acc < 0x10000,
    {
        let c = v[i];
        let d: u8 = if '0' <= c && c <= '9' {
            c as u8 - 0x30u8
        } else if 'a' <= c && c <= 'f' {
            c as u8 - 0x61u8 + 10
        } else if 'A' <= c && c <= 'F' {
            c as u8 - 0x41u8 + 10
        } else {
            assert(!is_hex(v@[i as int]));
            return None;
        };
        let ghost t = v@.take(i + 1);
        assert(t.drop_last() =~= v@.take(i as int));
        assert(all_hex(t)) by {
            assert forall|j: int| 0 <= j < t.len() implies is_hex(#[trigger] t[j]) by {
                if j < i {
                    assert(is_hex(v@.take(i as int)[j]));
                }
            }
        }
        acc = acc * 16 + d as u32;
    }
    assert(v@.take(v@.len() as int) =~= v@);
    Some(acc as u16)
}

} // verus!

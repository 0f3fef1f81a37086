//! What holds of every number as text.

use vstd::prelude::*;
use vstd::string::*;

use crate::number::{
    all_digits, decimal, hex_byte, hex_char, hex_digit, hex_value, hexadecimal, is_digit,
    is_hex, lemma_decimal_value, parse_number, signed, unsigned_part, value,
};
use crate::text::Text;

verus! {

/// A digit more is ten times the number and the digit.
pub proof fn law_value(s: Text, c: char)
    requires
        '0' <= c <= '9',
    ensures
        value(Seq::<char>::empty()) == 0,
        value(s.push(c)) == 10 * value(s) + (c as int - 0x30),
{
    assert(s.push(c).drop_last() =~= s);
}

/// The digits of a number are digits, without a leading zero, and count the number.
pub proof fn law_decimal(n: nat, i: int)
    requires
        0 <= i < decimal(n).len(),
    ensures
        '0' <= decimal(n)[i] <= '9',
        i == 0 && decimal(n).len() > 1 ==> decimal(n)[i] != '0',
        value(decimal(n)) == n,
{
    lemma_decimal_value(n);
    assert(is_digit(decimal(n)[i]));
}

/// A number is read from its digits, from one plus sign and its digits, and from its
/// digits behind zeros, up to the largest number that is taken.
pub proof fn law_number_read(n: nat, zeros: nat, max: nat)
    ensures
        ({
            let d = Seq::new(zeros, |i: int| '0') + decimal(n);
            let r = if n <= max {
                Some(n)
            } else {
                None
            };
            parse_number(d, max) == r && parse_number(seq!['+'] + d, max) == r
        }),
{
    let z = Seq::new(zeros, |i: int| '0');
    let d = z + decimal(n);
    lemma_decimal_value(n);
    lemma_leading_zeros(zeros, decimal(n));
    assert(is_digit(decimal(n)[0]));
    assert(d[0] == if zeros > 0 {
        '0'
    } else {
        decimal(n)[0]
    });
    assert(unsigned_part(d) == d);
    assert((seq!['+'] + d).drop_first() =~= d);
}

proof fn lemma_leading_zeros(zeros: nat, s: Text)
    requires
        all_digits(s),
    ensures
        all_digits(Seq::new(zeros, |i: int| '0') + s),
        value(Seq::new(zeros, |i: int| '0') + s) == value(s),
    decreases s.len(), zeros,
{
    let z = Seq::new(zeros, |i: int| '0');
    let d = z + s;
    assert forall|i: int| 0 <= i < d.len() implies is_digit(#[trigger] d[i]) by {
        if i >= zeros {
            assert(d[i] == s[i - zeros]);
        }
    }
    if s.len() > 0 {
        assert(d.drop_last() =~= z + s.drop_last());
        assert(d.last() == s.last());
        let h = s.drop_last();
        assert forall|i: int| 0 <= i < h.len() implies is_digit(#[trigger] h[i]) by {
            assert(h[i] == s[i]);
        }
        lemma_leading_zeros(zeros, h);
    } else if zeros > 0 {
        lemma_leading_zeros((zeros - 1) as nat, s);
        assert(d.drop_last() =~= Seq::new((zeros - 1) as nat, |i: int| '0') + s);
        assert(d.last() == '0');
    }
}

/// Text that holds anything but digits, beside one plus sign at its start, is no
/// number, and neither is text without a digit.
pub proof fn law_no_number(s: Text, i: int, max: nat)
    requires
        0 <= i < s.len(),
        !('0' <= s[i] <= '9'),
        i > 0 || s[i] != '+',
    ensures
        parse_number(s, max) is None,
        parse_number(Seq::<char>::empty(), max) is None,
        parse_number(seq!['+'], max) is None,
{
    let d = unsigned_part(s);
    if s[0] == '+' {
        assert(d[i - 1] == s[i]);
    } else {
        assert(d[i] == s[i]);
    }
    assert(!all_digits(d));
    assert(seq!['+'].drop_first() =~= Seq::<char>::empty());
}

/// A negative number has a minus sign and the digits of its absolute value.
pub proof fn law_signed(n: int)
    ensures
        n >= 0 ==> signed(n) == decimal(n as nat),
        n < 0 ==> signed(n) == seq!['-'] + decimal((-n) as nat),
{
    reveal_strlit("-");
    assert("-"@ =~= seq!['-']);
}

/// A hexadecimal digit more is sixteen times the number and the digit, of either
/// case.
pub proof fn law_hex_value(s: Text, c: char)
    ensures
        hex_value(Seq::<char>::empty()) == 0,
        '0' <= c <= '9' ==> hex_value(s.push(c)) == 16 * hex_value(s) + (c as int - 0x30),
        'a' <= c <= 'f' ==> hex_value(s.push(c)) == 16 * hex_value(s) + (c as int - 0x57),
        'A' <= c <= 'F' ==> hex_value(s.push(c)) == 16 * hex_value(s) + (c as int - 0x37),
{
    assert(s.push(c).drop_last() =~= s);
}

/// A byte is written with two hexadecimal digits in lower case, which count it.
pub proof fn law_hex_byte(b: u8, i: int)
    requires
        0 <= i < 2,
    ensures
        hex_byte(b).len() == 2,
        '0' <= hex_byte(b)[i] <= '9' || 'a' <= hex_byte(b)[i] <= 'f',
        hex_value(hex_byte(b)) == b,
{
    let s = hex_byte(b);
    lemma_hex_char(b as nat / 16);
    lemma_hex_char(b as nat % 16);
    assert(s.drop_last().drop_last() =~= Seq::<char>::empty());
    reveal_with_fuel(hex_value, 3);
}

proof fn lemma_hex_char(n: nat)
    requires
        n < 16,
    ensures
        hex_digit(hex_char(n)) == n,
        '0' <= hex_char(n) <= '9' || 'a' <= hex_char(n) <= 'f',
{
}

/// The hexadecimal digits of a number are in lower case, without a leading zero.
pub proof fn law_hexadecimal(n: nat, i: int)
    requires
        0 <= i < hexadecimal(n).len(),
    ensures
        '0' <= hexadecimal(n)[i] <= '9' || 'a' <= hexadecimal(n)[i] <= 'f',
        i == 0 && hexadecimal(n).len() > 1 ==> hexadecimal(n)[i] != '0',
    decreases n,
{
    if n < 16 {
        lemma_hex_char(n);
    } else {
        let h = hexadecimal(n / 16);
        lemma_hex_char(n % 16);
        lemma_hexadecimal_starts(n / 16);
        if i < h.len() {
            law_hexadecimal(n / 16, i);
        }
        if i == 0 && h.len() == 1 && n / 16 < 16 {
            lemma_hex_char(n / 16);
        }
    }
}

proof fn lemma_hexadecimal_starts(n: nat)
    ensures
        hexadecimal(n).len() > 0,
        hexadecimal(n).len() == 1 ==> n < 16,
    decreases n,
{
    if n >= 16 {
        lemma_hexadecimal_starts(n / 16);
    }
}

/// The hexadecimal digits are the decimal ones and six letters of either case.
pub proof fn law_hex_digits(c: char)
    ensures
        is_digit(c) <==> 0x30 <= c as u32 <= 0x39,
        is_hex(c) <==> 0x30 <= c as u32 <= 0x39 || 0x41 <= c as u32 <= 0x46 || 0x61 <= c as u32
            <= 0x66,
{
}

} // verus!

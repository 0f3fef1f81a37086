//! What holds of every text.

use vstd::prelude::*;

use crate::text::{
    find, find_text, holds, is_space, join, lemma_find, lemma_find_at, lemma_join_split,
    lemma_split_nonempty, lines, lower, lowered, split, trim, trim_end, trim_start, word_len, words,
    Text,
};

verus! {

// ---- Characters ----

/// White space is what Unicode's `White_Space` property says, by code point.
pub proof fn law_white_space(c: char)
    ensures
        is_space(c) <==> {
            let n = c as u32;
            ||| 9 <= n <= 13
            ||| n == 0x20
            ||| n == 0x85
            ||| n == 0xa0
            ||| n == 0x1680
            ||| 0x2000 <= n <= 0x200a
            ||| n == 0x2028
            ||| n == 0x2029
            ||| n == 0x202f
            ||| n == 0x205f
            ||| n == 0x3000
        },
{
}

/// Lower case moves the letters `A` to `Z` by 32 and nothing else.
pub proof fn law_lower_case(s: Text, i: int)
    requires
        0 <= i < s.len(),
    ensures
        lowered(s).len() == s.len(),
        0x41 <= s[i] as u32 <= 0x5a ==> lowered(s)[i] as u32 == s[i] as u32 + 32,
        !(0x41 <= s[i] as u32 <= 0x5a) ==> lowered(s)[i] == s[i],
        lowered(lowered(s)) == lowered(s),
{
    lemma_lower(s[i]);
    let t = lowered(s);
    assert forall|j: int| 0 <= j < s.len() implies lowered(t)[j] == t[j] by {
        lemma_lower(s[j]);
        lemma_lower(t[j]);
    }
    assert(lowered(t) =~= t);
}

proof fn lemma_lower(c: char)
    ensures
        0x41 <= c as u32 <= 0x5a ==> lower(c) as u32 == c as u32 + 32,
        !(0x41 <= c as u32 <= 0x5a) ==> lower(c) == c,
{
}

// ---- Trimming ----

/// Nothing but white space.
pub open spec fn all_space(s: Text) -> bool {
    forall|i: int| 0 <= i < s.len() ==> is_space(#[trigger] s[i])
}

/// Text without white space at its ends.
pub open spec fn is_tight(s: Text) -> bool {
    s.len() == 0 || (!is_space(s[0]) && !is_space(s.last()))
}

/// Trimming takes all the white space around a text and nothing of the text.
pub proof fn law_trim(a: Text, t: Text, b: Text)
    requires
        all_space(a),
        is_tight(t),
        all_space(b),
    ensures
        trim(a + t + b) == t,
{
    if t.len() == 0 {
        let s = a + t + b;
        assert(all_space(s)) by {
            assert forall|i: int| 0 <= i < s.len() implies is_space(#[trigger] s[i]) by {
                if i < a.len() {
                    assert(s[i] == a[i]);
                } else {
                    assert(s[i] == b[i - a.len()]);
                }
            }
        }
        lemma_trim_start(s, Seq::empty());
        assert(s + Seq::<char>::empty() =~= s);
        assert(t =~= Seq::<char>::empty());
    } else {
        assert(a + t + b =~= a + (t + b));
        assert((t + b)[0] == t[0]);
        lemma_trim_start(a, t + b);
        lemma_trim_end(t, b);
    }
}

/// Trimming the start takes the white space there and keeps the rest.
pub proof fn lemma_trim_start(a: Text, t: Text)
    requires
        all_space(a),
        t.len() > 0 ==> !is_space(t[0]),
    ensures
        trim_start(a + t) == t,
    decreases a.len(),
{
    if a.len() == 0 {
        assert(a + t =~= t);
    } else {
        let h = a.drop_first();
        assert(is_space(a[0]));
        assert((a + t)[0] == a[0]);
        assert((a + t).drop_first() =~= h + t);
        assert forall|i: int| 0 <= i < h.len() implies is_space(#[trigger] h[i]) by {
            assert(h[i] == a[i + 1]);
        }
        lemma_trim_start(h, t);
    }
}

/// Trimming the end takes the white space there and keeps the rest.
pub proof fn lemma_trim_end(t: Text, b: Text)
    requires
        all_space(b),
        t.len() > 0 ==> !is_space(t.last()),
    ensures
        trim_end(t + b) == t,
    decreases b.len(),
{
    if b.len() == 0 {
        assert(t + b =~= t);
    } else {
        let h = b.drop_last();
        assert(is_space(b[b.len() - 1]));
        assert((t + b).last() == b.last());
        assert((t + b).drop_last() =~= t + h);
        assert forall|i: int| 0 <= i < h.len() implies is_space(#[trigger] h[i]) by {
            assert(h[i] == b[i]);
        }
        lemma_trim_end(t, h);
    }
}

/// Text that trimming leaves alone is tight, and the other way round.
pub proof fn lemma_tight(s: Text)
    ensures
        trim(s) == s <==> is_tight(s),
{
    if is_tight(s) {
        let e = Seq::<char>::empty();
        law_trim(e, s, e);
        assert(e + s + e =~= s);
    } else if is_space(s[0]) {
        lemma_trim_shorter(s.drop_first());
        lemma_trim_shorter(trim_start(s));
    } else {
        lemma_trim_shorter(s.drop_last());
    }
}

proof fn lemma_trim_shorter(s: Text)
    ensures
        trim_start(s).len() <= s.len(),
        trim_end(s).len() <= s.len(),
    decreases s.len(),
{
    if s.len() > 0 {
        lemma_trim_shorter(s.drop_first());
        lemma_trim_shorter(s.drop_last());
    }
}

// ---- Searching ----

/// A text is found where it first stands, and found if it stands anywhere.
pub proof fn law_find_text(s: Text, p: Text, i: int)
    requires
        0 <= i,
        i + p.len() <= s.len(),
        s.subrange(i, i + p.len()) == p,
    ensures
        0 <= find_text(s, p) <= i,
        s.subrange(find_text(s, p), find_text(s, p) + p.len()) == p,
    decreases i,
{
    if p.is_prefix_of(s) {
    } else {
        assert(i > 0);
        let t = s.drop_first();
        assert(t.subrange(i - 1, i - 1 + p.len()) =~= s.subrange(i, i + p.len()));
        law_find_text(t, p, i - 1);
        let k = find_text(t, p);
        assert(s.subrange(k + 1, k + 1 + p.len()) =~= t.subrange(k, k + p.len()));
    }
}

/// A text that is found does stand there.
pub proof fn law_text_found(s: Text, p: Text)
    requires
        find_text(s, p) >= 0,
    ensures
        find_text(s, p) + p.len() <= s.len(),
        s.subrange(find_text(s, p), find_text(s, p) + p.len()) == p,
    decreases s.len(),
{
    if !p.is_prefix_of(s) {
        let t = s.drop_first();
        law_text_found(t, p);
        let k = find_text(t, p);
        assert(s.subrange(k + 1, k + 1 + p.len()) =~= t.subrange(k, k + p.len()));
    }
}

// ---- Splitting ----

/// A text is split at its separators and nowhere else: what stands before the first
/// is the first piece, and the rest is split the same way.
pub proof fn law_split(a: Text, b: Text, c: char)
    requires
        !holds(a, c),
    ensures
        split(a, c) == seq![a],
        split(a + seq![c] + b, c) == seq![a] + split(b, c),
{
    let s = a + seq![c] + b;
    let n = a.len() as int;
    lemma_find(a, c);
    assert forall|j: int| 0 <= j < n implies s[j] != c by {
        assert(s[j] == a[j]);
    }
    lemma_find_at(s, c, n);
    assert(s.take(n) =~= a);
    assert(s.skip(n + 1) =~= b);
}

/// Two texts around a separator give the pieces of both.
pub proof fn law_split_both(a: Text, b: Text, c: char)
    ensures
        split(a + seq![c] + b, c) == split(a, c) + split(b, c),
    decreases a.len(),
{
    lemma_find(a, c);
    let i = find(a, c);
    if i >= a.len() {
        law_split(a, b, c);
    } else {
        let h = a.take(i);
        let t = a.skip(i + 1);
        assert(!holds(h, c)) by {
            lemma_find_at(h, c, i);
        }
        assert(a + seq![c] + b =~= h + seq![c] + (t + seq![c] + b));
        law_split(h, t + seq![c] + b, c);
        law_split_both(t, b, c);
        assert(split(a, c) =~= seq![h] + split(t, c));
        assert(seq![h] + (split(t, c) + split(b, c)) =~= split(a, c) + split(b, c));
    }
}

/// Pieces joined with the separator are the text again, and no piece holds it.
pub proof fn law_split_whole(s: Text, c: char, k: int)
    requires
        0 <= k < split(s, c).len(),
    ensures
        join(split(s, c), c) == s,
        !holds(split(s, c)[k], c),
    decreases s.len(),
{
    lemma_join_split(s, c);
    lemma_find(s, c);
    let i = find(s, c);
    if i < s.len() {
        let t = s.skip(i + 1);
        lemma_split_nonempty(t, c);
        if k == 0 {
            lemma_find_at(s.take(i), c, i);
        } else {
            law_split_whole(t, c, k - 1);
            assert(split(s, c)[k] == split(t, c)[k - 1]);
        }
    }
}

// ---- Lines ----

/// A line ends at its line feed, with or without one carriage return before it;
/// what follows is read the same way.
pub proof fn law_lines(l: Text, rest: Text)
    requires
        !holds(l, '\n'),
    ensures
        l.len() > 0 ==> lines(l) == seq![l],
        lines(Seq::<char>::empty()) == Seq::<Text>::empty(),
        !(l.len() > 0 && l.last() == '\r') ==> lines(l + seq!['\n'] + rest) == seq![l] + lines(
            rest,
        ),
        lines(l + seq!['\r', '\n'] + rest) == seq![l] + lines(rest),
{
    lemma_find(l, '\n');
    let n = l.len() as int;
    let s = l + seq!['\n'] + rest;
    assert forall|j: int| 0 <= j < n implies s[j] != '\n' by {
        assert(s[j] == l[j]);
    }
    lemma_find_at(s, '\n', n);
    assert(s.take(n) =~= l);
    assert(s.skip(n + 1) =~= rest);
    let r = l + seq!['\r', '\n'] + rest;
    assert forall|j: int| 0 <= j < n + 1 implies r[j] != '\n' by {
        if j < n {
            assert(r[j] == l[j]);
        }
    }
    lemma_find_at(r, '\n', n + 1);
    assert(r.take(n + 1) =~= l.push('\r'));
    assert(r.take(n + 1).drop_last() =~= l);
    assert(r.skip(n + 2) =~= rest);
}

// ---- Words ----

/// Text without white space.
pub open spec fn is_word(w: Text) -> bool {
    w.len() > 0 && forall|i: int| 0 <= i < w.len() ==> !is_space(#[trigger] w[i])
}

/// White space separates words: a word with white space before it, and white space
/// or nothing behind it, is the first word, and the rest is read the same way.
pub proof fn law_words(a: Text, w: Text, rest: Text)
    requires
        all_space(a),
        is_word(w),
        rest.len() > 0 ==> is_space(rest[0]),
    ensures
        words(a) == Seq::<Text>::empty(),
        words(a + w + rest) == seq![w] + words(rest),
{
    lemma_trim_start(a, Seq::empty());
    assert(a + Seq::<char>::empty() =~= a);
    assert(a + w + rest =~= a + (w + rest));
    assert((w + rest)[0] == w[0]);
    assert(!is_space(w[0]));
    lemma_trim_start(a, w + rest);
    lemma_word_len(w, rest);
    let t = w + rest;
    assert(t.take(w.len() as int) =~= w);
    assert(t.skip(w.len() as int) =~= rest);
}

proof fn lemma_word_len(w: Text, rest: Text)
    requires
        forall|i: int| 0 <= i < w.len() ==> !is_space(#[trigger] w[i]),
        rest.len() > 0 ==> is_space(rest[0]),
    ensures
        word_len(w + rest) == w.len(),
    decreases w.len(),
{
    if w.len() == 0 {
        assert(w + rest =~= rest);
    } else {
        let t = w.drop_first();
        assert((w + rest)[0] == w[0]);
        assert((w + rest).drop_first() =~= t + rest);
        assert forall|i: int| 0 <= i < t.len() implies !is_space(#[trigger] t[i]) by {
            assert(t[i] == w[i + 1]);
        }
        lemma_word_len(t, rest);
    }
}

} // verus!

//! Text as sequences of characters: what the parsers of this crate share.
//!
//! Every function here has a specification of the same meaning over [`Text`];
//! the contracts of the other modules are written with those specifications.

pub mod laws;

use vstd::prelude::*;
use vstd::slice::slice_subrange;
use vstd::string::*;

verus! {

/// A piece of text, as its characters.
pub type Text = Seq<char>;

/// `String::push` of the standard library: the character goes to the end.
pub assume_specification[ String::push ](s: &mut String, c: char)
    ensures
        final(s)@ == old(s)@.push(c),
;

// ---- Conversions ----

/// The characters of a string.
pub fn chars_of(s: &str) -> (v: Vec<char>)
    ensures
        v@ == s@,
{
    let mut v: Vec<char> = Vec::new();
    for c in it: s.chars()
        invariant
            it.seq() == s@,
            v@ == s@.take(it.index()),
    {
        v.push(c);
    }
    v
}

/// The string of some characters.
pub fn string_of(v: &[char]) -> (s: String)
    ensures
        s@ == v@,
{
    let mut s = String::new();
    for i in 0..v.len()
        invariant
            s@ == v@.take(i as int),
    {
        s.push(v[i]);
    }
    s
}

/// `a` followed by `b`.
pub fn concat(a: &str, b: &str) -> (s: String)
    ensures
        s@ == a@ + b@,
{
    let mut s = a.to_owned();
    s.append(b);
    s
}

/// The strings of a vector, as text.
pub open spec fn texts(v: Seq<String>) -> Seq<Text> {
    Seq::new(v.len(), |i: int| v[i]@)
}

/// The pieces of a vector, as text.
pub open spec fn pieces(v: Seq<Vec<char>>) -> Seq<Text> {
    Seq::new(v.len(), |i: int| v[i]@)
}

/// The text behind an optional string.
pub open spec fn opt_text(s: Option<String>) -> Option<Text> {
    match s {
        Some(t) => Some(t@),
        None => None,
    }
}

/// An optional string made again.
pub fn clone_opt(s: &Option<String>) -> (r: Option<String>)
    ensures
        opt_text(r) == opt_text(*s),
{
    match s {
        Some(t) => Some(t.clone()),
        None => None,
    }
}

/// Whether the characters are exactly those of `s`.
pub fn is_text(v: &[char], s: &str) -> (r: bool)
    ensures
        r == (v@ == s@),
{
    let w = chars_of(s);
    if v.len() != w.len() {
        return false;
    }
    for i in 0..v.len()
        invariant
            v@.len() == w@.len(),
            w@ == s@,
            forall|j: int| 0 <= j < i ==> v@[j] == w@[j],
    {
        if v[i] != w[i] {
            return false;
        }
    }
    assert(v@ =~= w@);
    true
}

/// Whether two strings hold the same characters.
pub fn same_text(a: &str, b: &str) -> (r: bool)
    ensures
        r == (a@ == b@),
{
    let v = chars_of(a);
    is_text(v.as_slice(), b)
}

// ---- Characters ----

/// Unicode's `White_Space` property.
pub open spec fn is_space(c: char) -> bool {
    ||| '\u{9}' <= c <= '\u{d}'
    ||| c == ' '
    ||| c == '\u{85}'
    ||| c == '\u{a0}'
    ||| c == '\u{1680}'
    ||| '\u{2000}' <= c <= '\u{200a}'
    ||| c == '\u{2028}'
    ||| c == '\u{2029}'
    ||| c == '\u{202f}'
    ||| c == '\u{205f}'
    ||| c == '\u{3000}'
}

/// Whether `c` is white space.
pub fn space(c: char) -> (r: bool)
    ensures
        r == is_space(c),
{
    ('\u{9}' <= c && c <= '\u{d}') || c == ' ' || c == '\u{85}' || c == '\u{a0}' || c == '\u{1680}'
        || ('\u{2000}' <= c && c <= '\u{200a}') || c == '\u{2028}' || c == '\u{2029}' || c
        == '\u{202f}' || c == '\u{205f}' || c == '\u{3000}'
}

/// The ASCII lower case of a character; every other character stands for itself.
pub open spec fn lower(c: char) -> char {
    if 'A' <= c <= 'Z' {
        ((c as u8) + 32) as u8 as char
    } else {
        c
    }
}

/// The ASCII lower case of one character.
pub fn lower_char(c: char) -> (r: char)
    ensures
        r == lower(c),
{
    if 'A' <= c && c <= 'Z' {
        ((c as u8) + 32) as char
    } else {
        c
    }
}

/// The ASCII lower case of a text.
pub open spec fn lowered(s: Text) -> Text {
    Seq::new(s.len(), |i: int| lower(s[i]))
}

/// The ASCII lower case of a text.
pub fn to_lower(v: &[char]) -> (r: Vec<char>)
    ensures
        r@ == lowered(v@),
{
    let mut r: Vec<char> = Vec::new();
    for i in 0..v.len()
        invariant
            r@ == lowered(v@).take(i as int),
    {
        r.push(lower_char(v[i]));
    }
    r
}

// ---- Trimming ----

/// `s` without the white space at its start.
pub open spec fn trim_start(s: Text) -> Text
    decreases s.len(),
{
    if s.len() > 0 && is_space(s[0]) {
        trim_start(s.drop_first())
    } else {
        s
    }
}

/// `s` without the white space at its end.
pub open spec fn trim_end(s: Text) -> Text
    decreases s.len(),
{
    if s.len() > 0 && is_space(s.last()) {
        trim_end(s.drop_last())
    } else {
        s
    }
}

/// `s` without the white space around it.
pub open spec fn trim(s: Text) -> Text {
    trim_end(trim_start(s))
}

/// Cuts the white space at the start.
pub fn cut_start<'a>(v: &'a [char]) -> (r: &'a [char])
    ensures
        r@ == trim_start(v@),
{
    let mut i: usize = 0;
    assert(v@.skip(0) =~= v@);
    while i < v.len() && space(v[i])
        invariant
            i <= v@.len(),
            trim_start(v@.skip(i as int)) == trim_start(v@),
        decreases v@.len() - i,
    {
        assert(v@.skip(i as int).drop_first() =~= v@.skip(i + 1));
        i = i + 1;
    }
    assert(v@.subrange(i as int, v@.len() as int) =~= v@.skip(i as int));
    slice_subrange(v, i, v.len())
}

/// Cuts the white space at the end.
pub fn cut_end<'a>(v: &'a [char]) -> (r: &'a [char])
    ensures
        r@ == trim_end(v@),
{
    let mut n: usize = v.len();
    assert(v@.take(n as int) =~= v@);
    while n > 0 && space(v[n - 1])
        invariant
            n <= v@.len(),
            trim_end(v@.take(n as int)) == trim_end(v@),
        decreases n,
    {
        assert(v@.take(n as int).drop_last() =~= v@.take(n - 1));
        n = n - 1;
    }
    assert(v@.subrange(0, n as int) =~= v@.take(n as int));
    slice_subrange(v, 0, n)
}

/// Cuts the white space on both sides.
pub fn cut<'a>(v: &'a [char]) -> (r: &'a [char])
    ensures
        r@ == trim(v@),
{
    cut_end(cut_start(v))
}

// ---- Searching ----

/// The place of the first `c` in `s`, or the length of `s` where there is none.
pub open spec fn find(s: Text, c: char) -> int
    decreases s.len(),
{
    if s.len() == 0 || s[0] == c {
        0
    } else {
        1 + find(s.drop_first(), c)
    }
}

/// Whether `c` occurs in `s`.
pub open spec fn holds(s: Text, c: char) -> bool {
    find(s, c) < s.len()
}

/// The place of the last `c` in `s`, or -1 where there is none.
pub open spec fn rfind(s: Text, c: char) -> int
    decreases s.len(),
{
    if s.len() == 0 {
        -1
    } else if s.last() == c {
        s.len() - 1
    } else {
        rfind(s.drop_last(), c)
    }
}

/// What `find` gives is a first occurrence.
pub proof fn lemma_find(s: Text, c: char)
    ensures
        0 <= find(s, c) <= s.len(),
        forall|j: int| 0 <= j < find(s, c) ==> s[j] != c,
        find(s, c) < s.len() ==> s[find(s, c)] == c,
    decreases s.len(),
{
    if s.len() > 0 && s[0] != c {
        lemma_find(s.drop_first(), c);
        let k = find(s.drop_first(), c);
        assert forall|j: int| 0 <= j < find(s, c) implies s[j] != c by {
            if j > 0 {
                assert(s.drop_first()[j - 1] != c);
            }
        }
        if k < s.drop_first().len() {
            assert(s.drop_first()[k] == c);
        }
    }
}

/// A first occurrence is what `find` gives.
pub proof fn lemma_find_at(s: Text, c: char, i: int)
    requires
        0 <= i <= s.len(),
        forall|j: int| 0 <= j < i ==> s[j] != c,
        i < s.len() ==> s[i] == c,
    ensures
        find(s, c) == i,
{
    lemma_find(s, c);
    let k = find(s, c);
    if k < i {
        assert(s[k] != c);
    }
    if i < k {
        assert(s[i] != c);
    }
}

/// What `rfind` gives is a last occurrence.
pub proof fn lemma_rfind(s: Text, c: char)
    ensures
        -1 <= rfind(s, c) < s.len(),
        forall|j: int| rfind(s, c) < j < s.len() ==> s[j] != c,
        rfind(s, c) >= 0 ==> s[rfind(s, c)] == c,
    decreases s.len(),
{
    if s.len() > 0 && s.last() != c {
        lemma_rfind(s.drop_last(), c);
        assert forall|j: int| rfind(s, c) < j < s.len() implies s[j] != c by {
            if j < s.len() - 1 {
                assert(s.drop_last()[j] != c);
            }
        }
    }
}

/// The place of the first `c`.
pub fn find_char(v: &[char], c: char) -> (r: Option<usize>)
    ensures
        match r {
            Some(i) => i == find(v@, c) && i < v@.len(),
            None => find(v@, c) == v@.len(),
        },
{
    for i in 0..v.len()
        invariant
            forall|j: int| 0 <= j < i ==> v@[j] != c,
    {
        if v[i] == c {
            proof {
                lemma_find_at(v@, c, i as int);
            }
            return Some(i);
        }
    }
    proof {
        lemma_find_at(v@, c, v@.len() as int);
    }
    None
}

/// The place of the last `c`.
pub fn rfind_char(v: &[char], c: char) -> (r: Option<usize>)
    ensures
        match r {
            Some(i) => i == rfind(v@, c) && i < v@.len(),
            None => rfind(v@, c) == -1,
        },
{
    let mut n: usize = v.len();
    assert(v@.take(n as int) =~= v@);
    while n > 0
        invariant
            n <= v@.len(),
            rfind(v@.take(n as int), c) == rfind(v@, c),
        decreases n,
    {
        if v[n - 1] == c {
            return Some(n - 1);
        }
        assert(v@.take(n as int).drop_last() =~= v@.take(n - 1));
        n = n - 1;
    }
    None
}

/// Whether `s` starts with the text of `p`.
pub fn starts_with(v: &[char], p: &str) -> (r: bool)
    ensures
        r == p@.is_prefix_of(v@),
{
    let w = chars_of(p);
    if w.len() > v.len() {
        return false;
    }
    let head = slice_subrange(v, 0, w.len());
    is_text(head, p)
}

/// Whether `v` ends with `w`.
pub fn ends_with(v: &[char], w: &[char]) -> (r: bool)
    ensures
        r == w@.is_suffix_of(v@),
{
    if w.len() > v.len() {
        return false;
    }
    let d = v.len() - w.len();
    for i in 0..w.len()
        invariant
            w.len() <= v.len(),
            d == v.len() - w.len(),
            forall|j: int| 0 <= j < i ==> w@[j] == v@[d + j],
    {
        if v[d + i] != w[i] {
            assert(w@[i as int] != v@.subrange(d as int, v@.len() as int)[i as int]);
            return false;
        }
    }
    assert(w@ =~= v@.subrange(d as int, v@.len() as int));
    true
}

/// The place where `p` first occurs in `s`, or -1 where it does not.
pub open spec fn find_text(s: Text, p: Text) -> int
    decreases s.len(),
{
    if p.is_prefix_of(s) {
        0
    } else if s.len() == 0 {
        -1
    } else {
        let k = find_text(s.drop_first(), p);
        if k < 0 {
            -1
        } else {
            k + 1
        }
    }
}

/// The bounds of a place that `find_text` gives.
pub proof fn lemma_find_text_bounds(s: Text, p: Text)
    ensures
        find_text(s, p) >= 0 ==> find_text(s, p) + p.len() <= s.len(),
        find_text(s, p) >= -1,
    decreases s.len(),
{
    if !p.is_prefix_of(s) && s.len() > 0 {
        lemma_find_text_bounds(s.drop_first(), p);
    }
}

/// The place where the text of `p` first occurs.
pub fn find_str(v: &[char], p: &str) -> (r: Option<usize>)
    ensures
        match r {
            Some(i) => i == find_text(v@, p@) && i + p@.len() <= v@.len(),
            None => find_text(v@, p@) < 0,
        },
{
    let mut i: usize = 0;
    assert(v@.skip(0) =~= v@);
    proof {
        lemma_find_text_bounds(v@, p@);
    }
    while i < v.len()
        invariant
            i <= v@.len(),
            find_text(v@, p@) >= 0 ==> find_text(v@, p@) + p@.len() <= v@.len(),
            find_text(v@.skip(i as int), p@) < 0 ==> find_text(v@, p@) < 0,
            find_text(v@.skip(i as int), p@) >= 0 ==> find_text(v@, p@) == i + find_text(
                v@.skip(i as int),
                p@,
            ),
        decreases v@.len() - i,
    {
        let rest = slice_subrange(v, i, v.len());
        assert(rest@ =~= v@.skip(i as int));
        if starts_with(rest, p) {
            return Some(i);
        }
        assert(v@.skip(i as int).drop_first() =~= v@.skip(i + 1));
        i = i + 1;
    }
    let rest = slice_subrange(v, i, v.len());
    assert(rest@ =~= v@.skip(i as int));
    if starts_with(rest, p) {
        return Some(i);
    }
    None
}

// ---- Splitting ----

/// `s` cut at every `c`; as many pieces as there are `c`, and one more.
pub open spec fn split(s: Text, c: char) -> Seq<Text>
    decreases s.len(),
    when s.len() >= 0
    via split_decreases
{
    let i = find(s, c);
    if i >= s.len() {
        seq![s]
    } else {
        seq![s.take(i)] + split(s.skip(i + 1), c)
    }
}

#[via_fn]
proof fn split_decreases(s: Text, c: char) {
    lemma_find(s, c);
}

/// There is always a first piece.
pub proof fn lemma_split_nonempty(s: Text, c: char)
    ensures
        split(s, c).len() >= 1,
{
    lemma_find(s, c);
}

/// Cuts the text at every `c`.
pub fn split_at_char(v: &[char], c: char) -> (r: Vec<Vec<char>>)
    ensures
        pieces(r@) == split(v@, c),
{
    let mut r: Vec<Vec<char>> = Vec::new();
    let mut rest = v;
    assert(pieces(r@) + split(v@, c) =~= split(v@, c));
    loop
        invariant
            pieces(r@) + split(rest@, c) == split(v@, c),
        decreases rest@.len(),
    {
        proof {
            lemma_find(rest@, c);
        }
        match find_char(rest, c) {
            Some(i) => {
                let ghost before = pieces(r@);
                let n = rest.len();
                let head = slice_subrange(rest, 0, i);
                let tail = slice_subrange(rest, i + 1, n);
                assert(head@ =~= rest@.take(i as int));
                assert(tail@ =~= rest@.skip(i + 1));
                r.push(vstd::slice::slice_to_vec(head));
                assert(pieces(r@) =~= before + seq![head@]);
                assert(pieces(r@) + split(tail@, c) =~= before + split(rest@, c));
                rest = tail;
            },
            None => {
                let ghost before = pieces(r@);
                r.push(vstd::slice::slice_to_vec(rest));
                assert(pieces(r@) =~= before + seq![rest@]);
                return r;
            },
        }
    }
}

/// The lines of a text: cut after each line feed, without it and without one
/// carriage return before it; what follows the last line feed is a line only
/// where it is not empty.
pub open spec fn lines(s: Text) -> Seq<Text>
    decreases s.len(),
    when s.len() >= 0
    via lines_decreases
{
    if s.len() == 0 {
        Seq::empty()
    } else {
        let i = find(s, '\n');
        if i >= s.len() {
            seq![s]
        } else {
            seq![strip_cr(s.take(i))] + lines(s.skip(i + 1))
        }
    }
}

#[via_fn]
proof fn lines_decreases(s: Text) {
    lemma_find(s, '\n');
}

/// `s` without one carriage return at its end.
pub open spec fn strip_cr(s: Text) -> Text {
    if s.len() > 0 && s.last() == '\r' {
        s.drop_last()
    } else {
        s
    }
}

/// The lines of a text.
pub fn split_lines(v: &[char]) -> (r: Vec<Vec<char>>)
    ensures
        pieces(r@) == lines(v@),
{
    let mut r: Vec<Vec<char>> = Vec::new();
    let mut rest = v;
    assert(pieces(r@) + lines(v@) =~= lines(v@));
    loop
        invariant
            pieces(r@) + lines(rest@) == lines(v@),
        decreases rest@.len(),
    {
        if rest.len() == 0 {
            assert(pieces(r@) =~= pieces(r@) + lines(rest@));
            return r;
        }
        proof {
            lemma_find(rest@, '\n');
        }
        let ghost before = pieces(r@);
        match find_char(rest, '\n') {
            Some(i) => {
                let head = slice_subrange(rest, 0, i);
                let tail = slice_subrange(rest, i + 1, rest.len());
                assert(head@ =~= rest@.take(i as int));
                assert(tail@ =~= rest@.skip(i + 1));
                let mut line = vstd::slice::slice_to_vec(head);
                if line.len() > 0 && line[line.len() - 1] == '\r' {
                    line.truncate(line.len() - 1);
                    assert(line@ =~= head@.drop_last());
                }
                r.push(line);
                assert(pieces(r@) =~= before + seq![strip_cr(head@)]);
                assert(pieces(r@) + lines(tail@) =~= before + lines(rest@));
                rest = tail;
            },
            None => {
                r.push(vstd::slice::slice_to_vec(rest));
                assert(pieces(r@) =~= before + seq![rest@]);
                return r;
            },
        }
    }
}

/// The length of the run of characters other than white space at the start.
pub open spec fn word_len(s: Text) -> int
    decreases s.len(),
{
    if s.len() == 0 || is_space(s[0]) {
        0
    } else {
        1 + word_len(s.drop_first())
    }
}

/// The words of a text: its runs of characters other than white space.
pub open spec fn words(s: Text) -> Seq<Text>
    decreases s.len(),
    when s.len() >= 0
    via words_decreases
{
    let t = trim_start(s);
    if t.len() == 0 {
        Seq::empty()
    } else {
        seq![t.take(word_len(t))] + words(t.skip(word_len(t)))
    }
}

#[via_fn]
proof fn words_decreases(s: Text) {
    lemma_trim_start(s);
    lemma_word_len(trim_start(s));
}

proof fn lemma_trim_start(s: Text)
    ensures
        trim_start(s).len() <= s.len(),
        trim_start(s).len() > 0 ==> !is_space(trim_start(s)[0]),
    decreases s.len(),
{
    if s.len() > 0 && is_space(s[0]) {
        lemma_trim_start(s.drop_first());
    }
}

proof fn lemma_word_len(s: Text)
    ensures
        0 <= word_len(s) <= s.len(),
        s.len() > 0 && !is_space(s[0]) ==> word_len(s) > 0,
    decreases s.len(),
{
    if s.len() > 0 && !is_space(s[0]) {
        lemma_word_len(s.drop_first());
    }
}

/// The words of a text.
pub fn split_words(v: &[char]) -> (r: Vec<Vec<char>>)
    ensures
        pieces(r@) == words(v@),
{
    let mut r: Vec<Vec<char>> = Vec::new();
    let mut rest = v;
    assert(pieces(r@) + words(v@) =~= words(v@));
    loop
        invariant
            pieces(r@) + words(rest@) == words(v@),
        decreases rest@.len(),
    {
        let t = cut_start(rest);
        if t.len() == 0 {
            assert(pieces(r@) =~= pieces(r@) + words(rest@));
            return r;
        }
        proof {
            lemma_trim_start(rest@);
            lemma_word_len(t@);
        }
        let ghost before = pieces(r@);
        let mut n: usize = 0;
        assert(t@.skip(0) =~= t@);
        while n < t.len() && !space(t[n])
            invariant
                n <= t@.len(),
                word_len(t@) == n + word_len(t@.skip(n as int)),
            decreases t@.len() - n,
        {
            assert(t@.skip(n as int).drop_first() =~= t@.skip(n + 1));
            n = n + 1;
        }
        let head = slice_subrange(t, 0, n);
        let tail = slice_subrange(t, n, t.len());
        assert(head@ =~= t@.take(n as int));
        assert(tail@ =~= t@.skip(n as int));
        r.push(vstd::slice::slice_to_vec(head));
        assert(pieces(r@) =~= before + seq![head@]);
        assert(pieces(r@) + words(tail@) =~= before + words(rest@));
        rest = tail;
    }
}

// ---- Joining ----

/// The pieces with a `c` between each two of them.
pub open spec fn join(parts: Seq<Text>, c: char) -> Text
    decreases parts.len(),
{
    if parts.len() == 0 {
        Seq::empty()
    } else if parts.len() == 1 {
        parts[0]
    } else {
        parts[0] + seq![c] + join(parts.drop_first(), c)
    }
}

/// Joining what was split gives the text again.
pub proof fn lemma_join_split(s: Text, c: char)
    ensures
        join(split(s, c), c) == s,
    decreases s.len(),
{
    lemma_find(s, c);
    let i = find(s, c);
    if i < s.len() {
        let rest = s.skip(i + 1);
        lemma_join_split(rest, c);
        lemma_split_nonempty(rest, c);
        let parts = split(s, c);
        assert(parts.drop_first() =~= split(rest, c));
        assert(parts[0] =~= s.take(i));
        assert(s.take(i) + seq![c] + rest =~= s);
    }
}

/// Splitting what was joined gives the pieces again, where no piece holds the
/// separator.
pub proof fn lemma_split_join(parts: Seq<Text>, c: char)
    requires
        parts.len() > 0,
        forall|k: int| 0 <= k < parts.len() ==> !holds(#[trigger] parts[k], c),
    ensures
        split(join(parts, c), c) == parts,
    decreases parts.len(),
{
    let s = join(parts, c);
    assert(!holds(parts[0], c));
    lemma_find(parts[0], c);
    if parts.len() == 1 {
        assert(split(s, c) =~= parts);
    } else {
        let tail = parts.drop_first();
        assert forall|k: int| 0 <= k < tail.len() implies !holds(#[trigger] tail[k], c) by {
            assert(!holds(parts[k + 1], c));
        }
        lemma_split_join(tail, c);
        let n = parts[0].len() as int;
        assert(s[n] == c);
        assert forall|j: int| 0 <= j < n implies s[j] != c by {
            assert(s[j] == parts[0][j]);
        }
        lemma_find_at(s, c, n);
        assert(s.take(n) =~= parts[0]);
        assert(s.skip(n + 1) =~= join(tail, c));
        assert(split(s, c) =~= parts);
    }
}

} // verus!

//! Received bytes, and the lines in them.
//!
//! HTTP replies arrive as byte streams of CRLF-terminated lines, and so does
//! what is typed on a terminal: "read one line, strip `\r`, return when we see
//! `\n`". This module is the single home for that.

use vstd::prelude::*;
use vstd::string::*;

use crate::error::{Error, ErrorView, Result};
use crate::text::Text;

verus! {

/// The byte that ends a line.
pub const LF: u8 = 0x0A;

/// The byte that is dropped from a line.
pub const CR: u8 = 0x0D;

// ---- Received bytes ----

/// Bytes that were received; those before `pos` were read.
#[derive(Debug)]
pub struct Incoming {
    data: Vec<u8>,
    pos: usize,
}

impl View for Incoming {
    type V = Seq<u8>;

    /// The bytes that are still to be read.
    closed spec fn view(&self) -> Seq<u8> {
        self.data@.skip(self.pos as int)
    }
}

/// The error of a stream that ends too early.
pub open spec fn early_end() -> ErrorView {
    ErrorView::Io("early eof"@)
}

impl Incoming {
    #[verifier::type_invariant]
    spec fn wf(self) -> bool {
        self.pos <= self.data@.len()
    }

    /// The stream of these bytes.
    pub fn new(data: Vec<u8>) -> (r: Incoming)
        ensures
            r@ == data@,
    {
        let r = Incoming { data, pos: 0 };
        assert(r@ =~= data@);
        r
    }

    /// The next byte; `None` at the end.
    pub fn next_byte(&mut self) -> (r: Option<u8>)
        ensures
            old(self)@.len() == 0 ==> r is None && final(self)@ == old(self)@,
            old(self)@.len() > 0 ==> r == Some(old(self)@[0]) && final(self)@
                == old(self)@.drop_first(),
    {
        proof {
            use_type_invariant(&*self);
        }
        if self.pos < self.data.len() {
            let b = self.data[self.pos];
            assert(self.data@.skip(self.pos + 1) =~= self@.drop_first());
            self.pos = self.pos + 1;
            Some(b)
        } else {
            None
        }
    }

    /// Exactly `n` bytes. Where there are fewer, nothing is left.
    pub fn read_exact(&mut self, n: usize) -> (r: Result<Vec<u8>>)
        ensures
            n <= old(self)@.len() ==> (r matches Ok(v) && v@ == old(self)@.take(n as int)
                && final(self)@ == old(self)@.skip(n as int)),
            n > old(self)@.len() ==> (r matches Err(e) && e@ == early_end() && final(self)@
                == Seq::<u8>::empty()),
    {
        let ghost all = self@;
        let mut v: Vec<u8> = Vec::new();
        assert(all.skip(0) =~= all);
        for i in 0..n
            invariant
                all == old(self)@,
                i <= all.len(),
                v@ == all.take(i as int),
                self@ == all.skip(i as int),
        {
            match self.next_byte() {
                Some(b) => {
                    v.push(b);
                    assert(self@ =~= all.skip(i + 1));
                },
                None => {
                    assert(self@ =~= Seq::<u8>::empty());
                    return Err(Error::Io("early eof".to_owned()));
                },
            }
        }
        Ok(v)
    }
}

// ---- Lines ----

/// Where the first line ends: the place of its `\n`, or the end.
pub open spec fn line_end(s: Seq<u8>) -> int
    decreases s.len(),
{
    if s.len() == 0 || s[0] == LF {
        0
    } else {
        1 + line_end(s.drop_first())
    }
}

/// The text of a line: every byte but `\r` is one character.
pub open spec fn line_text(s: Seq<u8>) -> Text
    decreases s.len(),
{
    if s.len() == 0 {
        Seq::empty()
    } else if s.last() == CR {
        line_text(s.drop_last())
    } else {
        line_text(s.drop_last()).push(s.last() as char)
    }
}

/// The first line ends at its first `\n`.
pub proof fn lemma_line_end(s: Seq<u8>)
    ensures
        0 <= line_end(s) <= s.len(),
        line_end(s) < s.len() ==> s[line_end(s)] == LF,
        forall|i: int| 0 <= i < line_end(s) ==> s[i] != LF,
    decreases s.len(),
{
    if s.len() > 0 && s[0] != LF {
        lemma_line_end(s.drop_first());
        assert forall|i: int| 0 <= i < line_end(s) implies s[i] != LF by {
            if i > 0 {
                assert(s.drop_first()[i - 1] == s[i]);
            }
        }
    }
}

/// The place of the first `\n` is where the first line ends.
pub proof fn lemma_line_end_at(s: Seq<u8>, n: int)
    requires
        0 <= n <= s.len(),
        n < s.len() ==> s[n] == LF,
        forall|i: int| 0 <= i < n ==> s[i] != LF,
    ensures
        line_end(s) == n,
{
    lemma_line_end(s);
}

/// Takes one byte of a line into `buf`: `\r` is dropped. Returns whether the
/// byte ends the line.
pub fn push_line_byte(buf: &mut String, byte: u8) -> (r: bool)
    ensures
        r == (byte == LF),
        byte == LF || byte == CR ==> final(buf)@ == old(buf)@,
        byte != LF && byte != CR ==> final(buf)@ == old(buf)@.push(byte as char),
{
    if byte == LF {
        return true;
    }
    if byte != CR {
        buf.push(byte as char);
    }
    false
}

/// Read one CRLF-terminated line into `buf`.
///
/// `buf` is cleared first. `\r` is dropped; the line ends at the first `\n`
/// (which is also dropped). Non-ASCII bytes are pushed as `char` (lossy).
///
/// Returns:
///
/// - `Ok(true)` at the end of the stream. `buf` may be empty (no partial line)
///   or hold the trailing partial line. Callers can distinguish via
///   `buf.is_empty()` if they care.
/// - `Ok(false)` on a normal `\n`-terminated line.
pub fn read_crlf_line(r: &mut Incoming, buf: &mut String) -> (eof: Result<bool>)
    ensures
        eof matches Ok(e) && e == (line_end(old(r)@) == old(r)@.len()),
        final(buf)@ == line_text(old(r)@.take(line_end(old(r)@))),
        line_end(old(r)@) < old(r)@.len() ==> final(r)@ == old(r)@.skip(line_end(old(r)@) + 1),
        line_end(old(r)@) == old(r)@.len() ==> final(r)@ == Seq::<u8>::empty(),
{
    let ghost s = r@;
    let ghost mut i: int = 0;
    *buf = String::new();
    assert(s.skip(0) =~= s);
    assert(s.take(0) =~= Seq::<u8>::empty());
    loop
        invariant
            s == old(r)@,
            0 <= i <= s.len(),
            r@ == s.skip(i),
            buf@ == line_text(s.take(i)),
            forall|j: int| 0 <= j < i ==> s[j] != LF,
        decreases s.len() - i,
    {
        match r.next_byte() {
            None => {
                proof {
                    lemma_line_end_at(s, i);
                    assert(r@ =~= Seq::<u8>::empty());
                }
                return Ok(true);
            },
            Some(b) => {
                assert(b == s[i]);
                assert(r@ =~= s.skip(i + 1));
                if push_line_byte(buf, b) {
                    proof {
                        lemma_line_end_at(s, i);
                    }
                    return Ok(false);
                }
                proof {
                    assert(s.take(i + 1).drop_last() =~= s.take(i));
                    i = i + 1;
                }
            },
        }
    }
}

/// The bytes of a text whose characters are single bytes.
pub open spec fn latin1(t: Text) -> Seq<u8> {
    Seq::new(t.len(), |i: int| t[i] as u8)
}

/// A text that fits on a line: single bytes, neither `\r` nor `\n`.
pub open spec fn is_line(t: Text) -> bool {
    forall|i: int| 0 <= i < t.len() ==> #[trigger] t[i] <= '\u{ff}' && t[i] != '\r' && t[i]
        != '\n'
}

/// A character of one byte is read back from that byte.
proof fn lemma_byte_char(c: char)
    requires
        c <= '\u{ff}',
    ensures
        (c as u8) as char == c,
        c != '\r' ==> c as u8 != CR,
        c != '\n' ==> c as u8 != LF,
{
}

/// The bytes of a text are read back as that text.
pub proof fn lemma_line_text(t: Text)
    requires
        is_line(t),
    ensures
        line_text(latin1(t)) == t,
    decreases t.len(),
{
    let b = latin1(t);
    if t.len() > 0 {
        assert(b.drop_last() =~= latin1(t.drop_last()));
        assert(is_line(t.drop_last())) by {
            let front = t.drop_last();
            assert forall|i: int| 0 <= i < front.len() implies #[trigger] front[i] <= '\u{ff}'
                && front[i] != '\r' && front[i] != '\n' by {
                assert(front[i] == t[i]);
            }
        }
        lemma_line_text(t.drop_last());
        let c = t.last();
        assert(c == t[t.len() - 1]);
        assert(b.last() == c as u8);
        lemma_byte_char(c);
        assert(t =~= t.drop_last().push(c));
    } else {
        assert(b =~= Seq::<u8>::empty());
        assert(t =~= Seq::<char>::empty());
    }
}

/// The bytes of a line hold no `\n`.
pub proof fn lemma_line_bytes(t: Text)
    requires
        is_line(t),
    ensures
        forall|i: int| 0 <= i < t.len() ==> #[trigger] latin1(t)[i] != LF && latin1(t)[i] != CR,
{
    assert forall|i: int| 0 <= i < t.len() implies #[trigger] latin1(t)[i] != LF && latin1(t)[i]
        != CR by {
        let c = t[i];
        assert(latin1(t)[i] == c as u8);
        lemma_byte_char(c);
    }
}

/// A line that was sent with CRLF behind it is read back, and what follows it
/// stays to be read.
pub proof fn law_line_round_trip(t: Text, rest: Seq<u8>)
    requires
        is_line(t),
    ensures
        ({
            let s = latin1(t) + seq![CR, LF] + rest;
            &&& line_end(s) == t.len() + 1
            &&& line_text(s.take(line_end(s))) == t
            &&& s.skip(line_end(s) + 1) == rest
        }),
{
    let s = latin1(t) + seq![CR, LF] + rest;
    lemma_line_bytes(t);
    let n = t.len() as int;
    assert forall|i: int| 0 <= i < n + 1 implies s[i] != LF by {
        if i < n {
            assert(s[i] == latin1(t)[i]);
        }
    }
    lemma_line_end_at(s, n + 1);
    assert(s.take(n + 1).drop_last() =~= latin1(t));
    lemma_line_text(t);
    assert(s.skip(n + 2) =~= rest);
}

/// Every carriage return is dropped and every other byte is one character, wherever it
/// stands in the line.
pub proof fn law_line_bytes_kept(a: Seq<u8>, b: Seq<u8>, c: u8)
    ensures
        line_text(Seq::empty()) == Seq::<char>::empty(),
        line_text(seq![0x0Du8]) == Seq::<char>::empty(),
        c != 0x0D ==> line_text(seq![c]) == seq![c as char],
        line_text(a + b) == line_text(a) + line_text(b),
    decreases b.len(),
{
    reveal_with_fuel(line_text, 2);
    assert(seq![c].drop_last() =~= Seq::<u8>::empty());
    assert(seq![0x0Du8].drop_last() =~= Seq::<u8>::empty());
    assert(Seq::<char>::empty().push(c as char) =~= seq![c as char]);
    if b.len() == 0 {
        assert(a + b =~= a);
        assert(line_text(a) + line_text(b) =~= line_text(a));
    } else {
        let h = b.drop_last();
        law_line_bytes_kept(a, h, c);
        assert((a + b).drop_last() =~= a + h);
        assert((a + b).last() == b.last());
        assert(line_text(a + b) =~= line_text(a) + line_text(b));
    }
}

/// A line ends at its first line feed, with or without a carriage return before it.
pub proof fn law_line_feed(a: Seq<u8>, rest: Seq<u8>)
    requires
        forall|i: int| 0 <= i < a.len() ==> #[trigger] a[i] != 0x0A,
    ensures
        line_end(a) == a.len(),
        line_end(a + seq![0x0Au8] + rest) == a.len(),
{
    let s = a + seq![0x0Au8] + rest;
    lemma_line_end_at(a, a.len() as int);
    assert forall|i: int| 0 <= i < a.len() implies s[i] != LF by {
        assert(s[i] == a[i]);
    }
    lemma_line_end_at(s, a.len() as int);
}

} // verus!

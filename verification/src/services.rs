//! Service names, in the format of `/etc/services`.

use vstd::prelude::*;
use vstd::slice::slice_subrange;
use vstd::string::*;

use crate::number::laws::law_number_read;
use crate::number::{decimal, is_digit, lemma_decimal_value, parse_number, read_number};
use crate::text::laws::{all_space, is_word, law_lines, law_split, law_words};
use crate::text::{
    chars_of, find, find_char, holds, is_space, is_text, lemma_find, lemma_find_at, lines, pieces,
    split, split_at_char, split_lines, split_words, words, Text,
};

verus! {

/// A line without its comment.
pub open spec fn uncommented(line: Text) -> Text {
    line.take(find(line, '#'))
}

/// Whether a word stands for the service on a line: its name or an alias.
pub open spec fn names_service(w: Seq<Text>, name: Text) -> bool {
    exists|i: int| 0 <= i < w.len() && i != 1 && #[trigger] w[i] == name
}

/// The TCP port that a line gives a service: `name port/tcp alias...`.
pub open spec fn line_port(line: Text, name: Text) -> Option<u16> {
    let w = words(uncommented(line));
    if w.len() < 2 || !names_service(w, name) {
        None
    } else {
        let p = split(w[1], '/');
        if p.len() == 2 && p[1] == "tcp"@ && parse_number(p[0], 0xffff) is Some {
            Some(parse_number(p[0], 0xffff)->0 as u16)
        } else {
            None
        }
    }
}

/// The TCP port that the first line to give one gives a service.
pub open spec fn port_in(ls: Seq<Text>, name: Text) -> Option<u16>
    decreases ls.len(),
{
    if ls.len() == 0 {
        None
    } else if line_port(ls[0], name) is Some {
        line_port(ls[0], name)
    } else {
        port_in(ls.drop_first(), name)
    }
}

/// The TCP port of a service.
pub open spec fn service_port(services: Text, name: Text) -> Option<u16> {
    port_in(lines(services), name)
}

fn read_line_port(line: &[char], name: &str) -> (r: Option<u16>)
    ensures
        r == line_port(line@, name@),
{
    proof {
        lemma_find(line@, '#');
    }
    let n = line.len();
    let end = match find_char(line, '#') {
        Some(i) => i,
        None => n,
    };
    let body = slice_subrange(line, 0, end);
    assert(body@ =~= uncommented(line@));
    let w = split_words(body);
    let ghost ws = pieces(w@);
    if w.len() < 2 {
        return None;
    }
    let mut named = false;
    for i in 0..w.len()
        invariant
            ws == pieces(w@),
            named <==> exists|j: int| 0 <= j < i && j != 1 && #[trigger] ws[j] == name@,
    {
        assert(ws[i as int] == w@[i as int]@);
        if i != 1 && is_text(w[i].as_slice(), name) {
            named = true;
        }
    }
    if !named {
        return None;
    }
    assert(ws[1] == w@[1]@);
    let p = split_at_char(w[1].as_slice(), '/');
    let ghost ps = pieces(p@);
    if p.len() != 2 {
        return None;
    }
    assert(ps[0] == p@[0]@ && ps[1] == p@[1]@);
    if !is_text(p[1].as_slice(), "tcp") {
        return None;
    }
    match read_number(p[0].as_slice(), 0xffff) {
        Some(k) => Some(k as u16),
        None => None,
    }
}

/// Looks a service up.
pub fn find_service(services: &str, name: &str) -> (r: Option<u16>)
    ensures
        r == service_port(services@, name@),
{
    let v = chars_of(services);
    let ls = split_lines(v.as_slice());
    let ghost all = pieces(ls@);
    assert(all.skip(0) =~= all);
    for i in 0..ls.len()
        invariant
            all == pieces(ls@),
            all == lines(services@),
            port_in(all.skip(i as int), name@) == port_in(all, name@),
    {
        assert(all.skip(i as int)[0] == ls@[i as int]@);
        assert(all.skip(i as int).drop_first() =~= all.skip(i + 1));
        let p = read_line_port(ls[i].as_slice(), name);
        if p.is_some() {
            return p;
        }
    }
    None
}

// ---- Laws ----

/// The protocol behind a port, as a line writes it.
spec fn port_word(port: u16, protocol: Text) -> Text {
    decimal(port as nat) + seq!['/'] + protocol
}

/// A line that names a service, its port and its protocol, then aliases.
pub open spec fn service_line(
    lead: Text,
    name: Text,
    gap: Text,
    port: u16,
    protocol: Text,
    aliases: Text,
) -> Text {
    lead + name + gap + (decimal(port as nat) + seq!['/'] + protocol) + aliases
}

/// What can stand on such a line.
pub open spec fn is_service_line(
    lead: Text,
    name: Text,
    gap: Text,
    protocol: Text,
    aliases: Text,
) -> bool {
    &&& all_space(lead)
    &&& is_word(name) && !holds(name, '#')
    &&& gap.len() > 0 && all_space(gap)
    &&& is_word(protocol) && !holds(protocol, '#') && !holds(protocol, '/')
    &&& (aliases.len() > 0 ==> is_space(aliases[0])) && !holds(aliases, '#')
}

/// The words of such a line are the name, the port with its protocol, and the aliases.
proof fn lemma_service_words(
    lead: Text,
    name: Text,
    gap: Text,
    port: u16,
    protocol: Text,
    aliases: Text,
)
    requires
        is_service_line(lead, name, gap, protocol, aliases),
    ensures
        ({
            let l = service_line(lead, name, gap, port, protocol, aliases);
            &&& uncommented(l) == l
            &&& words(l) == seq![name, port_word(port, protocol)] + words(aliases)
            &&& split(port_word(port, protocol), '/') == seq![decimal(port as nat), protocol]
            &&& parse_number(decimal(port as nat), 0xffff) == Some(port as nat)
        }),
{
    let d = decimal(port as nat);
    let w = port_word(port, protocol);
    let l = service_line(lead, name, gap, port, protocol, aliases);
    lemma_decimal_value(port as nat);
    let k = d.len() as int;
    assert forall|i: int| 0 <= i < w.len() implies !is_space(#[trigger] w[i]) && w[i] != '#' by {
        lemma_find(protocol, '#');
        if i < k {
            assert(w[i] == d[i]);
            assert(is_digit(d[i]));
        } else if i > k {
            assert(w[i] == protocol[i - k - 1]);
        }
    }
    assert(is_word(w));
    assert(gap[0] == (gap + w + aliases)[0]);
    assert(is_space(gap[0]));
    law_words(lead, name, gap + w + aliases);
    law_words(gap, w, aliases);
    assert(l =~= lead + name + (gap + w + aliases));
    assert(seq![name] + (seq![w] + words(aliases)) =~= seq![name, w] + words(aliases));
    assert forall|i: int| 0 <= i < d.len() implies d[i] != '/' by {
        assert(is_digit(d[i]));
    }
    lemma_find_at(d, '/', k);
    law_split(d, protocol, '/');
    law_split(protocol, Seq::empty(), '/');
    assert(seq![d] + seq![protocol] =~= seq![d, protocol]);
    law_number_read(port as nat, 0, 0xffff);
    assert(Seq::new(0, |i: int| '0') + d =~= d);
    // No comment.
    lemma_find(name, '#');
    lemma_find(aliases, '#');
    let n1 = lead.len() as int;
    let n2 = n1 + name.len();
    let n3 = n2 + gap.len();
    let n4 = n3 + w.len();
    assert forall|i: int| 0 <= i < l.len() implies l[i] != '#' by {
        if i < n1 {
            assert(l[i] == lead[i]);
            assert(is_space(lead[i]));
        } else if i < n2 {
            assert(l[i] == name[i - n1]);
        } else if i < n3 {
            assert(l[i] == gap[i - n2]);
            assert(is_space(gap[i - n2]));
        } else if i < n4 {
            assert(l[i] == w[i - n3]);
        } else {
            assert(l[i] == aliases[i - n4]);
        }
    }
    lemma_find_at(l, '#', l.len() as int);
    assert(l.take(l.len() as int) =~= l);
}

/// A line gives its TCP port to the service that it names and to each of its aliases,
/// and to no other; the port of another protocol counts for nothing.
pub proof fn law_service_line(
    lead: Text,
    name: Text,
    gap: Text,
    port: u16,
    protocol: Text,
    aliases: Text,
    wanted: Text,
)
    requires
        is_service_line(lead, name, gap, protocol, aliases),
    ensures
        ({
            let l = service_line(lead, name, gap, port, protocol, aliases);
            let named = wanted == name || words(aliases).contains(wanted);
            line_port(l, wanted) == (if named && protocol == seq!['t', 'c', 'p'] {
                Some(port)
            } else {
                None
            })
        }),
{
    let l = service_line(lead, name, gap, port, protocol, aliases);
    lemma_service_words(lead, name, gap, port, protocol, aliases);
    let w = words(l);
    reveal_strlit("tcp");
    assert("tcp"@ =~= seq!['t', 'c', 'p']);
    assert(w[0] == name);
    assert(w[1] == port_word(port, protocol));
    if words(aliases).contains(wanted) {
        let k = choose|k: int| 0 <= k < words(aliases).len() && words(aliases)[k] == wanted;
        assert(w[k + 2] == wanted);
    }
    if names_service(w, wanted) {
        let k = choose|k: int| 0 <= k < w.len() && k != 1 && #[trigger] w[k] == wanted;
        if k >= 2 {
            assert(words(aliases)[k - 2] == wanted);
        }
    }
}

/// What stands behind `#` counts for nothing.
pub proof fn law_service_comment(l: Text, comment: Text, name: Text)
    requires
        !holds(l, '#'),
    ensures
        line_port(l + seq!['#'] + comment, name) == line_port(l, name),
{
    let s = l + seq!['#'] + comment;
    let n = l.len() as int;
    lemma_find(l, '#');
    assert forall|i: int| 0 <= i < n implies s[i] != '#' by {
        assert(s[i] == l[i]);
    }
    lemma_find_at(s, '#', n);
    assert(s.take(n) =~= l);
    assert(l.take(n) =~= l);
}

/// The first line that gives a service its port decides.
pub proof fn law_services_in_order(l: Text, rest: Text, name: Text)
    requires
        !holds(l, '\n'),
        l.len() > 0 ==> l.last() != '\r',
    ensures
        service_port(Seq::empty(), name) is None,
        service_port(l + seq!['\n'] + rest, name) == (match line_port(l, name) {
            Some(p) => Some(p),
            None => service_port(rest, name),
        }),
{
    law_lines(l, rest);
    let ls = seq![l] + lines(rest);
    assert(ls[0] == l);
    assert(ls.drop_first() =~= lines(rest));
}

} // verus!

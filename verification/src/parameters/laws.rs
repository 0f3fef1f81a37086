//! What holds of every parameter file and of every lookup.

use vstd::prelude::*;
use vstd::string::*;

use crate::number::decimal;
use crate::parameters::{
    all_reports, apply_line, apply_lines, entry, files_table, is_known_key, lemma_known_key,
    line_report, line_reports, param, ParamFile, ParamsView,
};
use crate::text::laws::{all_space, is_tight, law_trim, lemma_tight, lemma_trim_start};
use crate::text::{
    holds, is_space, lemma_find, lemma_find_at, lines, lowered, trim_start, Text,
};

verus! {

// ---- Keys ----

/// The keys that a file may set are these, written in lower case.
pub proof fn law_documented_keys(k: Text)
    ensures
        is_known_key(k) <==> {
            ||| k == "socks_server"@ || k == "socks5_server"@ || k == "socks4_server"@
            ||| k == "socks_resolve"@ || k == "socks5_resolve"@ || k == "socks4_resolve"@
            ||| k == "socks_direct"@ || k == "socks5_direct"@ || k == "socks4_direct"@
            ||| k == "socks5_user"@ || k == "socks5_passwd"@ || k == "socks5_password"@
            ||| k == "http_proxy"@ || k == "http_proxy_user"@ || k == "http_proxy_password"@
            ||| k == "connect_user"@ || k == "connect_password"@
            ||| k == "http_direct"@ || k == "connect_direct"@
            ||| k == "ssh_askpass"@ || k == "socks5_auth"@
        },
{
}

// ---- Lines ----

/// White space is no sign of the format.
proof fn lemma_space_signs(s: Text)
    requires
        all_space(s),
    ensures
        forall|i: int| 0 <= i < s.len() ==> #[trigger] s[i] != '#' && s[i] != '=',
{
    assert forall|i: int| 0 <= i < s.len() implies #[trigger] s[i] != '#' && s[i] != '=' by {
        assert(is_space(s[i]));
    }
}

/// A line that sets a known key sets it to the value between the first `=` and the
/// end, without the white space around it; white space before and behind the key is
/// of no account, there or not. Nothing is reported.
pub proof fn law_setting_line(
    t: Map<Text, Text>,
    file: Text,
    n: nat,
    lead: Text,
    k: Text,
    a: Text,
    b: Text,
    v: Text,
    tail: Text,
)
    requires
        is_known_key(k),
        all_space(lead),
        all_space(a),
        all_space(b),
        all_space(tail),
        is_tight(v),
        !holds(v, '#'),
    ensures
        ({
            let line = lead + k + a + seq!['='] + b + v + tail;
            apply_line(t, line) == t.insert(k, v) && line_report(file, n, line) is None
        }),
{
    let line = lead + k + a + seq!['='] + b + v + tail;
    lemma_known_key(k);
    lemma_space_signs(lead);
    lemma_space_signs(a);
    lemma_space_signs(b);
    lemma_space_signs(tail);
    lemma_find(v, '#');
    let code = k + a + seq!['='] + b + v + tail;
    assert(line =~= lead + code);
    let m = k.len() as int;
    let e = m + a.len();
    let w = e + 1 + b.len();
    assert forall|i: int| 0 <= i < code.len() implies code[i] != '#' by {
        if i < m {
            assert(code[i] == k[i]);
        } else if i < e {
            assert(code[i] == a[i - m]);
        } else if e < i < w {
            assert(code[i] == b[i - e - 1]);
        } else if w <= i < w + v.len() {
            assert(code[i] == v[i - w]);
        } else if i >= w + v.len() {
            assert(code[i] == tail[i - w - v.len()]);
        }
    }
    assert forall|i: int| 0 <= i < line.len() implies line[i] != '#' by {
        if i < lead.len() {
            assert(line[i] == lead[i]);
        } else {
            assert(line[i] == code[i - lead.len()]);
        }
    }
    lemma_find_at(line, '#', line.len() as int);
    assert(line.take(line.len() as int) =~= line);
    assert(code[0] == k[0]);
    lemma_trim_start(lead, code);
    assert forall|i: int| 0 <= i < e implies code[i] != '=' by {
        if i < m {
            assert(code[i] == k[i]);
        } else {
            assert(code[i] == a[i - m]);
        }
    }
    lemma_find_at(code, '=', e);
    assert(code.take(e) =~= Seq::<char>::empty() + k + a);
    assert(!is_space(k[m - 1]));
    law_trim(Seq::empty(), k, a);
    assert(code.skip(e + 1) =~= b + v + tail);
    law_trim(b, v, tail);
}

/// A line of white space sets nothing and is not reported, and neither is a comment.
pub proof fn law_blank_line(t: Map<Text, Text>, file: Text, n: nat, lead: Text, comment: Text)
    requires
        all_space(lead),
    ensures
        apply_line(t, lead) == t && line_report(file, n, lead) is None,
        apply_line(t, lead + seq!['#'] + comment) == t,
        line_report(file, n, lead + seq!['#'] + comment) is None,
{
    lemma_space_signs(lead);
    let m = lead.len() as int;
    lemma_find_at(lead, '#', m);
    assert(lead.take(m) =~= lead);
    let s = lead + seq!['#'] + comment;
    assert forall|i: int| 0 <= i < m implies s[i] != '#' by {
        assert(s[i] == lead[i]);
    }
    lemma_find_at(s, '#', m);
    assert(s.take(m) =~= lead);
    lemma_trim_start(lead, Seq::empty());
    assert(lead + Seq::<char>::empty() =~= lead);
}

/// A line that says something without `=` sets nothing and is reported with its
/// place.
pub proof fn law_line_without_equals(t: Map<Text, Text>, file: Text, n: nat, line: Text)
    requires
        !holds(line, '#'),
        !holds(line, '='),
        exists|i: int| 0 <= i < line.len() && !is_space(#[trigger] line[i]),
    ensures
        apply_line(t, line) == t,
        line_report(file, n, line) == Some(
            file + ":"@ + decimal(n) + ": "@ + "missing `='"@,
        ),
{
    lemma_find(line, '#');
    lemma_find(line, '=');
    assert(line.take(line.len() as int) =~= line);
    lemma_trim_start_part(line);
    let s = trim_start(line);
    let k = line.len() - s.len();
    assert forall|i: int| 0 <= i < s.len() implies s[i] != '=' by {
        assert(s[i] == line[k + i]);
    }
    lemma_find_at(s, '=', s.len() as int);
}

/// What is left of a text at its start trimmed is its end, and all of it but white
/// space.
proof fn lemma_trim_start_part(s: Text)
    ensures
        trim_start(s).len() <= s.len(),
        trim_start(s) == s.skip(s.len() - trim_start(s).len()),
        forall|i: int| 0 <= i < s.len() - trim_start(s).len() ==> is_space(#[trigger] s[i]),
        trim_start(s).len() == 0 ==> all_space(s),
    decreases s.len(),
{
    if s.len() > 0 && is_space(s[0]) {
        let t = s.drop_first();
        lemma_trim_start_part(t);
        let k = t.len() - trim_start(t).len();
        assert(t.skip(k) =~= s.skip(k + 1));
        assert forall|i: int| 0 <= i < k + 1 implies is_space(#[trigger] s[i]) by {
            if i > 0 {
                assert(t[i - 1] == s[i]);
            }
        }
        assert(trim_start(t).len() == 0 ==> all_space(s)) by {
            if trim_start(t).len() == 0 {
                assert forall|i: int| 0 <= i < s.len() implies is_space(#[trigger] s[i]) by {
                    if i > 0 {
                        assert(t[i - 1] == s[i]);
                    }
                }
            }
        }
    } else {
        assert(s.skip(0) =~= s);
    }
}

/// A line with another key sets nothing and is reported with its place and the key;
/// one without a key is reported too.
pub proof fn law_line_of_another_key(t: Map<Text, Text>, file: Text, n: nat, k: Text, v: Text)
    requires
        !is_known_key(k),
        is_tight(k),
        !holds(k, '#'),
        !holds(k, '='),
        !holds(v, '#'),
    ensures
        ({
            let line = k + seq!['='] + v;
            &&& apply_line(t, line) == t
            &&& k.len() > 0 ==> line_report(file, n, line) == Some(
                file + ":"@ + decimal(n) + ": "@ + "unknown parameter `"@ + k + "'"@,
            )
            &&& k.len() == 0 ==> line_report(file, n, line) == Some(
                file + ":"@ + decimal(n) + ": "@ + "empty key"@,
            )
        }),
{
    let line = k + seq!['='] + v;
    lemma_find(k, '#');
    lemma_find(k, '=');
    lemma_find(v, '#');
    let m = k.len() as int;
    assert forall|i: int| 0 <= i < line.len() implies line[i] != '#' by {
        if i < m {
            assert(line[i] == k[i]);
        } else if i > m {
            assert(line[i] == v[i - m - 1]);
        }
    }
    lemma_find_at(line, '#', line.len() as int);
    assert(line.take(line.len() as int) =~= line);
    assert(line[0] == if m > 0 {
        k[0]
    } else {
        '='
    });
    assert(trim_start(line) == line);
    assert forall|i: int| 0 <= i < m implies line[i] != '=' by {
        assert(line[i] == k[i]);
    }
    lemma_find_at(line, '=', m);
    assert(line.take(m) =~= k);
    lemma_tight(k);
}

/// Reports come in the order of the lines, each with the number of its line, the
/// first being 1.
pub proof fn law_reports_in_order(file: Text, ls: Seq<Text>, l: Text)
    ensures
        line_reports(file, Seq::<Text>::empty()) == Seq::<Text>::empty(),
        line_reports(file, ls.push(l)) == (match line_report(file, ls.len() + 1, l) {
            Some(m) => line_reports(file, ls).push(m),
            None => line_reports(file, ls),
        }),
{
    assert(ls.push(l).drop_last() =~= ls);
}

/// Every line of a file is read: one that is added sets its key whatever stands
/// before it.
pub proof fn law_every_line_counts(t: Map<Text, Text>, ls: Seq<Text>, l: Text)
    ensures
        apply_lines(t, Seq::<Text>::empty()) == t,
        apply_lines(t, ls.push(l)) == apply_line(apply_lines(t, ls), l),
{
    assert(ls.push(l).drop_last() =~= ls);
}

// ---- Files ----

/// A parameter of the user's file wins over the system's, one that only the system's
/// has is kept, and a file that is missing takes nothing away.
pub proof fn law_user_file_wins(
    system: Option<ParamFile>,
    user: Option<ParamFile>,
    k: Text,
)
    ensures
        user matches Some(u) ==> ({
            let own = entry(apply_lines(Map::empty(), lines(u.content@)), k);
            entry(files_table(system, user), k) == (if own is Some {
                own
            } else {
                entry(files_table(system, None), k)
            })
        }),
        user is None ==> (system matches Some(s) ==> files_table(system, user) == apply_lines(
            Map::empty(),
            lines(s.content@),
        )),
        user is None && system is None ==> files_table(system, user) == Map::<
            Text,
            Text,
        >::empty(),
{
    if let Some(u) = user {
        let first = files_table(system, None);
        lemma_lines_over(first, lines(u.content@), k);
    }
}

/// The reports of both files are there, the system's before the user's, each with the
/// path of its file.
pub proof fn law_reports_of_files(system: ParamFile, user: ParamFile)
    ensures
        all_reports(Some(system), Some(user)) == line_reports(
            system.path@,
            lines(system.content@),
        ) + line_reports(user.path@, lines(user.content@)),
        all_reports(Some(system), None) == line_reports(system.path@, lines(system.content@)),
        all_reports(None, Some(user)) == line_reports(user.path@, lines(user.content@)),
        all_reports(None, None) == Seq::<Text>::empty(),
{
    let e = Seq::<Text>::empty();
    let s = line_reports(system.path@, lines(system.content@));
    let u = line_reports(user.path@, lines(user.content@));
    assert(s + e =~= s);
    assert(e + u =~= u);
    assert(e + e =~= e);
}

/// Lines decide a key that they set on their own, and leave every other.
proof fn lemma_lines_over(t: Map<Text, Text>, ls: Seq<Text>, k: Text)
    ensures
        entry(apply_lines(t, ls), k) == (match entry(apply_lines(Map::empty(), ls), k) {
            Some(v) => Some(v),
            None => entry(t, k),
        }),
    decreases ls.len(),
{
    if ls.len() > 0 {
        lemma_lines_over(t, ls.drop_last(), k);
    }
}

// ---- Lookup ----

/// A variable that says something is the value; otherwise the file's value of the
/// name in lower case is; and the value of any other name is of no account.
pub proof fn law_lookup(p: ParamsView, name: Text, other: Text, v: Text)
    requires
        other != name,
        lowered(other) != lowered(name),
    ensures
        v.len() > 0 ==> param(ParamsView { vars: p.vars.insert(name, v), ..p }, name) == Some(v),
        param(
            ParamsView {
                vars: p.vars.remove(name),
                file: p.file.insert(lowered(name), v),
            },
            name,
        ) == Some(v),
        param(
            ParamsView {
                vars: p.vars.insert(name, Seq::empty()),
                file: p.file.insert(lowered(name), v),
            },
            name,
        ) == Some(v),
        param(
            ParamsView { vars: p.vars.remove(name), file: p.file.remove(lowered(name)) },
            name,
        ) is None,
        param(
            ParamsView {
                vars: p.vars.insert(other, v),
                file: p.file.insert(lowered(other), v),
            },
            name,
        ) == param(p, name),
{
}

} // verus!

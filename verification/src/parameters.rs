//! Parameters from the environment and from `/etc/connectrc` and `~/.connectrc`.
//!
//! The format of a parameter file:
//!
//! - One `KEY = VALUE` per line.
//! - `#` starts a comment to end of line.
//! - Whitespace around KEY and VALUE is stripped.
//! - Empty lines and `#` lines are skipped.
//! - Unknown keys are reported and skipped.
//! - Lines without `=` are reported as errors.
//!
//! After reading, `getparam(name)` looks up `name`: the environment variable
//! first, then the value from the parameter files. Keys are written in lower case
//! in the files; a lookup there takes the lower case of the name, so that
//! `SOCKS5_USER` finds `socks5_user`.

pub mod laws;

use vstd::prelude::*;
use vstd::slice::slice_subrange;
use vstd::string::*;

use crate::number::{decimal, decimal_of};
use crate::text::{
    chars_of, concat, cut, cut_start, find, find_char, holds, is_space, is_text, lemma_find,
    lemma_find_at, lines, lowered, opt_text, pieces, same_text, split_lines, string_of, texts,
    to_lower, trim, trim_end, trim_start, Text,
};

verus! {

// ---- Tables ----

/// Named values; at most one for each name.
pub struct Table {
    /// Later entries replace earlier ones.
    entries: Vec<(String, String)>,
}

/// What a list of entries says, the last of a name first.
closed spec fn table_of(s: Seq<(String, String)>) -> Map<Text, Text>
    decreases s.len(),
{
    if s.len() == 0 {
        Map::empty()
    } else {
        table_of(s.drop_last()).insert(s.last().0@, s.last().1@)
    }
}

impl View for Table {
    type V = Map<Text, Text>;

    closed spec fn view(&self) -> Map<Text, Text> {
        table_of(self.entries@)
    }
}

/// The value of a name, where the table has one.
pub open spec fn entry(t: Map<Text, Text>, name: Text) -> Option<Text> {
    if t.dom().contains(name) {
        Some(t[name])
    } else {
        None
    }
}

impl Table {
    /// A table without entries.
    pub fn new() -> (r: Table)
        ensures
            r@ == Map::<Text, Text>::empty(),
    {
        Table { entries: Vec::new() }
    }

    /// Sets the value of a name.
    pub fn insert(&mut self, name: &str, value: &str)
        ensures
            final(self)@ == old(self)@.insert(name@, value@),
    {
        self.entries.push((name.to_owned(), value.to_owned()));
        assert(self.entries@.drop_last() =~= old(self).entries@);
    }

    /// Takes every entry out.
    pub fn clear(&mut self)
        ensures
            final(self)@ == Map::<Text, Text>::empty(),
    {
        self.entries.clear();
    }

    /// Whether there is no entry.
    pub fn is_empty(&self) -> (r: bool)
        ensures
            r == (self@ == Map::<Text, Text>::empty()),
    {
        let r = self.entries.len() == 0;
        if !r {
            assert(self@.dom().contains(self.entries@.last().0@));
        }
        r
    }

    /// The value of a name.
    pub fn get(&self, name: &str) -> (r: Option<String>)
        ensures
            opt_text(r) == entry(self@, name@),
    {
        let mut n: usize = self.entries.len();
        assert(self.entries@.take(n as int) =~= self.entries@);
        while n > 0
            invariant
                n <= self.entries@.len(),
                entry(table_of(self.entries@.take(n as int)), name@) == entry(self@, name@),
            decreases n,
        {
            let ghost t = self.entries@.take(n as int);
            assert(t.drop_last() =~= self.entries@.take(n - 1));
            if same_text(self.entries[n - 1].0.as_str(), name) {
                return Some(self.entries[n - 1].1.clone());
            }
            n = n - 1;
        }
        None
    }
}

/// Where parameters come from.
pub struct Params {
    /// The environment variables.
    pub vars: Table,
    /// The parameter files; names in lower case.
    pub file: Table,
}

/// What parameters there are.
pub struct ParamsView {
    pub vars: Map<Text, Text>,
    pub file: Map<Text, Text>,
}

impl View for Params {
    type V = ParamsView;

    open spec fn view(&self) -> ParamsView {
        ParamsView { vars: self.vars@, file: self.file@ }
    }
}

impl Params {
    /// No environment variable and no parameter file.
    pub fn new() -> (r: Params)
        ensures
            r@ == (ParamsView { vars: Map::empty(), file: Map::empty() }),
    {
        Params { vars: Table::new(), file: Table::new() }
    }

    /// Sets a value as a parameter file would; the name in any case.
    pub fn set_file(&mut self, name: &str, value: &str)
        ensures
            final(self)@ == (ParamsView {
                vars: old(self)@.vars,
                file: old(self)@.file.insert(lowered(name@), value@),
            }),
    {
        let v = chars_of(name);
        let w = to_lower(v.as_slice());
        self.file.insert(string_of(w.as_slice()).as_str(), value);
    }
}

// ---- Lookup ----

/// The value of a parameter: a variable of that name that is not empty, or what
/// the parameter files say.
pub open spec fn param(p: ParamsView, name: Text) -> Option<Text> {
    if p.vars.dom().contains(name) && p.vars[name].len() > 0 {
        Some(p.vars[name])
    } else {
        entry(p.file, lowered(name))
    }
}

/// Look up a parameter by name. The environment variable wins; fall back to the
/// file table.
pub fn getparam(params: &Params, name: &str) -> (r: Option<String>)
    ensures
        opt_text(r) == param(params@, name@),
{
    if let Some(v) = params.vars.get(name) {
        if !v.as_str().is_empty() {
            return Some(v);
        }
    }
    let v = chars_of(name);
    let w = to_lower(v.as_slice());
    params.file.get(string_of(w.as_slice()).as_str())
}

// ---- Files ----

/// The parameters that a file may set.
pub open spec fn is_known_key(k: Text) -> bool {
    ||| k == "socks_server"@
    ||| k == "socks5_server"@
    ||| k == "socks4_server"@
    ||| k == "socks_resolve"@
    ||| k == "socks5_resolve"@
    ||| k == "socks4_resolve"@
    ||| k == "socks5_user"@
    ||| k == "socks5_passwd"@
    ||| k == "socks5_password"@
    ||| k == "http_proxy"@
    ||| k == "http_proxy_user"@
    ||| k == "http_proxy_password"@
    ||| k == "connect_user"@
    ||| k == "connect_password"@
    ||| k == "ssh_askpass"@
    ||| k == "socks5_direct"@
    ||| k == "socks4_direct"@
    ||| k == "socks_direct"@
    ||| k == "http_direct"@
    ||| k == "connect_direct"@
    ||| k == "socks5_auth"@
}

/// Whether a file may set the parameter.
pub fn known_key(k: &[char]) -> (r: bool)
    ensures
        r == is_known_key(k@),
{
    is_text(k, "socks_server") || is_text(k, "socks5_server") || is_text(k, "socks4_server")
        || is_text(k, "socks_resolve") || is_text(k, "socks5_resolve") || is_text(
        k,
        "socks4_resolve",
    ) || is_text(k, "socks5_user") || is_text(k, "socks5_passwd") || is_text(k, "socks5_password")
        || is_text(k, "http_proxy") || is_text(k, "http_proxy_user") || is_text(
        k,
        "http_proxy_password",
    ) || is_text(k, "connect_user") || is_text(k, "connect_password") || is_text(k, "ssh_askpass")
        || is_text(k, "socks5_direct") || is_text(k, "socks4_direct") || is_text(k, "socks_direct")
        || is_text(k, "http_direct") || is_text(k, "connect_direct") || is_text(k, "socks5_auth")
}

/// What one line of a parameter file is.
pub enum LineView {
    /// Empty or a comment.
    Blank,
    MissingEquals,
    EmptyKey,
    UnknownKey(Text),
    Entry(Text, Text),
}

/// How a line is read, up to its comment.
pub open spec fn read_line(raw: Text) -> LineView {
    let s = trim_start(raw.take(find(raw, '#')));
    let eq = find(s, '=');
    let key = trim(s.take(eq));
    if s.len() == 0 {
        LineView::Blank
    } else if eq >= s.len() {
        LineView::MissingEquals
    } else if key.len() == 0 {
        LineView::EmptyKey
    } else if !is_known_key(key) {
        LineView::UnknownKey(key)
    } else {
        LineView::Entry(key, trim(s.skip(eq + 1)))
    }
}

/// What a line does to the table.
pub open spec fn apply_line(t: Map<Text, Text>, raw: Text) -> Map<Text, Text> {
    match read_line(raw) {
        LineView::Entry(k, v) => t.insert(k, v),
        _ => t,
    }
}

/// Where a line stands, as reports name it.
pub open spec fn line_place(file: Text, lineno: nat) -> Text {
    file + ":"@ + decimal(lineno) + ": "@
}

/// What is reported of a line.
pub open spec fn line_report(file: Text, lineno: nat, raw: Text) -> Option<Text> {
    match read_line(raw) {
        LineView::MissingEquals => Some(line_place(file, lineno) + "missing `='"@),
        LineView::EmptyKey => Some(line_place(file, lineno) + "empty key"@),
        LineView::UnknownKey(k) => Some(
            line_place(file, lineno) + "unknown parameter `"@ + k + "'"@,
        ),
        _ => None,
    }
}

/// What lines do to the table, one after the other.
pub open spec fn apply_lines(t: Map<Text, Text>, ls: Seq<Text>) -> Map<Text, Text>
    decreases ls.len(),
{
    if ls.len() == 0 {
        t
    } else {
        apply_line(apply_lines(t, ls.drop_last()), ls.last())
    }
}

/// What is reported of lines, counted from one.
pub open spec fn line_reports(file: Text, ls: Seq<Text>) -> Seq<Text>
    decreases ls.len(),
{
    if ls.len() == 0 {
        Seq::empty()
    } else {
        match line_report(file, ls.len(), ls.last()) {
            Some(m) => line_reports(file, ls.drop_last()).push(m),
            None => line_reports(file, ls.drop_last()),
        }
    }
}

fn place_of(file: &str, lineno: usize) -> (r: String)
    ensures
        r@ == line_place(file@, lineno as nat),
{
    let mut r = concat(file, ":");
    r.append(decimal_of(lineno as u64).as_str());
    r.append(": ");
    r
}

/// Parse a single line into `table`: drop the comment that `#` starts; trim leading
/// whitespace; if nothing is left, skip; otherwise split on the first `=`; trim KEY
/// and VALUE. What is to be reported of the line is returned.
pub fn parse_line(file: &str, lineno: usize, raw: &str, table: &mut Table) -> (r: Option<String>)
    ensures
        final(table)@ == apply_line(old(table)@, raw@),
        opt_text(r) == line_report(file@, lineno as nat, raw@),
{
    let v = chars_of(raw);
    proof {
        lemma_find(raw@, '#');
    }
    let end = match find_char(v.as_slice(), '#') {
        Some(i) => i,
        None => v.len(),
    };
    let code = slice_subrange(v.as_slice(), 0, end);
    assert(code@ =~= raw@.take(find(raw@, '#')));
    let s = cut_start(code);
    if s.len() == 0 {
        return None;
    }
    let n = s.len();
    let eq = match find_char(s, '=') {
        Some(i) => i,
        None => {
            return Some(concat(place_of(file, lineno).as_str(), "missing `='"));
        },
    };
    let before = slice_subrange(s, 0, eq);
    let after = slice_subrange(s, eq + 1, n);
    assert(before@ =~= s@.take(eq as int));
    assert(after@ =~= s@.skip(eq + 1));
    let key = cut(before);
    if key.len() == 0 {
        return Some(concat(place_of(file, lineno).as_str(), "empty key"));
    }
    if !known_key(key) {
        let mut m = concat(place_of(file, lineno).as_str(), "unknown parameter `");
        m.append(string_of(key).as_str());
        m.append("'");
        return Some(m);
    }
    let value = cut(after);
    table.insert(string_of(key).as_str(), string_of(value).as_str());
    None
}

/// Read a single parameter file into `table`; what is to be reported is returned.
pub fn read_one(path: &str, content: &str, table: &mut Table) -> (r: Vec<String>)
    ensures
        final(table)@ == apply_lines(old(table)@, lines(content@)),
        texts(r@) == line_reports(path@, lines(content@)),
{
    let v = chars_of(content);
    let ls = split_lines(v.as_slice());
    let ghost all = pieces(ls@);
    let ghost t0 = table@;
    let mut r: Vec<String> = Vec::new();
    assert(all.take(0) =~= Seq::empty());
    assert(texts(r@) =~= Seq::empty());
    for i in 0..ls.len()
        invariant
            all == pieces(ls@),
            table@ == apply_lines(t0, all.take(i as int)),
            texts(r@) == line_reports(path@, all.take(i as int)),
    {
        let ghost upto = all.take(i + 1);
        assert(upto.drop_last() =~= all.take(i as int));
        assert(upto.last() == ls@[i as int]@);
        let raw = string_of(ls[i].as_slice());
        let ghost before = texts(r@);
        if let Some(m) = parse_line(path, i + 1, raw.as_str(), table) {
            r.push(m);
            assert(texts(r@) =~= before.push(m@));
        }
    }
    assert(all.take(ls@.len() as int) =~= all);
    r
}

/// A parameter file: where it was found and what it holds.
pub struct ParamFile {
    pub path: String,
    pub content: String,
}

/// The lines of a file; of one that could not be read, none.
pub open spec fn file_lines(f: Option<ParamFile>) -> Seq<Text> {
    match f {
        Some(f) => lines(f.content@),
        None => Seq::empty(),
    }
}

/// What is reported of a file.
pub open spec fn file_reports(f: Option<ParamFile>) -> Seq<Text> {
    match f {
        Some(f) => line_reports(f.path@, lines(f.content@)),
        None => Seq::empty(),
    }
}

/// The table that the system's file and then the user's file fill.
pub open spec fn files_table(
    system: Option<ParamFile>,
    user: Option<ParamFile>,
) -> Map<Text, Text> {
    apply_lines(apply_lines(Map::empty(), file_lines(system)), file_lines(user))
}

/// What is reported of the system's file and then of the user's.
pub open spec fn all_reports(system: Option<ParamFile>, user: Option<ParamFile>) -> Seq<Text> {
    file_reports(system) + file_reports(user)
}

/// Read the system's `/etc/connectrc`, then the user's `~/.connectrc`, into an
/// emptied table. Later files overwrite earlier ones. A file that could not be
/// read is left out; this call is infallible and intended to run unconditionally
/// at startup. What is to be reported is returned.
pub fn read_all(
    table: &mut Table,
    system: &Option<ParamFile>,
    user: &Option<ParamFile>,
) -> (r: Vec<String>)
    ensures
        final(table)@ == files_table(*system, *user),
        texts(r@) == all_reports(*system, *user),
{
    table.clear();
    let mut r: Vec<String> = Vec::new();
    if let Some(f) = system {
        r = read_one(f.path.as_str(), f.content.as_str(), table);
    }
    assert(texts(r@) =~= file_reports(*system));
    if let Some(f) = user {
        let ghost before = r@;
        let mut more = read_one(f.path.as_str(), f.content.as_str(), table);
        let ghost added = more@;
        r.append(&mut more);
        assert(texts(r@) =~= texts(before) + texts(added));
    }
    assert(texts(r@) =~= file_reports(*system) + file_reports(*user));
    r
}

// ---- Laws ----

/// Files set no other parameters than the known ones.
pub proof fn law_only_known_keys(t: Map<Text, Text>, ls: Seq<Text>, k: Text)
    requires
        apply_lines(t, ls).dom().contains(k),
    ensures
        t.dom().contains(k) || is_known_key(k),
    decreases ls.len(),
{
    if ls.len() > 0 {
        let u = apply_lines(t, ls.drop_last());
        if u.dom().contains(k) {
            law_only_known_keys(t, ls.drop_last(), k);
        }
    }
}

/// The last line that sets a parameter decides, in whichever file it stands.
pub proof fn law_last_line_decides(t: Map<Text, Text>, ls: Seq<Text>, i: int, k: Text, v: Text)
    requires
        0 <= i < ls.len(),
        read_line(ls[i]) == LineView::Entry(k, v),
        forall|j: int|
            i < j < ls.len() ==> !(read_line(#[trigger] ls[j]) matches LineView::Entry(l, _) && l
                == k),
    ensures
        entry(apply_lines(t, ls), k) == Some(v),
    decreases ls.len(),
{
    if i < ls.len() - 1 {
        let h = ls.drop_last();
        assert(h[i] == ls[i]);
        assert forall|j: int| i < j < h.len() implies !(read_line(
            #[trigger] h[j],
        ) matches LineView::Entry(l, _) && l == k) by {
            assert(h[j] == ls[j]);
        }
        law_last_line_decides(t, h, i, k, v);
        assert(ls.last() == ls[ls.len() - 1]);
    }
}

/// What the user's file sets replaces what the system's file sets.
pub proof fn law_files_in_order(t: Map<Text, Text>, first: Seq<Text>, second: Seq<Text>)
    ensures
        apply_lines(apply_lines(t, first), second) == apply_lines(t, first + second),
    decreases second.len(),
{
    if second.len() == 0 {
        assert(first + second =~= first);
    } else {
        law_files_in_order(t, first, second.drop_last());
        assert((first + second).drop_last() =~= first + second.drop_last());
        assert((first + second).last() == second.last());
    }
}

/// A variable that is not empty wins over the parameter files; one that is empty
/// or not set does not hide them.
pub proof fn law_environment_first(p: ParamsView, name: Text)
    ensures
        p.vars.dom().contains(name) && p.vars[name].len() > 0 ==> param(p, name) == Some(
            p.vars[name],
        ),
        !p.vars.dom().contains(name) || p.vars[name].len() == 0 ==> param(p, name) == entry(
            p.file,
            lowered(name),
        ),
{
}

/// A line `KEY = VALUE` with a known key sets it.
pub proof fn law_key_value_line(k: Text, v: Text)
    requires
        is_known_key(k),
        trim(v) == v,
        !holds(v, '#'),
    ensures
        read_line(k + " = "@ + v) == LineView::Entry(k, v),
{
    reveal_strlit(" = ");
    let s = k + " = "@ + v;
    lemma_known_key(k);
    lemma_find(v, '#');
    assert forall|i: int| 0 <= i < s.len() implies s[i] != '#' by {
        if i < k.len() {
            assert(s[i] == k[i]);
        } else if i >= k.len() + 3 {
            assert(s[i] == v[i - k.len() - 3]);
        }
    }
    lemma_find_at(s, '#', s.len() as int);
    assert(s.take(s.len() as int) =~= s);
    let n = k.len() as int;
    assert(s[0] == k[0]);
    assert(trim_start(s) == s);
    assert forall|i: int| 0 <= i < n + 1 implies s[i] != '=' by {
        if i < n {
            assert(s[i] == k[i]);
        }
    }
    lemma_find_at(s, '=', n + 1);
    let before = s.take(n + 1);
    assert(before.drop_last() =~= k);
    assert(before[0] == k[0]);
    assert(before.last() == ' ');
    reveal_with_fuel(trim_end, 2);
    assert(trim(before) =~= k);
    let after = s.skip(n + 2);
    assert(after.drop_first() =~= v);
    assert(after[0] == ' ');
    assert(trim_start(after) == trim_start(v));
}

/// What stands behind `#` counts for nothing.
pub proof fn law_comment(line: Text, comment: Text)
    requires
        !holds(line, '#'),
    ensures
        read_line(line + "#"@ + comment) == read_line(line),
{
    reveal_strlit("#");
    let s = line + "#"@ + comment;
    let n = line.len() as int;
    lemma_find(line, '#');
    assert forall|i: int| 0 <= i < n implies s[i] != '#' by {
        assert(s[i] == line[i]);
    }
    lemma_find_at(s, '#', n);
    assert(s.take(n) =~= line);
    assert(line.take(n) =~= line);
}

/// A known key is letters, digits and underscores.
pub proof fn lemma_known_key(k: Text)
    requires
        is_known_key(k),
    ensures
        k.len() > 0,
        forall|i: int|
            0 <= i < k.len() ==> k[i] != '=' && k[i] != '#' && !is_space(#[trigger] k[i]),
{
    reveal_strlit("socks_server");
    reveal_strlit("socks5_server");
    reveal_strlit("socks4_server");
    reveal_strlit("socks_resolve");
    reveal_strlit("socks5_resolve");
    reveal_strlit("socks4_resolve");
    reveal_strlit("socks5_user");
    reveal_strlit("socks5_passwd");
    reveal_strlit("socks5_password");
    reveal_strlit("http_proxy");
    reveal_strlit("http_proxy_user");
    reveal_strlit("http_proxy_password");
    reveal_strlit("connect_user");
    reveal_strlit("connect_password");
    reveal_strlit("ssh_askpass");
    reveal_strlit("socks5_direct");
    reveal_strlit("socks4_direct");
    reveal_strlit("socks_direct");
    reveal_strlit("http_direct");
    reveal_strlit("connect_direct");
    reveal_strlit("socks5_auth");
}

} // verus!

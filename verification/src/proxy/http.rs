//! HTTP CONNECT handshake.
//!
//! Request: `CONNECT host:port HTTP/1.0\r\n[Proxy-Authorization: Basic ...\r\n]\r\n`
//! Response status codes:
//! - 200 → success
//! - 302 → parse `Location:`, update `relay_host`/`relay_port`, return `Retry`
//! - 401 / 407 → Basic challenge; set `proxy_auth`, return `Retry`
//! - other → `Error::HttpStatus(code)`
//!
//! The caller sends what [`send_request`] gives, feeds the bytes of the reply to a
//! [`ReplyHead`] one by one until it is complete, and asks [`begin`] what they
//! mean. It is responsible for reconnecting on `Retry`.

pub mod laws;
pub mod replies;

use base64::Engine;
use vstd::prelude::*;
use vstd::slice::{slice_subrange, slice_to_vec};
use vstd::string::*;
use vstd::utf8::encode_utf8;

use crate::config::{Config, ConfigView, ProxyAuthType};
use crate::error::{Error, ErrorView, Result};
use crate::number::{decimal, decimal_of, is_digit, parse_number, read_number};
use crate::proxy::util::{line_end, line_text, push_line_byte, read_crlf_line, CR, Incoming, LF};
use crate::text::{
    chars_of, concat, cut, find, find_char, find_str, find_text, lemma_find, lemma_rfind, lowered,
    opt_text, rfind, rfind_char, split_words, starts_with, string_of, texts, to_lower, trim, words,
    Text,
};

verus! {

/// Outcome of a single HTTP CONNECT attempt.
#[derive(Debug, Clone, Copy, PartialEq, Eq, Structural)]
pub enum HttpStart {
    /// Tunnel is established; caller should now run the relay loop.
    Established,
    /// The proxy told us to try a different host/port or to authenticate.
    /// Caller reconnects (with the updated `cfg`).
    Retry,
}

// ---- Request ----

/// The character of six bits in base64.
pub open spec fn base64_char(n: int) -> char {
    if n < 26 {
        (0x41 + n) as u8 as char
    } else if n < 52 {
        (0x61 + n - 26) as u8 as char
    } else if n < 62 {
        (0x30 + n - 52) as u8 as char
    } else if n == 62 {
        '+'
    } else {
        '/'
    }
}

/// Bytes in base64 with padding: four characters for three bytes.
pub open spec fn base64_text(b: Seq<u8>) -> Text
    decreases b.len(),
{
    if b.len() == 0 {
        Seq::empty()
    } else if b.len() == 1 {
        seq![base64_char(b[0] as int / 4), base64_char(b[0] as int % 4 * 16), '=', '=']
    } else if b.len() == 2 {
        seq![
            base64_char(b[0] as int / 4),
            base64_char(b[0] as int % 4 * 16 + b[1] as int / 16),
            base64_char(b[1] as int % 16 * 4),
            '=',
        ]
    } else {
        seq![
            base64_char(b[0] as int / 4),
            base64_char(b[0] as int % 4 * 16 + b[1] as int / 16),
            base64_char(b[1] as int % 16 * 4 + b[2] as int / 64),
            base64_char(b[2] as int % 64),
        ] + base64_text(b.skip(3))
    }
}

/// So many bytes can be encoded: the text has a length that memory can hold.
pub open spec fn encodable(len: nat) -> bool {
    (len + 2) / 3 * 4 <= isize::MAX
}

/// `Engine::encode` of the `base64` crate with its `STANDARD` engine: the bytes in
/// the standard alphabet, padded with `=`. The call panics where the length of the
/// text does not fit, so such bytes are left out.
#[verifier::external_body]
fn encode_base64(b: &[u8]) -> (r: String)
    requires
        encodable(b@.len()),
    ensures
        r@ == base64_text(b@),
{
    base64::engine::general_purpose::STANDARD.encode(b)
}

/// User and password as they are encoded.
pub open spec fn credentials(user: Text, pass: Text) -> Seq<u8> {
    encode_utf8(user + ":"@ + pass)
}

/// The header that authenticates the user, or why there is none.
pub open spec fn auth_header(user: Option<Text>, pass: Option<Text>) -> std::result::Result<
    Text,
    ErrorView,
> {
    match (user, pass) {
        (None, _) => Err(ErrorView::Auth("missing proxy user"@)),
        (_, None) => Err(ErrorView::Auth("no proxy password in env"@)),
        (Some(u), Some(p)) => Ok(
            "Proxy-Authorization: Basic "@ + base64_text(credentials(u, p)) + "\r\n"@,
        ),
    }
}

/// The request line.
pub open spec fn request_line(cfg: ConfigView) -> Text {
    "CONNECT "@ + cfg.dest_host + ":"@ + decimal(cfg.dest_port as nat) + " HTTP/1.0\r\n"@
}

/// The whole request, or why there is none. The header that authenticates is there
/// once the proxy asked for it.
pub open spec fn request_text(
    cfg: ConfigView,
    user: Option<Text>,
    pass: Option<Text>,
) -> std::result::Result<Text, ErrorView> {
    if cfg.proxy_auth == ProxyAuthType::Basic {
        match auth_header(user, pass) {
            Ok(h) => Ok(request_line(cfg) + h + "\r\n"@),
            Err(e) => Err(e),
        }
    } else {
        Ok(request_line(cfg) + "\r\n"@)
    }
}

/// The text behind an optional string.
pub open spec fn opt_str(s: Option<&str>) -> Option<Text> {
    match s {
        Some(t) => Some(t@),
        None => None,
    }
}

/// The bytes of the request. `cfg.proxy_auth` controls whether
/// `Proxy-Authorization` is sent; user and password count only then.
pub fn send_request(cfg: &Config, user: Option<&str>, pass: Option<&str>) -> (r: Result<Vec<u8>>)
    requires
        cfg@.proxy_auth == ProxyAuthType::Basic && user is Some && pass is Some ==> encodable(
            credentials(user->0@, pass->0@).len(),
        ),
    ensures
        match (r, request_text(cfg@, opt_str(user), opt_str(pass))) {
            (Ok(b), Ok(t)) => b@ == encode_utf8(t),
            (Err(e), Err(f)) => e@ == f,
            _ => false,
        },
{
    let mut req = concat("CONNECT ", cfg.dest_host.as_str());
    req.append(":");
    req.append(decimal_of(cfg.dest_port as u64).as_str());
    req.append(" HTTP/1.0\r\n");
    assert(req@ =~= request_line(cfg@));
    if cfg.proxy_auth == ProxyAuthType::Basic {
        let user = match user {
            Some(u) => u,
            None => {
                return Err(Error::Auth("missing proxy user".to_owned()));
            },
        };
        let pass = match pass {
            Some(p) => p,
            None => {
                return Err(Error::Auth("no proxy password in env".to_owned()));
            },
        };
        let mut creds = concat(user, ":");
        creds.append(pass);
        req.append("Proxy-Authorization: Basic ");
        req.append(encode_base64(creds.as_str().as_bytes()).as_str());
        req.append("\r\n");
        assert(req@ =~= request_line(cfg@) + auth_header(Some(user@), Some(pass@))->Ok_0);
    }
    req.append("\r\n");
    Ok(slice_to_vec(req.as_str().as_bytes()))
}

// ---- Reply ----

/// Read one CRLF-terminated line into `buf`. Returns when `\n` is seen or
/// when the stream ends. `buf` is cleared first.
pub fn read_line(r: &mut Incoming, buf: &mut String) -> (res: Result<()>)
    ensures
        res is Ok,
        final(buf)@ == line_text(old(r)@.take(line_end(old(r)@))),
        line_end(old(r)@) < old(r)@.len() ==> final(r)@ == old(r)@.skip(line_end(old(r)@) + 1),
        line_end(old(r)@) == old(r)@.len() ==> final(r)@ == Seq::<u8>::empty(),
{
    match read_crlf_line(r, buf) {
        Ok(_) => Ok(()),
        Err(e) => Err(e),
    }
}

/// The code in a status line: its second word.
pub open spec fn status_code(line: Text) -> Option<u16> {
    let w = words(line);
    if w.len() < 2 {
        None
    } else {
        match parse_number(w[1], 65535) {
            Some(n) => Some(n as u16),
            None => None,
        }
    }
}

/// The headers matter, or stand before the tunnel: the reply goes on up to an
/// empty line.
pub open spec fn wants_headers(status_line: Text, auth: ProxyAuthType) -> bool {
    match status_code(status_line) {
        Some(n) => n == 200 || n == 302 || ((n == 401 || n == 407) && auth
            == ProxyAuthType::NoAuth),
        None => false,
    }
}

/// Read the code of a status line.
fn read_status_line(line: &str) -> (r: Option<u16>)
    ensures
        r == status_code(line@),
{
    let v = chars_of(line);
    let w = split_words(v.as_slice());
    if w.len() < 2 {
        return None;
    }
    match read_number(w[1].as_slice(), 65535) {
        Some(n) => Some(n as u16),
        None => None,
    }
}

/// The head of a reply, byte by byte.
#[derive(Debug)]
pub struct ReplyHead {
    /// The status line and the headers that are there.
    pub lines: Vec<String>,
    /// What is there of the next line.
    pub line: String,
    /// Nothing more is to be read.
    pub complete: bool,
    /// The authentication that the request had.
    pub auth: ProxyAuthType,
}

/// The head of a reply.
#[verifier::ext_equal]
pub struct HeadView {
    pub lines: Seq<Text>,
    pub line: Text,
    pub complete: bool,
    pub auth: ProxyAuthType,
}

impl View for ReplyHead {
    type V = HeadView;

    open spec fn view(&self) -> HeadView {
        HeadView {
            lines: texts(self.lines@),
            line: self.line@,
            complete: self.complete,
            auth: self.auth,
        }
    }
}

/// A reply of which nothing is there.
pub open spec fn empty_head(auth: ProxyAuthType) -> HeadView {
    HeadView { lines: Seq::empty(), line: Seq::empty(), complete: false, auth }
}

/// The head after the end of a line: an empty line ends the headers, and a status
/// line that needs none ends the head.
pub open spec fn end_line(h: HeadView) -> HeadView {
    if h.lines.len() > 0 && h.line.len() == 0 {
        HeadView { complete: true, ..h }
    } else {
        HeadView {
            lines: h.lines.push(h.line),
            line: Seq::empty(),
            complete: h.lines.len() == 0 && !wants_headers(h.line, h.auth),
            ..h
        }
    }
}

/// The head after one more byte.
pub open spec fn push_byte(h: HeadView, b: u8) -> HeadView {
    if h.complete || b == CR {
        h
    } else if b == LF {
        end_line(h)
    } else {
        HeadView { line: h.line.push(b as char), ..h }
    }
}

/// The head when the stream ends: what is there counts as a line.
pub open spec fn end_head(h: HeadView) -> HeadView {
    if h.complete {
        h
    } else {
        HeadView { complete: true, ..end_line(h) }
    }
}

/// The head after some bytes.
pub open spec fn head_after(h: HeadView, bytes: Seq<u8>) -> HeadView
    decreases bytes.len(),
{
    if bytes.len() == 0 {
        h
    } else {
        push_byte(head_after(h, bytes.drop_last()), bytes.last())
    }
}

impl ReplyHead {
    /// A reply of which nothing is there, to a request as configured.
    pub fn new(cfg: &Config) -> (r: ReplyHead)
        ensures
            r@ == empty_head(cfg@.proxy_auth),
    {
        let lines: Vec<String> = Vec::new();
        assert(texts(lines@) =~= Seq::empty());
        ReplyHead { lines, line: String::new(), complete: false, auth: cfg.proxy_auth }
    }

    fn finish_line(&mut self)
        ensures
            final(self)@ == end_line(old(self)@),
    {
        let ghost before = texts(self.lines@);
        let first = self.lines.len() == 0;
        assert(before.len() == self.lines@.len());
        if !first && self.line.as_str().is_empty() {
            self.complete = true;
        } else {
            let line = self.line.clone();
            if first {
                self.complete = match read_status_line(line.as_str()) {
                    Some(n) => !(n == 200 || n == 302 || ((n == 401 || n == 407) && self.auth
                        == ProxyAuthType::NoAuth)),
                    None => true,
                };
            } else {
                self.complete = false;
            }
            self.lines.push(line);
            self.line = String::new();
            assert(texts(self.lines@) =~= before.push(line@));
        }
    }

    /// Takes the next byte. Once the reply is complete, no more is taken.
    pub fn push(&mut self, byte: u8)
        ensures
            final(self)@ == push_byte(old(self)@, byte),
    {
        if self.complete {
            return;
        }
        if push_line_byte(&mut self.line, byte) {
            self.finish_line();
        }
    }

    /// The stream has ended.
    pub fn end(&mut self)
        ensures
            final(self)@ == end_head(old(self)@),
    {
        if !self.complete {
            self.finish_line();
            self.complete = true;
        }
    }
}

// ---- Redirection ----

/// The value of a `Location:` header.
pub open spec fn location(line: Text) -> Option<Text> {
    if "location: "@.is_prefix_of(lowered(line)) {
        Some(trim(line.skip("location: "@.len() as int)))
    } else {
        None
    }
}

/// The name of a URL scheme: a letter, then letters, digits, `+`, `-` and `.`.
pub open spec fn is_scheme(s: Text) -> bool {
    &&& s.len() > 0
    &&& is_letter(s[0])
    &&& forall|i: int| 0 <= i < s.len() ==> is_scheme_char(#[trigger] s[i])
}

/// An ASCII letter.
pub open spec fn is_letter(c: char) -> bool {
    'a' <= c <= 'z' || 'A' <= c <= 'Z'
}

/// A character of a scheme's name.
pub open spec fn is_scheme_char(c: char) -> bool {
    is_letter(c) || is_digit(c) || c == '+' || c == '-' || c == '.'
}

/// Where the authority of a location starts: behind a `//` that stands first or
/// directly behind a scheme, otherwise at once.
pub open spec fn authority_start(value: Text) -> int {
    let k = find_text(value, "//"@);
    if k == 0 || (k > 0 && value[k - 1] == ':' && is_scheme(value.take(k - 1))) {
        k + 2
    } else {
        0
    }
}

/// The `host[:port]` part of a location: its authority, up to the next slash.
pub open spec fn location_host_port(value: Text) -> Text {
    let rest = value.skip(authority_start(value));
    rest.take(find(rest, '/'))
}

fn scheme_before(value: &[char], n: usize) -> (r: bool)
    requires
        n <= value@.len(),
    ensures
        r == is_scheme(value@.take(n as int)),
{
    let ghost s = value@.take(n as int);
    if n == 0 {
        return false;
    }
    assert(s[0] == value@[0]);
    let first = value[0];
    if !(('a' <= first && first <= 'z') || ('A' <= first && first <= 'Z')) {
        return false;
    }
    for i in 0..n
        invariant
            n <= value@.len(),
            s == value@.take(n as int),
            forall|j: int| 0 <= j < i ==> is_scheme_char(#[trigger] s[j]),
    {
        let c = value[i];
        assert(s[i as int] == c);
        if !(('a' <= c && c <= 'z') || ('A' <= c && c <= 'Z') || ('0' <= c && c <= '9') || c == '+'
            || c == '-' || c == '.') {
            return false;
        }
    }
    true
}

fn find_authority(value: &[char]) -> (r: usize)
    ensures
        r == authority_start(value@),
        r <= value@.len(),
{
    proof {
        reveal_strlit("//");
    }
    match find_str(value, "//") {
        Some(k) => {
            if k == 0 || (value[k - 1] == ':' && scheme_before(value, k - 1)) {
                k + 2
            } else {
                0
            }
        },
        None => 0,
    }
}

/// Where the proxy sends us; the last word counts. A port of 0 is none.
pub struct Redirect {
    pub host: Option<Text>,
    pub port: u16,
}

/// What one header adds.
pub open spec fn redirect_line(r: Redirect, line: Text) -> Redirect {
    match location(line) {
        None => r,
        Some(value) => {
            let hp = location_host_port(value);
            let colon = rfind(hp, ':');
            if colon < 0 {
                Redirect { host: Some(hp), ..r }
            } else {
                Redirect {
                    host: Some(hp.take(colon)),
                    port: match parse_number(hp.skip(colon + 1), 65535) {
                        Some(p) => p as u16,
                        None => r.port,
                    },
                }
            }
        },
    }
}

/// Where the headers send us.
pub open spec fn redirect(headers: Seq<Text>) -> Redirect
    decreases headers.len(),
{
    if headers.len() == 0 {
        Redirect { host: None, port: 0 }
    } else {
        redirect_line(redirect(headers.drop_last()), headers.last())
    }
}

/// The configuration with the relay that the headers name.
pub open spec fn redirected(cfg: ConfigView, headers: Seq<Text>) -> ConfigView {
    let r = redirect(headers);
    ConfigView {
        relay_host: if r.host is Some {
            r.host
        } else {
            cfg.relay_host
        },
        relay_port: if r.port > 0 {
            r.port
        } else {
            cfg.relay_port
        },
        ..cfg
    }
}

fn read_location(line: &[char], host: &mut Option<String>, port: &mut u16)
    ensures
        redirect_line((Redirect { host: opt_text(*old(host)), port: *old(port) }), line@) == (
        Redirect { host: opt_text(*final(host)), port: *final(port) }),
{
    let lower = to_lower(line);
    if !starts_with(lower.as_slice(), "location: ") {
        return;
    }
    proof {
        reveal_strlit("location: ");
    }
    assert(lower@.len() == line@.len());
    let n = line.len();
    let value = cut(slice_subrange(line, 10, n));
    assert(line@.subrange(10, n as int) =~= line@.skip(10));
    let m = value.len();
    let start = find_authority(value);
    let rest = slice_subrange(value, start, m);
    assert(rest@ =~= value@.skip(start as int));
    proof {
        lemma_find(rest@, '/');
    }
    let slash = match find_char(rest, '/') {
        Some(i) => i,
        None => rest.len(),
    };
    let hp = slice_subrange(rest, 0, slash);
    assert(hp@ =~= location_host_port(value@));
    proof {
        lemma_rfind(hp@, ':');
    }
    match rfind_char(hp, ':') {
        Some(colon) => {
            let h = slice_subrange(hp, 0, colon);
            assert(h@ =~= hp@.take(colon as int));
            let p = slice_subrange(hp, colon + 1, hp.len());
            assert(p@ =~= hp@.skip(colon + 1));
            *host = Some(string_of(h));
            if let Some(k) = read_number(p, 65535) {
                *port = k as u16;
            }
        },
        None => {
            *host = Some(string_of(hp));
        },
    }
}

fn parse_location_for_redirect(lines: &Vec<String>, cfg: &mut Config)
    requires
        lines@.len() > 0,
    ensures
        final(cfg)@ == redirected(old(cfg)@, texts(lines@).skip(1)),
{
    let ghost headers = texts(lines@).skip(1);
    let mut host: Option<String> = None;
    let mut port: u16 = 0;
    assert(headers.take(0) =~= Seq::empty());
    for i in 1..lines.len()
        invariant
            headers == texts(lines@).skip(1),
            redirect(headers.take(i - 1)) == (Redirect { host: opt_text(host), port }),
    {
        assert(headers.take(i as int).drop_last() =~= headers.take(i - 1));
        assert(headers.take(i as int).last() == lines@[i as int]@);
        let v = chars_of(lines[i].as_str());
        read_location(v.as_slice(), &mut host, &mut port);
    }
    assert(headers.take(lines@.len() - 1) =~= headers);
    if let Some(h) = host {
        cfg.relay_host = Some(h);
    }
    if port > 0 {
        cfg.relay_port = port;
    }
}

// ---- Challenge ----

/// A header that asks for Basic authentication.
pub open spec fn asks_basic(line: Text) -> bool {
    let l = lowered(line);
    &&& "www-authenticate:"@.is_prefix_of(l) || "proxy-authenticate:"@.is_prefix_of(l)
    &&& find_text(l, "basic"@) >= 0
}

/// Some header asks for Basic authentication.
pub open spec fn challenged(headers: Seq<Text>) -> bool {
    exists|i: int| 0 <= i < headers.len() && asks_basic(#[trigger] headers[i])
}

fn parse_auth_challenge(lines: &Vec<String>) -> (found: bool)
    requires
        lines@.len() > 0,
    ensures
        found == challenged(texts(lines@).skip(1)),
{
    let ghost headers = texts(lines@).skip(1);
    for i in 1..lines.len()
        invariant
            headers == texts(lines@).skip(1),
            forall|j: int| 0 <= j < i - 1 ==> !asks_basic(#[trigger] headers[j]),
    {
        assert(headers[i - 1] == lines@[i as int]@);
        let v = chars_of(lines[i].as_str());
        let lower = to_lower(v.as_slice());
        let l = lower.as_slice();
        if (starts_with(l, "www-authenticate:") || starts_with(l, "proxy-authenticate:"))
            && find_str(l, "basic").is_some() {
            return true;
        }
    }
    false
}

// ---- Verdict ----

/// The status line of a head; empty where there is none.
pub open spec fn status_line(lines: Seq<Text>) -> Text {
    if lines.len() > 0 {
        lines[0]
    } else {
        Seq::empty()
    }
}

/// What a reply means, and the configuration then.
pub open spec fn verdict(cfg: ConfigView, lines: Seq<Text>) -> (
    std::result::Result<HttpStart, ErrorView>,
    ConfigView,
) {
    match status_code(status_line(lines)) {
        None => (Err(ErrorView::Http("bad status line"@)), cfg),
        Some(n) => if n == 200 {
            (Ok(HttpStart::Established), cfg)
        } else if n == 302 {
            (Ok(HttpStart::Retry), redirected(cfg, lines.skip(1)))
        } else if n == 401 || n == 407 {
            if cfg.proxy_auth != ProxyAuthType::NoAuth {
                (Err(ErrorView::Http("authentication failed"@)), cfg)
            } else if !challenged(lines.skip(1)) {
                (Err(ErrorView::Http("no Basic auth in challenge"@)), cfg)
            } else {
                (Ok(HttpStart::Retry), ConfigView { proxy_auth: ProxyAuthType::Basic, ..cfg })
            }
        } else {
            (Err(ErrorView::HttpStatus(n)), cfg)
        },
    }
}

/// Judge the reply to one HTTP CONNECT attempt. Returns `Established` to relay, `Retry` to
/// reconnect, or `Err` on hard failure.
pub fn begin(cfg: &mut Config, head: &ReplyHead) -> (r: Result<HttpStart>)
    ensures
        ({
            let v = verdict(old(cfg)@, texts(head.lines@));
            &&& final(cfg)@ == v.1
            &&& match (r, v.0) {
                (Ok(a), Ok(b)) => a == b,
                (Err(e), Err(f)) => e@ == f,
                _ => false,
            }
        }),
{
    let lines = &head.lines;
    assert(texts(lines@).len() == lines@.len());
    let status = if lines.len() > 0 {
        read_status_line(lines[0].as_str())
    } else {
        read_status_line("")
    };
    proof {
        reveal_strlit("");
        assert(""@ =~= Seq::<char>::empty());
        assert(words(Seq::<char>::empty()).len() == 0);
    }
    let status = match status {
        Some(n) => n,
        None => {
            return Err(Error::Http("bad status line"));
        },
    };
    match status {
        200 => Ok(HttpStart::Established),
        302 => {
            parse_location_for_redirect(lines, cfg);
            Ok(HttpStart::Retry)
        },
        401 | 407 => {
            if cfg.proxy_auth != ProxyAuthType::NoAuth {
                return Err(Error::Http("authentication failed"));
            }
            if !parse_auth_challenge(lines) {
                return Err(Error::Http("no Basic auth in challenge"));
            }
            cfg.proxy_auth = ProxyAuthType::Basic;
            Ok(HttpStart::Retry)
        },
        other => Err(Error::HttpStatus(other)),
    }
}

} // verus!

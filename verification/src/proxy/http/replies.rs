//! What every reply of a proxy leads to, and what every request says.

use vstd::prelude::*;
use vstd::string::*;
use vstd::utf8::encode_utf8;

use crate::config::{ConfigView, ProxyAuthType};
use crate::error::ErrorView;
use crate::number::laws::law_number_read;
use crate::number::{decimal, is_digit, lemma_decimal_value, parse_number};
use crate::proxy::http::laws::lemma_find_slashes;
use crate::proxy::http::{
    asks_basic, authority_start, base64_char, base64_text, end_head, end_line, is_letter, is_scheme,
    is_scheme_char, location, location_host_port, redirect, request_text, status_code, verdict,
    wants_headers, HeadView, HttpStart,
};
use crate::text::laws::{
    all_space, is_tight, is_word, law_find_text, law_lines, law_text_found, law_trim, law_words,
};
use crate::text::{
    find_text, holds, is_space, lemma_find, lemma_find_at, lemma_rfind, lines, lowered, rfind,
    words, Text,
};

verus! {

// ---- Status ----

/// A status line: the protocol, the code, and a reason that may be missing.
pub open spec fn status_text(protocol: Text, code: u16, reason: Text) -> Text {
    protocol + seq![' '] + decimal(code as nat) + reason
}

/// What can stand in a status line around the code.
pub open spec fn around_code(protocol: Text, reason: Text) -> bool {
    is_word(protocol) && (reason.len() > 0 ==> is_space(reason[0]))
}

/// The head of a reply.
pub open spec fn reply_lines(
    protocol: Text,
    code: u16,
    reason: Text,
    headers: Seq<Text>,
) -> Seq<Text> {
    seq![status_text(protocol, code, reason)] + headers
}

/// The code of a status line is its second word, whatever stands around it.
pub proof fn law_status_code(protocol: Text, code: u16, reason: Text)
    requires
        around_code(protocol, reason),
    ensures
        status_code(status_text(protocol, code, reason)) == Some(code),
{
    let d = decimal(code as nat);
    let s = status_text(protocol, code, reason);
    let e = Seq::<char>::empty();
    let rest = seq![' '] + d + reason;
    lemma_decimal_value(code as nat);
    assert(is_word(d)) by {
        assert forall|i: int| 0 <= i < d.len() implies !is_space(#[trigger] d[i]) by {
            assert(is_digit(d[i]));
        }
    }
    assert(rest[0] == ' ');
    law_words(e, protocol, rest);
    assert(s =~= e + protocol + rest);
    law_words(seq![' '], d, reason);
    law_number_read(code as nat, 0, 65535);
    assert(Seq::new(0, |i: int| '0') + d =~= d);
}

/// A status line of fewer than two words, or whose second word is no code, fails.
pub proof fn law_bad_status(cfg: ConfigView, line: Text, headers: Seq<Text>)
    requires
        words(line).len() < 2 || parse_number(words(line)[1], 65535) is None,
    ensures
        verdict(cfg, seq![line] + headers) == (
            Err::<HttpStart, ErrorView>(ErrorView::Http("bad status line"@)),
            cfg,
        ),
        verdict(cfg, Seq::<Text>::empty()) == (
            Err::<HttpStart, ErrorView>(ErrorView::Http("bad status line"@)),
            cfg,
        ),
{
    assert((seq![line] + headers)[0] == line);
    let e = Seq::<char>::empty();
    assert(words(e).len() == 0);
}

/// 200 is the tunnel, whatever the headers say, and changes nothing.
pub proof fn law_reply_200(cfg: ConfigView, protocol: Text, reason: Text, headers: Seq<Text>)
    requires
        around_code(protocol, reason),
    ensures
        verdict(cfg, reply_lines(protocol, 200, reason, headers)) == (
            Ok::<HttpStart, ErrorView>(HttpStart::Established),
            cfg,
        ),
{
    law_status_code(protocol, 200, reason);
}

/// Any other code than 200, 302, 401 and 407 fails with the code.
pub proof fn law_reply_other(
    cfg: ConfigView,
    protocol: Text,
    code: u16,
    reason: Text,
    headers: Seq<Text>,
)
    requires
        around_code(protocol, reason),
        code != 200 && code != 302 && code != 401 && code != 407,
    ensures
        verdict(cfg, reply_lines(protocol, code, reason, headers)) == (
            Err::<HttpStart, ErrorView>(ErrorView::HttpStatus(code)),
            cfg,
        ),
{
    law_status_code(protocol, code, reason);
}

// ---- Challenges ----

/// A header that names Basic authentication: its name in any case, the scheme in any
/// case and anywhere behind it.
pub open spec fn names_basic(header: Text, at: int) -> bool {
    let l = lowered(header);
    &&& l.take(19) == "proxy-authenticate:"@ || l.take(17) == "www-authenticate:"@
    &&& 0 <= at
    &&& at + 5 <= l.len()
    &&& l.subrange(at, at + 5) == "basic"@
}

/// A proxy that asks for Basic authentication for the first time, in whichever of its
/// headers, is asked again with credentials.
pub proof fn law_challenge_is_answered(
    cfg: ConfigView,
    protocol: Text,
    code: u16,
    reason: Text,
    headers: Seq<Text>,
    i: int,
    at: int,
)
    requires
        around_code(protocol, reason),
        code == 401 || code == 407,
        cfg.proxy_auth == ProxyAuthType::NoAuth,
        0 <= i < headers.len(),
        headers[i].len() >= 19,
        names_basic(headers[i], at),
    ensures
        verdict(cfg, reply_lines(protocol, code, reason, headers)) == (
            Ok::<HttpStart, ErrorView>(HttpStart::Retry),
            ConfigView { proxy_auth: ProxyAuthType::Basic, ..cfg },
        ),
{
    law_status_code(protocol, code, reason);
    let lines = reply_lines(protocol, code, reason, headers);
    assert(lines.skip(1) =~= headers);
    let l = lowered(headers[i]);
    reveal_strlit("proxy-authenticate:");
    reveal_strlit("www-authenticate:");
    reveal_strlit("basic");
    if l.take(19) == "proxy-authenticate:"@ {
        assert("proxy-authenticate:"@ =~= l.subrange(0, 19));
    } else {
        assert("www-authenticate:"@ =~= l.subrange(0, 17));
    }
    law_find_text(l, "basic"@, at);
    assert(asks_basic(headers[i]));
}

/// A proxy that wants authentication and names Basic nowhere is refused.
pub proof fn law_other_challenge_fails(
    cfg: ConfigView,
    protocol: Text,
    code: u16,
    reason: Text,
    headers: Seq<Text>,
)
    requires
        around_code(protocol, reason),
        code == 401 || code == 407,
        cfg.proxy_auth == ProxyAuthType::NoAuth,
        forall|i: int, at: int|
            0 <= i < headers.len() ==> !#[trigger] names_basic(headers[i], at),
    ensures
        verdict(cfg, reply_lines(protocol, code, reason, headers)) == (
            Err::<HttpStart, ErrorView>(ErrorView::Http("no Basic auth in challenge"@)),
            cfg,
        ),
{
    law_status_code(protocol, code, reason);
    let lines = reply_lines(protocol, code, reason, headers);
    assert(lines.skip(1) =~= headers);
    reveal_strlit("proxy-authenticate:");
    reveal_strlit("www-authenticate:");
    reveal_strlit("basic");
    assert forall|i: int| 0 <= i < headers.len() implies !asks_basic(#[trigger] headers[i]) by {
        let l = lowered(headers[i]);
        if asks_basic(headers[i]) {
            law_text_found(l, "basic"@);
            if "proxy-authenticate:"@.is_prefix_of(l) {
                assert(l.take(19) =~= "proxy-authenticate:"@);
            } else {
                assert(l.take(17) =~= "www-authenticate:"@);
            }
            assert(names_basic(headers[i], find_text(l, "basic"@)));
        }
    }
}

/// A proxy that is not content with the credentials is not asked again.
pub proof fn law_second_challenge_fails(
    cfg: ConfigView,
    protocol: Text,
    code: u16,
    reason: Text,
    headers: Seq<Text>,
)
    requires
        around_code(protocol, reason),
        code == 401 || code == 407,
        cfg.proxy_auth == ProxyAuthType::Basic,
    ensures
        verdict(cfg, reply_lines(protocol, code, reason, headers)) == (
            Err::<HttpStart, ErrorView>(ErrorView::Http("authentication failed"@)),
            cfg,
        ),
{
    law_status_code(protocol, code, reason);
}

// ---- Redirection ----

/// A header that is no `Location:`.
pub open spec fn is_elsewhere(header: Text) -> bool {
    !"location: "@.is_prefix_of(lowered(header))
}

/// The parts of a `Location:` header that names a host: the header's name in any
/// case, white space around the value, a scheme or not before the slashes, and a path
/// or not behind the host.
pub open spec fn names_host(
    name: Text,
    a: Text,
    scheme: Text,
    authority: Text,
    path: Text,
    b: Text,
) -> bool {
    &&& lowered(name) == "location: "@
    &&& all_space(a)
    &&& all_space(b)
    &&& scheme.len() == 0 || (scheme.last() == ':' && is_scheme(scheme.drop_last()))
    &&& !holds(authority, '/')
    &&& path.len() == 0 || path[0] == '/'
    &&& is_tight(scheme + "//"@ + authority + path)
}

/// Headers that are no `Location:` send us nowhere else.
proof fn lemma_elsewhere(headers: Seq<Text>, more: Seq<Text>)
    requires
        forall|i: int| 0 <= i < more.len() ==> is_elsewhere(#[trigger] more[i]),
    ensures
        redirect(headers + more) == redirect(headers),
    decreases more.len(),
{
    if more.len() == 0 {
        assert(headers + more =~= headers);
    } else {
        let h = more.drop_last();
        assert forall|i: int| 0 <= i < h.len() implies is_elsewhere(#[trigger] h[i]) by {
            assert(h[i] == more[i]);
        }
        lemma_elsewhere(headers, h);
        assert((headers + more).drop_last() =~= headers + h);
        assert((headers + more).last() == more[more.len() - 1]);
        assert(is_elsewhere(more[more.len() - 1]));
    }
}

/// The authority of such a header is found.
proof fn lemma_authority(
    name: Text,
    a: Text,
    scheme: Text,
    authority: Text,
    path: Text,
    b: Text,
)
    requires
        names_host(name, a, scheme, authority, path, b),
    ensures
        ({
            let value = scheme + "//"@ + authority + path;
            let line = name + a + value + b;
            &&& location(line) == Some(value)
            &&& location_host_port(value) == authority
        }),
{
    let value = scheme + "//"@ + authority + path;
    let line = name + a + value + b;
    reveal_strlit("location: ");
    reveal_strlit("//");
    assert(lowered(name).len() == name.len());
    assert(lowered(line).subrange(0, 10) =~= lowered(name));
    assert(line.skip(10) =~= a + value + b);
    law_trim(a, value, b);
    let m = scheme.len() as int;
    let rest = authority + path;
    assert(value =~= scheme + ("//"@ + rest));
    assert forall|i: int| 0 <= i < m implies scheme[i] != '/' by {
        if i < m - 1 {
            assert(is_scheme_char(scheme.drop_last()[i]));
        }
    }
    lemma_find_at(scheme, '/', m);
    lemma_find_slashes(scheme, rest);
    if m > 0 {
        assert(value.take(m - 1) =~= scheme.drop_last());
        assert(value[m - 1] == scheme[m - 1]);
    }
    assert(authority_start(value) == m + 2);
    assert(value.skip(m + 2) =~= rest);
    lemma_find(authority, '/');
    let n = authority.len() as int;
    assert forall|i: int| 0 <= i < n implies rest[i] != '/' by {
        assert(rest[i] == authority[i]);
    }
    if path.len() > 0 {
        assert(rest[n] == path[0]);
    }
    lemma_find_at(rest, '/', n);
    assert(rest.take(n) =~= authority);
}

/// A reply 302 sends us to the host and port of its last `Location:` header, in
/// whichever place that stands; nothing else of the configuration changes.
pub proof fn law_redirect_to_port(
    cfg: ConfigView,
    protocol: Text,
    reason: Text,
    before: Seq<Text>,
    name: Text,
    a: Text,
    scheme: Text,
    host: Text,
    port: u16,
    path: Text,
    b: Text,
    after: Seq<Text>,
)
    requires
        around_code(protocol, reason),
        names_host(name, a, scheme, host + ":"@ + decimal(port as nat), path, b),
        forall|i: int| 0 <= i < after.len() ==> is_elsewhere(#[trigger] after[i]),
        port > 0,
    ensures
        ({
            let line = name + a + (scheme + "//"@ + (host + ":"@ + decimal(port as nat)) + path)
                + b;
            verdict(cfg, reply_lines(protocol, 302, reason, before + seq![line] + after)) == (
                Ok::<HttpStart, ErrorView>(HttpStart::Retry),
                ConfigView { relay_host: Some(host), relay_port: port, ..cfg },
            )
        }),
{
    let d = decimal(port as nat);
    let hp = host + ":"@ + d;
    let line = name + a + (scheme + "//"@ + hp + path) + b;
    let headers = before + seq![line] + after;
    let lines = reply_lines(protocol, 302, reason, headers);
    law_status_code(protocol, 302, reason);
    assert(lines.skip(1) =~= headers);
    lemma_elsewhere(before + seq![line], after);
    assert((before + seq![line]).drop_last() =~= before);
    lemma_authority(name, a, scheme, hp, path, b);
    reveal_strlit(":");
    lemma_decimal_value(port as nat);
    lemma_rfind(hp, ':');
    let n = host.len() as int;
    assert(hp[n] == ':');
    assert forall|i: int| n < i < hp.len() implies hp[i] != ':' by {
        assert(hp[i] == d[i - n - 1]);
        assert(is_digit(d[i - n - 1]));
    }
    assert(rfind(hp, ':') == n);
    assert(hp.take(n) =~= host);
    assert(hp.skip(n + 1) =~= d);
    law_number_read(port as nat, 0, 65535);
    assert(Seq::new(0, |i: int| '0') + d =~= d);
}

/// A `Location:` header without a port sends us to its host and keeps the port.
pub proof fn law_redirect_to_host(
    cfg: ConfigView,
    protocol: Text,
    reason: Text,
    before: Seq<Text>,
    name: Text,
    a: Text,
    scheme: Text,
    host: Text,
    path: Text,
    b: Text,
    after: Seq<Text>,
)
    requires
        around_code(protocol, reason),
        names_host(name, a, scheme, host, path, b),
        !holds(host, ':'),
        forall|i: int| 0 <= i < before.len() ==> is_elsewhere(#[trigger] before[i]),
        forall|i: int| 0 <= i < after.len() ==> is_elsewhere(#[trigger] after[i]),
    ensures
        ({
            let line = name + a + (scheme + "//"@ + host + path) + b;
            verdict(cfg, reply_lines(protocol, 302, reason, before + seq![line] + after)) == (
                Ok::<HttpStart, ErrorView>(HttpStart::Retry),
                ConfigView { relay_host: Some(host), ..cfg },
            )
        }),
{
    let line = name + a + (scheme + "//"@ + host + path) + b;
    let headers = before + seq![line] + after;
    let lines = reply_lines(protocol, 302, reason, headers);
    law_status_code(protocol, 302, reason);
    assert(lines.skip(1) =~= headers);
    lemma_elsewhere(before + seq![line], after);
    assert((before + seq![line]).drop_last() =~= before);
    lemma_elsewhere(Seq::empty(), before);
    assert(Seq::<Text>::empty() + before =~= before);
    lemma_authority(name, a, scheme, host, path, b);
    lemma_find(host, ':');
    lemma_rfind(host, ':');
}

/// A `Location:` header whose port is no number sends us to its host and keeps the
/// port.
pub proof fn law_redirect_to_bad_port(
    cfg: ConfigView,
    protocol: Text,
    reason: Text,
    name: Text,
    a: Text,
    scheme: Text,
    host: Text,
    port: Text,
    path: Text,
    b: Text,
)
    requires
        around_code(protocol, reason),
        names_host(name, a, scheme, host + seq![':'] + port, path, b),
        !holds(port, ':'),
        parse_number(port, 65535) is None,
    ensures
        ({
            let line = name + a + (scheme + "//"@ + (host + seq![':'] + port) + path) + b;
            verdict(cfg, reply_lines(protocol, 302, reason, seq![line])) == (
                Ok::<HttpStart, ErrorView>(HttpStart::Retry),
                ConfigView { relay_host: Some(host), ..cfg },
            )
        }),
{
    let hp = host + seq![':'] + port;
    let line = name + a + (scheme + "//"@ + hp + path) + b;
    law_status_code(protocol, 302, reason);
    assert(reply_lines(protocol, 302, reason, seq![line]).skip(1) =~= seq![line]);
    assert(seq![line].drop_last() =~= Seq::<Text>::empty());
    reveal_with_fuel(redirect, 2);
    lemma_authority(name, a, scheme, hp, path, b);
    lemma_find(port, ':');
    lemma_rfind(hp, ':');
    let n = host.len() as int;
    assert(hp[n] == ':');
    assert forall|i: int| n < i < hp.len() implies hp[i] != ':' by {
        assert(hp[i] == port[i - n - 1]);
    }
    assert(rfind(hp, ':') == n);
    assert(hp.take(n) =~= host);
    assert(hp.skip(n + 1) =~= port);
}

/// A reply 302 without a `Location:` header is tried again at the same place.
pub proof fn law_redirect_nowhere(
    cfg: ConfigView,
    protocol: Text,
    reason: Text,
    headers: Seq<Text>,
)
    requires
        around_code(protocol, reason),
        forall|i: int| 0 <= i < headers.len() ==> is_elsewhere(#[trigger] headers[i]),
    ensures
        verdict(cfg, reply_lines(protocol, 302, reason, headers)) == (
            Ok::<HttpStart, ErrorView>(HttpStart::Retry),
            cfg,
        ),
{
    law_status_code(protocol, 302, reason);
    assert(reply_lines(protocol, 302, reason, headers).skip(1) =~= headers);
    lemma_elsewhere(Seq::empty(), headers);
    assert(Seq::<Text>::empty() + headers =~= headers);
}

// ---- Reading ----

/// The headers are read up to their empty line where they matter: for 200 and 302,
/// and for a demand for credentials that were not sent. Every other reply is complete
/// with its status line.
pub proof fn law_headers_wanted(protocol: Text, code: u16, reason: Text, auth: ProxyAuthType)
    requires
        around_code(protocol, reason),
    ensures
        wants_headers(status_text(protocol, code, reason), auth) <==> (code == 200 || code == 302
            || ((code == 401 || code == 407) && auth == ProxyAuthType::NoAuth)),
{
    law_status_code(protocol, code, reason);
}

/// The end of a line adds it to the head; an empty line behind the status line ends
/// the head and is not added.
pub proof fn law_line_added(h: HeadView, l: Text)
    requires
        !h.complete,
        h.lines.len() > 0,
    ensures
        l.len() > 0 ==> end_line(HeadView { line: l, ..h }) == (HeadView {
            lines: h.lines.push(l),
            line: Seq::empty(),
            ..h
        }),
        end_line(HeadView { line: Seq::empty(), ..h }) == (HeadView {
            line: Seq::empty(),
            complete: true,
            ..h
        }),
{
}

/// When the stream ends, what is there of a line counts as one and the head is
/// complete.
pub proof fn law_stream_end(h: HeadView)
    ensures
        end_head(h).complete,
        h.complete ==> end_head(h) == h,
        !h.complete && (h.line.len() > 0 || h.lines.len() == 0) ==> end_head(h).lines
            == h.lines.push(h.line),
        !h.complete && h.line.len() == 0 && h.lines.len() > 0 ==> end_head(h).lines == h.lines,
{
}

// ---- Requests ----

/// A request without credentials: a proxy reads the request line and an empty line,
/// nothing more.
pub proof fn law_plain_request(cfg: ConfigView, user: Option<Text>, pass: Option<Text>)
    requires
        cfg.proxy_auth == ProxyAuthType::NoAuth,
        !holds(cfg.dest_host, '\n'),
    ensures
        request_text(cfg, user, pass) matches Ok(t) && lines(t) == seq![
            "CONNECT "@ + cfg.dest_host + ":"@ + decimal(cfg.dest_port as nat) + " HTTP/1.0"@,
            Seq::<char>::empty(),
        ],
{
    let l = "CONNECT "@ + cfg.dest_host + ":"@ + decimal(cfg.dest_port as nat) + " HTTP/1.0"@;
    let e = Seq::<char>::empty();
    let t = request_text(cfg, user, pass)->Ok_0;
    lemma_request_line(cfg);
    reveal_strlit("\r\n");
    reveal_strlit(" HTTP/1.0\r\n");
    reveal_strlit(" HTTP/1.0");
    let crlf = seq!['\r', '\n'];
    assert(t =~= l + crlf + (e + crlf + e));
    law_lines(l, e + crlf + e);
    lemma_find_at(e, '\n', 0);
    law_lines(e, e);
    assert(lines(t) =~= seq![l, e]);
}

/// The request line is one line.
proof fn lemma_request_line(cfg: ConfigView)
    requires
        !holds(cfg.dest_host, '\n'),
    ensures
        !holds(
            "CONNECT "@ + cfg.dest_host + ":"@ + decimal(cfg.dest_port as nat) + " HTTP/1.0"@,
            '\n',
        ),
{
    let d = decimal(cfg.dest_port as nat);
    let h = cfg.dest_host;
    let l = "CONNECT "@ + h + ":"@ + d + " HTTP/1.0"@;
    reveal_strlit("CONNECT ");
    reveal_strlit(":");
    reveal_strlit(" HTTP/1.0");
    lemma_find(h, '\n');
    lemma_decimal_value(cfg.dest_port as nat);
    let n = 8 + h.len() as int;
    let m = n + 1 + d.len();
    assert forall|i: int| 0 <= i < l.len() implies l[i] != '\n' by {
        if i < 8 {
            assert(l[i] == "CONNECT "@[i]);
        } else if i < n {
            assert(l[i] == h[i - 8]);
        } else if n < i < m {
            assert(l[i] == d[i - n - 1]);
            assert(is_digit(d[i - n - 1]));
        } else if i >= m {
            assert(l[i] == " HTTP/1.0"@[i - m]);
        }
    }
    lemma_find_at(l, '\n', l.len() as int);
}

/// A request with credentials has one header more, which holds user and password in
/// base64; without a user or a password there is none.
pub proof fn law_authorised_request(cfg: ConfigView, user: Text, pass: Text, other: Option<Text>)
    requires
        cfg.proxy_auth == ProxyAuthType::Basic,
        !holds(cfg.dest_host, '\n'),
    ensures
        request_text(cfg, Some(user), Some(pass)) matches Ok(t) && lines(t) == seq![
            "CONNECT "@ + cfg.dest_host + ":"@ + decimal(cfg.dest_port as nat) + " HTTP/1.0"@,
            "Proxy-Authorization: Basic "@ + base64_text(encode_utf8(user + seq![':'] + pass)),
            Seq::<char>::empty(),
        ],
        request_text(cfg, None, other) == Err::<Text, ErrorView>(
            ErrorView::Auth("missing proxy user"@),
        ),
        request_text(cfg, Some(user), None) == Err::<Text, ErrorView>(
            ErrorView::Auth("no proxy password in env"@),
        ),
{
    let l = "CONNECT "@ + cfg.dest_host + ":"@ + decimal(cfg.dest_port as nat) + " HTTP/1.0"@;
    let b = base64_text(encode_utf8(user + seq![':'] + pass));
    let k = "Proxy-Authorization: Basic "@ + b;
    let e = Seq::<char>::empty();
    let t = request_text(cfg, Some(user), Some(pass))->Ok_0;
    lemma_request_line(cfg);
    reveal_strlit("\r\n");
    reveal_strlit(" HTTP/1.0\r\n");
    reveal_strlit(" HTTP/1.0");
    reveal_strlit(":");
    assert(user + ":"@ + pass =~= user + seq![':'] + pass);
    reveal_strlit("Proxy-Authorization: Basic ");
    lemma_base64_line(encode_utf8(user + seq![':'] + pass));
    assert forall|i: int| 0 <= i < k.len() implies k[i] != '\n' by {
        if i < 27 {
            assert(k[i] == "Proxy-Authorization: Basic "@[i]);
        } else {
            assert(k[i] == b[i - 27]);
        }
    }
    lemma_find_at(k, '\n', k.len() as int);
    let crlf = seq!['\r', '\n'];
    assert(t =~= l + crlf + (k + crlf + (e + crlf + e)));
    law_lines(l, k + crlf + (e + crlf + e));
    law_lines(k, e + crlf + e);
    lemma_find_at(e, '\n', 0);
    law_lines(e, e);
    assert(lines(t) =~= seq![l, k, e]);
}

proof fn lemma_base64_char(n: int)
    requires
        0 <= n < 64,
    ensures
        base64_char(n) != '\n',
{
}

/// Base64 is one line.
proof fn lemma_base64_line(b: Seq<u8>)
    ensures
        forall|i: int| 0 <= i < base64_text(b).len() ==> #[trigger] base64_text(b)[i] != '\n',
    decreases b.len(),
{
    let s = base64_text(b);
    if b.len() > 0 {
        let b0 = b[0] as int;
        let b1 = if b.len() > 1 {
            b[1] as int
        } else {
            0
        };
        let b2 = if b.len() > 2 {
            b[2] as int
        } else {
            0
        };
        lemma_base64_char(b0 / 4);
        lemma_base64_char(b0 % 4 * 16 + b1 / 16);
        lemma_base64_char(b1 % 16 * 4 + b2 / 64);
        lemma_base64_char(b2 % 64);
        if b.len() >= 3 {
            let t = base64_text(b.skip(3));
            lemma_base64_line(b.skip(3));
            assert forall|i: int| 0 <= i < s.len() implies #[trigger] s[i] != '\n' by {
                if i >= 4 {
                    assert(s[i] == t[i - 4]);
                }
            }
        }
    }
}

/// The alphabet of base64, in order.
pub proof fn law_base64_alphabet(n: int)
    requires
        0 <= n < 64,
    ensures
        base64_char(n)
            == "ABCDEFGHIJKLMNOPQRSTUVWXYZabcdefghijklmnopqrstuvwxyz0123456789+/"@[n],
{
    reveal_strlit("ABCDEFGHIJKLMNOPQRSTUVWXYZabcdefghijklmnopqrstuvwxyz0123456789+/");
}

/// Three bytes are four characters of six bits each, most significant first; of one
/// or two bytes at the end the missing bits are zero and the missing characters `=`.
pub proof fn law_base64_groups(
    a: u8,
    b: u8,
    c: u8,
    rest: Seq<u8>,
    n0: int,
    n1: int,
    n2: int,
    n3: int,
)
    requires
        0 <= n0 < 64 && 0 <= n1 < 64 && 0 <= n2 < 64 && 0 <= n3 < 64,
        n0 * 0x40000 + n1 * 0x1000 + n2 * 0x40 + n3 == a * 0x10000 + b * 0x100 + c,
    ensures
        ({
            let (c0, c1, c2, c3) = (
                base64_char(n0),
                base64_char(n1),
                base64_char(n2),
                base64_char(n3),
            );
            &&& base64_text(Seq::<u8>::empty()) == Seq::<char>::empty()
            &&& base64_text(seq![a, b, c] + rest) == seq![c0, c1, c2, c3] + base64_text(rest)
            &&& c == 0 ==> base64_text(seq![a, b]) == seq![c0, c1, c2, '=']
            &&& b == 0 && c == 0 ==> base64_text(seq![a]) == seq![c0, c1, '=', '=']
        }),
{
    assert(n0 == a as int / 4);
    assert(n1 == a as int % 4 * 16 + b as int / 16);
    assert(n2 == b as int % 16 * 4 + c as int / 64);
    assert(n3 == c as int % 64);
    assert((seq![a, b, c] + rest).skip(3) =~= rest);
}

/// A letter, and then letters, digits, `+`, `-` and `.`, are the name of a scheme;
/// nothing else is.
pub proof fn law_scheme_names(s: Text)
    ensures
        is_scheme(s) <==> {
            &&& s.len() > 0
            &&& 0x41 <= s[0] as u32 <= 0x5a || 0x61 <= s[0] as u32 <= 0x7a
            &&& forall|i: int|
                0 <= i < s.len() ==> {
                    let n = #[trigger] s[i] as u32;
                    ||| 0x41 <= n <= 0x5a
                    ||| 0x61 <= n <= 0x7a
                    ||| 0x30 <= n <= 0x39
                    ||| n == 0x2b
                    ||| n == 0x2d
                    ||| n == 0x2e
                }
        },
{
    if is_scheme(s) {
        assert forall|i: int| 0 <= i < s.len() implies {
            let n = #[trigger] s[i] as u32;
            ||| 0x41 <= n <= 0x5a
            ||| 0x61 <= n <= 0x7a
            ||| 0x30 <= n <= 0x39
            ||| n == 0x2b
            ||| n == 0x2d
            ||| n == 0x2e
        } by {
            lemma_scheme_char(s[i]);
        }
        lemma_scheme_char(s[0]);
    } else if s.len() > 0 {
        assert forall|i: int|
            0 <= i < s.len() && {
                let n = #[trigger] s[i] as u32;
                ||| 0x41 <= n <= 0x5a
                ||| 0x61 <= n <= 0x7a
                ||| 0x30 <= n <= 0x39
                ||| n == 0x2b
                ||| n == 0x2d
                ||| n == 0x2e
            } implies is_scheme_char(s[i]) by {
            lemma_scheme_char(s[i]);
        }
        lemma_scheme_char(s[0]);
    }
}

proof fn lemma_scheme_char(c: char)
    ensures
        is_letter(c) <==> 0x41 <= c as u32 <= 0x5a || 0x61 <= c as u32 <= 0x7a,
        is_scheme_char(c) <==> {
            let n = c as u32;
            ||| 0x41 <= n <= 0x5a
            ||| 0x61 <= n <= 0x7a
            ||| 0x30 <= n <= 0x39
            ||| n == 0x2b
            ||| n == 0x2d
            ||| n == 0x2e
        },
{
}

/// The first line is the status line, an empty one too; where it wants no headers the
/// head is complete with it.
pub proof fn law_status_line_added(auth: ProxyAuthType, l: Text)
    ensures
        end_line(HeadView { lines: Seq::empty(), line: l, complete: false, auth }) == (HeadView {
            lines: seq![l],
            line: Seq::empty(),
            complete: !wants_headers(l, auth),
            auth,
        }),
{
    assert(Seq::<Text>::empty().push(l) =~= seq![l]);
}

} // verus!

//! What holds of the HTTP handshake as a whole.

use vstd::prelude::*;

use crate::config::{ConfigView, ProxyAuthType};
use crate::error::ErrorView;
use crate::number::{decimal, lemma_decimal_value};
use crate::proxy::http::{
    authority_start, base64_char, base64_text, empty_head, end_line, head_after, is_scheme,
    is_scheme_char, location, redirect_line, status_code, status_line, verdict, wants_headers,
    HeadView, HttpStart, Redirect,
};
use crate::proxy::util::{is_line, latin1, lemma_line_bytes, lemma_line_text, CR, LF};
use crate::text::{
    find_text, holds, lemma_find, lemma_find_at, lemma_rfind, lowered, rfind, trim, Text,
};

verus! {

// ---- Credentials ----

/// The characters of base64 tell six bits apart, and none is the padding.
proof fn lemma_base64_char(m: int, n: int)
    requires
        0 <= m < 64,
        0 <= n < 64,
    ensures
        base64_char(m) != '=',
        base64_char(m) == base64_char(n) ==> m == n,
{
}

/// Base64 has four characters for each three bytes that are begun.
pub proof fn law_base64_len(b: Seq<u8>)
    ensures
        base64_text(b).len() == (b.len() + 2) / 3 * 4,
    decreases b.len(),
{
    if b.len() >= 3 {
        law_base64_len(b.skip(3));
    }
}

/// No two sequences of bytes have the same base64: a proxy can read user and
/// password back.
pub proof fn law_base64_injective(a: Seq<u8>, b: Seq<u8>)
    requires
        base64_text(a) == base64_text(b),
    ensures
        a == b,
    decreases a.len(),
{
    let s = base64_text(a);
    let t = base64_text(b);
    law_base64_len(a);
    law_base64_len(b);
    if a.len() == 0 || b.len() == 0 {
        assert(a =~= b);
    } else {
        let (a0, b0) = (a[0] as int, b[0] as int);
        assert(s[0] == t[0] && s[1] == t[1] && s[2] == t[2] && s[3] == t[3]);
        lemma_base64_char(a0 / 4, b0 / 4);
        assert(s[0] == base64_char(a0 / 4) && t[0] == base64_char(b0 / 4));
        let a1 = if a.len() > 1 {
            a[1] as int
        } else {
            0
        };
        let b1 = if b.len() > 1 {
            b[1] as int
        } else {
            0
        };
        let a2 = if a.len() > 2 {
            a[2] as int
        } else {
            0
        };
        let b2 = if b.len() > 2 {
            b[2] as int
        } else {
            0
        };
        assert(s[1] == base64_char(a0 % 4 * 16 + a1 / 16));
        assert(t[1] == base64_char(b0 % 4 * 16 + b1 / 16));
        lemma_base64_char(a0 % 4 * 16 + a1 / 16, b0 % 4 * 16 + b1 / 16);
        assert(a0 == b0);
        lemma_base64_char(a1 % 16 * 4 + a2 / 64, b1 % 16 * 4 + b2 / 64);
        lemma_base64_char(b1 % 16 * 4 + b2 / 64, a1 % 16 * 4 + a2 / 64);
        assert(a.len() == 1 ==> s[2] == '=');
        assert(b.len() == 1 ==> t[2] == '=');
        assert(a.len() > 1 ==> s[2] == base64_char(a1 % 16 * 4 + a2 / 64));
        assert(b.len() > 1 ==> t[2] == base64_char(b1 % 16 * 4 + b2 / 64));
        assert(a.len() == 1 <==> b.len() == 1);
        lemma_base64_char(a2 % 64, b2 % 64);
        lemma_base64_char(b2 % 64, a2 % 64);
        assert(a.len() == 2 ==> s[3] == '=');
        assert(b.len() == 2 ==> t[3] == '=');
        assert(a.len() > 2 ==> s[3] == base64_char(a2 % 64));
        assert(b.len() > 2 ==> t[3] == base64_char(b2 % 64));
        if a.len() <= 2 {
            assert(a =~= b);
        } else {
            assert(s.skip(4) =~= base64_text(a.skip(3)));
            assert(t.skip(4) =~= base64_text(b.skip(3)));
            law_base64_injective(a.skip(3), b.skip(3));
            assert forall|i: int| 0 <= i < a.len() implies a[i] == b[i] by {
                if i >= 3 {
                    assert(a.skip(3)[i - 3] == a[i]);
                    assert(b.skip(3)[i - 3] == b[i]);
                }
            }
            assert(a.len() == b.len()) by {
                assert(a.skip(3).len() == b.skip(3).len());
            }
            assert(a =~= b);
        }
    }
}

// ---- Retries ----

/// The proxy is answered with credentials at most once: when it asks for them and
/// none were sent, and a second demand fails.
pub proof fn law_one_auth_retry(cfg: ConfigView, lines: Seq<Text>)
    requires
        status_code(status_line(lines)) == Some(401u16) || status_code(status_line(lines)) == Some(
            407u16,
        ),
    ensures
        cfg.proxy_auth == ProxyAuthType::Basic ==> verdict(cfg, lines).0 is Err,
        verdict(cfg, lines).0 == Ok::<HttpStart, ErrorView>(HttpStart::Retry) ==> cfg.proxy_auth
            == ProxyAuthType::NoAuth && verdict(cfg, lines).1.proxy_auth == ProxyAuthType::Basic,
{
}

/// A reply changes the relay or the authentication, never the destination or
/// anything else; and authentication that was begun is not given up.
pub proof fn law_reply_changes(cfg: ConfigView, lines: Seq<Text>)
    ensures
        ({
            let c = verdict(cfg, lines).1;
            &&& c == (ConfigView {
                relay_host: c.relay_host,
                relay_port: c.relay_port,
                proxy_auth: c.proxy_auth,
                ..cfg
            })
            &&& cfg.proxy_auth == ProxyAuthType::Basic ==> c.proxy_auth == ProxyAuthType::Basic
            &&& verdict(cfg, lines).0 != Ok::<HttpStart, ErrorView>(HttpStart::Retry) ==> c == cfg
        }),
{
}

/// The tunnel is there only when the proxy said 200.
pub proof fn law_established_only_on_200(cfg: ConfigView, lines: Seq<Text>)
    ensures
        verdict(cfg, lines).0 == Ok::<HttpStart, ErrorView>(HttpStart::Established)
            <==> status_code(status_line(lines)) == Some(200u16),
{
}

// ---- Reading ----

/// Feeding bytes one after the other is feeding all of them.
proof fn lemma_head_concat(h: HeadView, a: Seq<u8>, b: Seq<u8>)
    ensures
        head_after(h, a + b) == head_after(head_after(h, a), b),
    decreases b.len(),
{
    if b.len() == 0 {
        assert(a + b =~= a);
    } else {
        assert((a + b).drop_last() =~= a + b.drop_last());
        assert((a + b).last() == b.last());
        lemma_head_concat(h, a, b.drop_last());
    }
}

/// A complete head takes no more bytes.
pub proof fn law_complete_head_stays(h: HeadView, bytes: Seq<u8>)
    requires
        h.complete,
    ensures
        head_after(h, bytes) == h,
    decreases bytes.len(),
{
    if bytes.len() > 0 {
        law_complete_head_stays(h, bytes.drop_last());
    }
}

/// The bytes of a text are added to the line.
proof fn lemma_head_text(h: HeadView, t: Text)
    requires
        !h.complete,
        is_line(t),
    ensures
        head_after(h, latin1(t)) == (HeadView { line: h.line + t, ..h }),
    decreases t.len(),
{
    let b = latin1(t);
    if t.len() == 0 {
        assert(h.line + t =~= h.line);
    } else {
        let s = t.drop_last();
        assert(b.drop_last() =~= latin1(s));
        assert(is_line(s)) by {
            assert forall|i: int| 0 <= i < s.len() implies #[trigger] s[i] <= '\u{ff}' && s[i]
                != '\r' && s[i] != '\n' by {
                assert(s[i] == t[i]);
            }
        }
        lemma_head_text(h, s);
        lemma_line_bytes(t);
        lemma_line_text(t);
        lemma_line_text(s);
        let c = b.last();
        assert(c == latin1(t)[t.len() - 1]);
        assert(c as char == t.last()) by {
            assert(crate::proxy::util::line_text(b).last() == c as char);
        }
        assert((h.line + s).push(t.last()) =~= h.line + t);
    }
}

/// A line with CRLF behind it ends a line.
proof fn lemma_head_line(h: HeadView, t: Text)
    requires
        !h.complete,
        h.line.len() == 0,
        is_line(t),
    ensures
        head_after(h, latin1(t).push(CR)) == (HeadView { line: t, ..h }),
        head_after(h, latin1(t) + seq![CR, LF]) == end_line(HeadView { line: t, ..h }),
{
    let a = latin1(t);
    lemma_head_text(h, t);
    assert(h.line + t =~= t);
    assert(a.push(CR).drop_last() =~= a);
    let b = a + seq![CR, LF];
    assert(b.drop_last() =~= a.push(CR));
}

/// Lines with CRLF behind each.
pub open spec fn line_bytes(ls: Seq<Text>) -> Seq<u8>
    decreases ls.len(),
{
    if ls.len() == 0 {
        Seq::empty()
    } else {
        line_bytes(ls.drop_last()) + latin1(ls.last()) + seq![CR, LF]
    }
}

/// A head as a proxy sends it: the status line, the headers, and an empty line.
pub open spec fn head_bytes(status: Text, headers: Seq<Text>) -> Seq<u8> {
    latin1(status) + seq![CR, LF] + line_bytes(headers) + seq![CR, LF]
}

/// Texts that can be headers: lines that are not empty.
pub open spec fn are_headers(ls: Seq<Text>) -> bool {
    forall|i: int| 0 <= i < ls.len() ==> #[trigger] ls[i].len() > 0 && is_line(ls[i])
}

/// Headers are collected.
proof fn lemma_head_headers(h: HeadView, ls: Seq<Text>)
    requires
        !h.complete,
        h.lines.len() > 0,
        h.line.len() == 0,
        are_headers(ls),
    ensures
        head_after(h, line_bytes(ls)) == (HeadView {
            lines: h.lines + ls,
            line: Seq::empty(),
            ..h
        }),
    decreases ls.len(),
{
    if ls.len() == 0 {
        assert(h.lines + ls =~= h.lines);
        assert(h.line =~= Seq::empty());
    } else {
        let front = ls.drop_last();
        let t = ls.last();
        assert(t == ls[ls.len() - 1]);
        assert(are_headers(front)) by {
            assert forall|i: int| 0 <= i < front.len() implies #[trigger] front[i].len() > 0
                && is_line(front[i]) by {
                assert(front[i] == ls[i]);
            }
        }
        lemma_head_headers(h, front);
        let g = head_after(h, line_bytes(front));
        lemma_head_line(g, t);
        assert(line_bytes(ls) =~= line_bytes(front) + (latin1(t) + seq![CR, LF]));
        lemma_head_concat(h, line_bytes(front), latin1(t) + seq![CR, LF]);
        assert((h.lines + front).push(t) =~= h.lines + ls);
    }
}

/// The head that a proxy sends is read back: its status line and headers, and it
/// is complete with the last byte of its empty line and not before. So what
/// follows it in the stream is left to the tunnel.
pub proof fn law_head_round_trip(auth: ProxyAuthType, status: Text, headers: Seq<Text>, n: int)
    requires
        is_line(status),
        wants_headers(status, auth),
        are_headers(headers),
        0 <= n < head_bytes(status, headers).len(),
    ensures
        head_after(empty_head(auth), head_bytes(status, headers)) == (HeadView {
            lines: seq![status] + headers,
            line: Seq::empty(),
            complete: true,
            auth,
        }),
        !head_after(empty_head(auth), head_bytes(status, headers).take(n)).complete,
{
    let h0 = empty_head(auth);
    let a = latin1(status) + seq![CR, LF];
    let b = line_bytes(headers);
    lemma_head_line(h0, status);
    let h1 = head_after(h0, a);
    assert(h0.lines.push(status) =~= seq![status]);
    lemma_head_headers(h1, headers);
    let h2 = head_after(h1, b);
    lemma_head_concat(h0, a, b);
    let all = head_bytes(status, headers);
    let most = (a + b).push(CR);
    assert(all =~= most.push(LF));
    assert(all.drop_last() =~= most);
    assert(most.drop_last() =~= a + b);
    assert(head_after(h0, most) == h2);
    assert(h2.lines =~= seq![status] + headers);
    let early = head_after(h0, all.take(n));
    if early.complete {
        let rest = most.skip(n);
        assert(most =~= all.take(n) + rest);
        lemma_head_concat(h0, all.take(n), rest);
        law_complete_head_stays(early, rest);
    }
}

// ---- Redirection ----

/// `Location: //host:port/path` sends us to that host and port, with any scheme
/// before the slashes.
pub proof fn law_location(r: Redirect, scheme: Text, host: Text, port: u16, path: Text)
    requires
        scheme.len() == 0 || (scheme.last() == ':' && is_scheme(scheme.drop_last())),
        !holds(host, '/'),
        ({
            let value = scheme + "//"@ + host + ":"@ + decimal(port as nat) + "/"@ + path;
            trim(value) == value
        }),
    ensures
        redirect_line(
            r,
            "Location: "@ + (scheme + "//"@ + host + ":"@ + decimal(port as nat) + "/"@ + path),
        ) == (Redirect { host: Some(host), port }),
{
    let d = decimal(port as nat);
    let value = scheme + "//"@ + host + ":"@ + d + "/"@ + path;
    reveal_strlit("//");
    let m = scheme.len() as int;
    let rest = host + ":"@ + d + "/"@ + path;
    assert(value =~= scheme + ("//"@ + rest));
    assert forall|i: int| 0 <= i < m implies scheme[i] != '/' by {
        if i < m - 1 {
            assert(is_scheme_char(scheme.drop_last()[i]));
        }
    }
    lemma_find_at(scheme, '/', m);
    lemma_find_slashes(scheme, rest);
    if m > 0 {
        assert(value.take(m - 1) =~= scheme.drop_last());
        assert(value[m - 1] == scheme[m - 1]);
    }
    assert(value.skip(m + 2) =~= rest);
    lemma_redirect_to(r, value, host, port, path);
}

/// `Location: host:port/path` sends us to that host and port, whatever slashes the
/// path has.
pub proof fn law_bare_location(r: Redirect, host: Text, port: u16, path: Text)
    requires
        !holds(host, '/'),
        ({
            let value = host + ":"@ + decimal(port as nat) + "/"@ + path;
            trim(value) == value
        }),
    ensures
        redirect_line(
            r,
            "Location: "@ + (host + ":"@ + decimal(port as nat) + "/"@ + path),
        ) == (Redirect { host: Some(host), port }),
{
    let d = decimal(port as nat);
    let value = host + ":"@ + d + "/"@ + path;
    let n = host.len() as int;
    let m = n + 1 + d.len();
    reveal_strlit("/");
    reveal_strlit("//");
    reveal_strlit(":");
    lemma_decimal_value(port as nat);
    lemma_find(host, '/');
    assert forall|i: int| 0 <= i < m implies value[i] != '/' by {
        if i < n {
            assert(value[i] == host[i]);
        } else if i > n {
            assert(value[i] == d[i - n - 1]);
        }
    }
    assert(value[m] == '/');
    assert(value[m - 1] == d[d.len() - 1]);
    let k = find_text(value, "//"@);
    if k >= 0 {
        lemma_text_found(value, "//"@);
        assert(value.subrange(k, k + 2)[0] == '/');
        assert(k >= m);
        if k > m + 1 {
            assert(value.take(k - 1)[m] == '/');
            assert(!is_scheme_char('/'));
            assert(!is_scheme(value.take(k - 1)));
        }
    }
    assert(value.skip(0) =~= value);
    lemma_redirect_to(r, value, host, port, path);
}

/// An authority of a host and a port is where the line sends us.
proof fn lemma_redirect_to(r: Redirect, value: Text, host: Text, port: u16, path: Text)
    requires
        trim(value) == value,
        !holds(host, '/'),
        value.skip(authority_start(value)) == host + ":"@ + decimal(port as nat) + "/"@ + path,
    ensures
        redirect_line(r, "Location: "@ + value) == (Redirect { host: Some(host), port }),
{
    let d = decimal(port as nat);
    let line = "Location: "@ + value;
    reveal_strlit("Location: ");
    reveal_strlit("location: ");
    reveal_strlit("/");
    reveal_strlit(":");
    lemma_decimal_value(port as nat);
    assert(lowered(line).take(10) =~= "location: "@);
    assert("location: "@.is_prefix_of(lowered(line)));
    assert(line.skip(10) =~= value);
    let hp = host + ":"@ + d;
    let rest = hp + "/"@ + path;
    lemma_find(host, '/');
    assert forall|i: int| 0 <= i < hp.len() implies rest[i] != '/' by {
        if i < host.len() {
            assert(rest[i] == host[i]);
        } else if i > host.len() {
            assert(rest[i] == d[i - host.len() - 1]);
        }
    }
    lemma_find_at(rest, '/', hp.len() as int);
    assert(rest.take(hp.len() as int) =~= hp);
    lemma_rfind(hp, ':');
    let n = host.len() as int;
    assert(hp[n] == ':');
    assert forall|i: int| n < i < hp.len() implies hp[i] != ':' by {
        assert(hp[i] == d[i - n - 1]);
    }
    assert(rfind(hp, ':') == n);
    assert(hp.take(n) =~= host);
    assert(hp.skip(n + 1) =~= d);
}

/// A text that is found stands where it is found.
proof fn lemma_text_found(s: Text, p: Text)
    requires
        find_text(s, p) >= 0,
    ensures
        ({
            let k = find_text(s, p);
            k + p.len() <= s.len() && s.subrange(k, k + p.len()) == p
        }),
    decreases s.len(),
{
    if !p.is_prefix_of(s) {
        let t = s.drop_first();
        lemma_text_found(t, p);
        let k = find_text(t, p);
        assert(s.subrange(k + 1, k + 1 + p.len()) =~= t.subrange(k, k + p.len()));
    }
}

/// The first `//` stands behind what has no slash.
pub proof fn lemma_find_slashes(scheme: Text, rest: Text)
    requires
        !holds(scheme, '/'),
    ensures
        find_text(scheme + ("//"@ + rest), "//"@) == scheme.len(),
    decreases scheme.len(),
{
    reveal_strlit("//");
    let s = scheme + ("//"@ + rest);
    if scheme.len() == 0 {
        assert(s.subrange(0, 2) =~= "//"@);
        assert("//"@.is_prefix_of(s));
    } else {
        lemma_find(scheme, '/');
        assert(s[0] == scheme[0] && scheme[0] != '/');
        assert(!"//"@.is_prefix_of(s)) by {
            if "//"@.is_prefix_of(s) {
                assert("//"@[0] == s.subrange(0, 2)[0]);
            }
        }
        let t = scheme.drop_first();
        assert forall|i: int| 0 <= i < t.len() implies t[i] != '/' by {
            assert(t[i] == scheme[i + 1]);
        }
        lemma_find_at(t, '/', t.len() as int);
        lemma_find_slashes(t, rest);
        assert(s.drop_first() =~= t + ("//"@ + rest));
    }
}

} // verus!

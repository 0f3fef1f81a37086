//! What holds of every SOCKS5 session, byte by byte.

use vstd::prelude::*;
use vstd::string::*;
use vstd::utf8::encode_utf8;

use crate::addr::{ipv6_bytes, law_ip_text, law_ipv4_text, parse_ip, IpAddr, Ipv4Addr, Ipv6Addr};
use crate::config::{ConfigView, ResolveMode};
use crate::error::ErrorView;
use crate::number::decimal;
use crate::proxy::socks5::request::{connect_reply, connect_request, reply_len};
use crate::proxy::socks5::{
    auth_list, auth_method, auth_methods, first_step, next_step, EventView, StageView, StepView,
};
use crate::resolve::SocketView;
use crate::text::laws::{all_space, is_tight, law_split, law_split_both, law_trim};
use crate::text::{holds, lemma_find, lemma_find_at, lowered, split, Text};

verus! {

// ---- Methods ----

/// The methods of two lists are those of the first and then those of the second.
pub proof fn law_auth_lists_add_up(a: Text, b: Text)
    ensures
        auth_list(a + seq![','] + b) == auth_list(a) + auth_list(b),
{
    law_split_both(a, b, ',');
    lemma_methods_add_up(split(a, ','), split(b, ','));
}

proof fn lemma_methods_add_up(a: Seq<Text>, b: Seq<Text>)
    ensures
        auth_methods(a + b) == auth_methods(a) + auth_methods(b),
    decreases b.len(),
{
    if b.len() == 0 {
        assert(a + b =~= a);
        assert(auth_methods(a) + auth_methods(b) =~= auth_methods(a));
    } else {
        let h = b.drop_last();
        lemma_methods_add_up(a, h);
        assert((a + b).drop_last() =~= a + h);
        assert((a + b).last() == b.last());
        assert(auth_methods(a + b) =~= auth_methods(a) + auth_methods(b));
    }
}

/// A word names a method in any case and with any white space around it: these words
/// no authentication, those user and password, and every other word nothing.
pub proof fn law_auth_word(a: Text, w: Text, b: Text)
    requires
        all_space(a),
        is_tight(w),
        all_space(b),
        !holds(w, ','),
    ensures
        ({
            let l = lowered(w);
            let free = l == "none"@ || l == "noauth"@ || l == "no-auth"@;
            let user = l == "userpass"@ || l == "user-password"@ || l == "user/pasword"@ || l
                == "password"@;
            &&& free ==> auth_list(a + w + b) == seq![0x00u8]
            &&& user ==> auth_list(a + w + b) == seq![0x02u8]
            &&& !free && !user ==> auth_list(a + w + b) == Seq::<u8>::empty()
        }),
{
    let s = a + w + b;
    law_trim(a, w, b);
    lemma_find(w, ',');
    assert forall|i: int| 0 <= i < s.len() implies s[i] != ',' by {
        if i < a.len() {
            assert(s[i] == a[i]);
            assert(crate::text::is_space(a[i]));
        } else if i < a.len() + w.len() {
            assert(s[i] == w[i - a.len()]);
        } else {
            assert(s[i] == b[i - a.len() - w.len()]);
            assert(crate::text::is_space(b[i - a.len() - w.len()]));
        }
    }
    lemma_find_at(s, ',', s.len() as int);
    law_split(s, Seq::empty(), ',');
    assert(seq![s].drop_last() =~= Seq::<Text>::empty());
    reveal_with_fuel(auth_methods, 2);
    reveal_strlit("none");
    reveal_strlit("noauth");
    reveal_strlit("no-auth");
    reveal_strlit("userpass");
    reveal_strlit("user-password");
    reveal_strlit("user/pasword");
    reveal_strlit("password");
    assert("none"@[0] == 'n' && "noauth"@[0] == 'n' && "no-auth"@[0] == 'n');
    assert("userpass"@[0] == 'u' && "user-password"@[0] == 'u' && "user/pasword"@[0] == 'u'
        && "password"@[0] == 'p');
    if let Some(m) = auth_method(s) {
        assert(Seq::<u8>::empty().push(m) =~= seq![m]);
    }
}

/// The greeting offers what the list says, in its order; without a list both methods,
/// and for a list that names none no authentication.
pub proof fn law_first_bytes(cfg: ConfigView, list: Text)
    ensures
        cfg.socks5_auth is None ==> first_step(cfg) == StepView::Exchange(
            StageView::Method,
            seq![0x05u8, 2u8, 0x00u8, 0x02u8],
            2,
        ),
        cfg.socks5_auth == Some(list) && auth_list(list).len() == 0 ==> first_step(cfg)
            == StepView::Exchange(StageView::Method, seq![0x05u8, 1u8, 0x00u8], 2),
        cfg.socks5_auth == Some(list) && 0 < auth_list(list).len() <= 255 ==> first_step(cfg)
            == StepView::Exchange(
            StageView::Method,
            seq![0x05u8, auth_list(list).len() as u8] + auth_list(list),
            2,
        ),
        cfg.socks5_auth == Some(list) && auth_list(list).len() > 255 ==> first_step(cfg)
            == StepView::Fail(ErrorView::Config("SOCKS5 too many auth methods"@)),
{
    if cfg.socks5_auth is None {
        assert(seq![0x05u8, 2u8] + seq![0x00u8, 0x02u8] =~= seq![0x05u8, 2u8, 0x00u8, 0x02u8]);
    }
    assert(seq![0x05u8, 1u8] + seq![0x00u8] =~= seq![0x05u8, 1u8, 0x00u8]);
}

// ---- The proxy's choice ----

/// The host is left to the proxy, or is an address already.
pub open spec fn is_ready(cfg: ConfigView) -> bool {
    cfg.socks_resolve != ResolveMode::Local || parse_ip(cfg.dest_host) is Some
}

/// What the proxy chooses decides how it goes on: nothing more, user and password, or
/// the end.
pub proof fn law_chosen_method(cfg: ConfigView, m: u8, b: Seq<u8>)
    ensures
        ({
            let got = |s: Seq<u8>| next_step(StageView::Method, EventView::Received(s), cfg).0;
            &&& next_step(StageView::Method, EventView::Received(b), cfg).1 == cfg
            &&& is_ready(cfg) ==> match connect_request(cfg.dest_host, cfg.dest_port) {
                Ok(r) => got(seq![0x05u8, 0x00u8]) == StepView::Exchange(
                    StageView::Reply(Seq::empty()),
                    r,
                    4,
                ),
                Err(e) => got(seq![0x05u8, 0x00u8]) == StepView::Fail(e),
            }
            &&& !is_ready(cfg) ==> got(seq![0x05u8, 0x00u8]) == StepView::Resolve(
                StageView::Resolution,
            )
            &&& got(seq![0x05u8, 0x02u8]) == StepView::Ask(StageView::Credentials)
            &&& got(seq![0x05u8, 0xFFu8]) == StepView::Fail(ErrorView::Socks5NoAuth)
            &&& m != 0x00 && m != 0x02 && m != 0xFF ==> got(seq![0x05u8, m]) == StepView::Fail(
                ErrorView::Socks5UnsupportedMethod(m),
            )
            &&& b.len() < 2 ==> got(b) == StepView::Fail(ErrorView::Io("early eof"@))
            &&& b.len() >= 2 && b[0] != 0x05 ==> got(b) == StepView::Fail(
                ErrorView::Config("SOCKS5 method reply VER="@ + decimal(b[0] as nat)),
            )
        }),
{
}

/// User and password are sent with their lengths before them; what is longer than a
/// byte can say is refused, and so is a user that is not there.
pub proof fn law_credentials_sent(cfg: ConfigView, user: Text, pass: Text)
    ensures
        ({
            let (u, p) = (encode_utf8(user), encode_utf8(pass));
            let got = next_step(
                StageView::Credentials,
                EventView::Credentials(Some(user), pass),
                cfg,
            );
            &&& u.len() <= 255 && p.len() <= 255 ==> got == (
                StepView::Exchange(
                    StageView::Status,
                    seq![0x01u8, u.len() as u8] + u + seq![p.len() as u8] + p,
                    2,
                ),
                cfg,
            )
            &&& u.len() > 255 || p.len() > 255 ==> got == (
                StepView::Fail(ErrorView::Config("SOCKS5 username/password too long"@)),
                cfg,
            )
            &&& next_step(StageView::Credentials, EventView::Credentials(None, pass), cfg) == (
                StepView::Fail(ErrorView::Auth("missing SOCKS5 user"@)),
                cfg,
            )
        }),
{
}

/// A proxy that accepts the credentials goes on as if it had asked for none; every
/// other answer ends the session.
pub proof fn law_credentials_answered(cfg: ConfigView, b: Seq<u8>)
    ensures
        next_step(StageView::Status, EventView::Received(seq![0x01u8, 0x00u8]), cfg) == next_step(
            StageView::Method,
            EventView::Received(seq![0x05u8, 0x00u8]),
            cfg,
        ),
        b.len() >= 2 && (b[0] != 0x01 || b[1] != 0x00) ==> next_step(
            StageView::Status,
            EventView::Received(b),
            cfg,
        ) == (StepView::Fail(ErrorView::Socks5AuthFailed), cfg),
        b.len() < 2 ==> next_step(StageView::Status, EventView::Received(b), cfg) == (
            StepView::Fail(ErrorView::Io("early eof"@)),
            cfg,
        ),
{
}

// ---- Resolution ----

/// A host that is resolved here becomes the first address that was found, and the
/// request is for that address; where none was found the session ends.
pub proof fn law_resolved_host(cfg: ConfigView, addrs: Seq<SocketView>, ip: IpAddr, e: ErrorView)
    requires
        !is_ready(cfg),
        addrs.len() > 0,
        addrs[0].ip() == ip@,
    ensures
        ({
            let c = ConfigView { dest_host: ip@.text(), ..cfg };
            &&& next_step(StageView::Resolution, EventView::Resolved(Ok(addrs)), cfg).1 == c
            &&& match connect_request(ip@.text(), cfg.dest_port) {
                Ok(r) => next_step(
                    StageView::Resolution,
                    EventView::Resolved(Ok(addrs)),
                    cfg,
                ).0 == StepView::Exchange(StageView::Reply(Seq::empty()), r, 4),
                Err(_) => false,
            }
            &&& next_step(StageView::Resolution, EventView::Resolved(Ok(Seq::empty())), cfg) == (
                StepView::Fail(ErrorView::Dns("no addresses for "@ + cfg.dest_host)),
                cfg,
            )
            &&& next_step(StageView::Resolution, EventView::Resolved(Err(e)), cfg) == (
                StepView::Fail(e),
                cfg,
            )
        }),
{
    law_ip_text(ip);
}

// ---- The request ----

/// A request to an IPv4 address: its type, its octets and the port.
pub proof fn law_ipv4_request(ip: Ipv4Addr, port: u16, hi: u8, lo: u8)
    requires
        port == hi * 0x100 + lo,
    ensures
        connect_request(ip.text(), port) == Ok::<Seq<u8>, ErrorView>(
            seq![0x05u8, 0x01u8, 0x00u8, 0x01u8, ip.a, ip.b, ip.c, ip.d, hi, lo],
        ),
{
    law_ipv4_text(ip.text(), ip);
    assert(port / 0x100 == hi && port % 0x100 == lo);
    assert(connect_request(ip.text(), port)->Ok_0 =~= seq![
        0x05u8,
        0x01u8,
        0x00u8,
        0x01u8,
        ip.a,
        ip.b,
        ip.c,
        ip.d,
        hi,
        lo,
    ]);
}

/// A request to an IPv6 address: its type, its sixteen octets and the port.
pub proof fn law_ipv6_request(ip: Ipv6Addr, port: u16, hi: u8, lo: u8, i: int)
    requires
        port == hi * 0x100 + lo,
        0 <= i < 8,
    ensures
        connect_request(IpAddr::V6(ip)@.text(), port) matches Ok(f) && f.len() == 22 && f.take(4)
            == seq![0x05u8, 0x01u8, 0x00u8, 0x04u8] && f[4 + 2 * i] * 0x100 + f[5 + 2 * i]
            == ip.segments@[i] && f[20] == hi && f[21] == lo,
{
    law_ip_text(IpAddr::V6(ip));
    let s = ip.segments@;
    let f = connect_request(IpAddr::V6(ip)@.text(), port)->Ok_0;
    assert(port / 0x100 == hi && port % 0x100 == lo);
    assert(f.take(4) =~= seq![0x05u8, 0x01u8, 0x00u8, 0x04u8]);
    assert(f[4 + 2 * i] == ipv6_bytes(s)[2 * i]);
    assert(f[5 + 2 * i] == ipv6_bytes(s)[2 * i + 1]);
    assert(2 * i / 2 == i && 2 * i % 2 == 0 && (2 * i + 1) / 2 == i && (2 * i + 1) % 2 == 1);
}

/// A request to a name: its type, its length, its bytes and the port; a name that is
/// too long is refused with it.
pub proof fn law_name_request(host: Text, port: u16, hi: u8, lo: u8)
    requires
        parse_ip(host) is None,
        port == hi * 0x100 + lo,
    ensures
        ({
            let n = encode_utf8(host);
            &&& n.len() <= 255 ==> connect_request(host, port) == Ok::<Seq<u8>, ErrorView>(
                seq![0x05u8, 0x01u8, 0x00u8, 0x03u8, n.len() as u8] + n + seq![hi, lo],
            )
            &&& n.len() > 255 ==> connect_request(host, port) == Err::<Seq<u8>, ErrorView>(
                ErrorView::Config("SOCKS5 destination hostname too long: "@ + host),
            )
        }),
{
    let n = encode_utf8(host);
    assert(port / 0x100 == hi && port % 0x100 == lo);
    if n.len() <= 255 {
        assert(connect_request(host, port)->Ok_0 =~= seq![
            0x05u8,
            0x01u8,
            0x00u8,
            0x03u8,
            n.len() as u8,
        ] + n + seq![hi, lo]);
    }
}

// ---- The reply ----

/// A success reply is its head, the address that its type says, and a port; with less
/// the stream ended too early, with more the rest is not its.
pub proof fn law_success_replies(rsv: u8, tail: Seq<u8>)
    ensures
        ({
            let v4 = seq![0x05u8, 0x00u8, rsv, 0x01u8] + tail;
            let v6 = seq![0x05u8, 0x00u8, rsv, 0x04u8] + tail;
            let name = seq![0x05u8, 0x00u8, rsv, 0x03u8] + tail;
            let early = Err::<(), ErrorView>(ErrorView::Io("early eof"@));
            &&& reply_len(v4) == 10
            &&& reply_len(v6) == 22
            &&& reply_len(name) == (if tail.len() == 0 {
                5
            } else {
                7 + tail[0] as nat
            })
            &&& connect_reply(v4) == (if tail.len() >= 6 {
                Ok::<(), ErrorView>(())
            } else {
                early
            })
            &&& connect_reply(v6) == (if tail.len() >= 18 {
                Ok::<(), ErrorView>(())
            } else {
                early
            })
            &&& connect_reply(name) == (if tail.len() >= 1 && tail.len() >= 3 + tail[0] {
                Ok::<(), ErrorView>(())
            } else {
                early
            })
        }),
{
    let name = seq![0x05u8, 0x00u8, rsv, 0x03u8] + tail;
    if tail.len() > 0 {
        assert(name[4] == tail[0]);
    }
}

/// Any other reply fails by its head alone: another version, a code that is not
/// success, or a type of address that there is not.
pub proof fn law_failure_replies(s: Seq<u8>)
    ensures
        s.len() < 4 ==> connect_reply(s) == Err::<(), ErrorView>(ErrorView::Io("early eof"@)),
        s.len() >= 4 && s[0] != 0x05 ==> reply_len(s) == 4 && connect_reply(s) == Err::<
            (),
            ErrorView,
        >(ErrorView::Config("SOCKS5 reply VER="@ + decimal(s[0] as nat))),
        s.len() >= 4 && s[0] == 0x05 && s[1] != 0x00 ==> reply_len(s) == 4 && connect_reply(s)
            == Err::<(), ErrorView>(ErrorView::Socks5Reply(s[1])),
        s.len() >= 4 && s[0] == 0x05 && s[1] == 0x00 && s[3] != 0x01 && s[3] != 0x03 && s[3]
            != 0x04 ==> reply_len(s) == 4 && connect_reply(s) == Err::<(), ErrorView>(
            ErrorView::Socks5Atyp(s[3]),
        ),
{
}

/// The reply is read as far as it goes: more is asked for while it is short, and then
/// it decides.
pub proof fn law_reply_decides(got: Seq<u8>, more: Seq<u8>, cfg: ConfigView)
    ensures
        ({
            let s = got + more;
            let short = reply_len(s) > s.len();
            let whole = more.len() >= reply_len(got) - got.len();
            let next = next_step(StageView::Reply(got), EventView::Received(more), cfg);
            &&& next.1 == cfg
            &&& whole && short ==> next.0 == StepView::Receive(
                StageView::Reply(s),
                (reply_len(s) - s.len()) as nat,
            )
            &&& !(whole && short) && connect_reply(s) is Ok ==> next.0 == StepView::Done
            &&& !(whole && short) ==> (connect_reply(s) matches Err(e) ==> next.0
                == StepView::Fail(e))
        }),
{
}

/// A host that needs no resolution is not replaced, whatever a lookup gave.
pub proof fn law_ready_host_stays(
    cfg: ConfigView,
    addrs: std::result::Result<Seq<SocketView>, ErrorView>,
)
    requires
        is_ready(cfg),
    ensures
        next_step(StageView::Resolution, EventView::Resolved(addrs), cfg) == next_step(
            StageView::Method,
            EventView::Received(seq![0x05u8, 0x00u8]),
            cfg,
        ),
{
}

} // verus!

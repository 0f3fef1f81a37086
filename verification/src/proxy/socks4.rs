//! SOCKS v4 / v4a handshake.
//!
//! Wire formats:
//!
//! ```text
//! Connect request (v4):  VN=4 | CD=1 | PORT(2 BE) | ADDR(4) | USERID\0
//! Connect request (v4a): VN=4 | CD=1 | PORT(2 BE) | ADDR=0.0.0.X | USERID\0 | HOSTNAME\0
//! Connect reply:         VN(0) | CD | DSTPORT(2) | DSTIP(4)     (8 bytes)
//! ```
//!
//! SOCKS4a is signalled by setting the last IP byte to non-zero when the
//! destination is not resolved here (i.e. `socks_resolve` is `Remote`, or `Both`,
//! which counts as `Remote`). The proxy uses the appended `HOSTNAME` to perform
//! DNS itself.
//!
//! [`begin`], [`resolved`] and [`finish`] follow each other; each says what to do
//! next.

pub mod reply;

use vstd::prelude::*;
use vstd::string::*;
use vstd::utf8::encode_utf8;

use crate::addr::{be16, law_ipv4_text, parse_ipv4, push_be16, read_ipv4, Ipv4Addr};
use crate::config::{Config, ConfigView, ResolveMode};
use crate::error::{Error, ErrorView, Result};
use crate::proxy::util::{early_end, Incoming};
use crate::resolve::{resolved_view, socket_views, SocketAddr, SocketView};
use crate::text::{chars_of, concat, opt_text, Text};

verus! {

/// SOCKS4a marker: last octet of the ADDR field is set to non-zero to
/// signal that the trailing `HOSTNAME\0` should be used for resolution.
pub const SOCKS4A_MARKER: u8 = 0x01;

// ---- Destination ----

/// The destination is to be resolved here, and is no IPv4 address yet.
pub open spec fn needs_resolution(cfg: ConfigView) -> bool {
    cfg.socks_resolve == ResolveMode::Local && parse_ipv4(cfg.dest_host) is None
}

/// The first IPv4 address.
pub open spec fn first_v4(s: Seq<SocketView>) -> Option<Ipv4Addr>
    decreases s.len(),
{
    if s.len() == 0 {
        None
    } else {
        match s[0] {
            SocketView::V4 { ip, .. } => Some(ip),
            _ => first_v4(s.drop_first()),
        }
    }
}

/// The address to put into the request (none if the proxy resolves) and the
/// configuration then, or why there is none.
pub open spec fn resolved_destination(
    cfg: ConfigView,
    addrs: std::result::Result<Seq<SocketView>, ErrorView>,
) -> std::result::Result<(Option<Ipv4Addr>, ConfigView), ErrorView> {
    if cfg.socks_resolve != ResolveMode::Local {
        Ok((None, cfg))
    } else if parse_ipv4(cfg.dest_host) is Some {
        Ok((parse_ipv4(cfg.dest_host), cfg))
    } else {
        match addrs {
            Err(e) => Err(e),
            Ok(v) => match first_v4(v) {
                Some(ip) => Ok((Some(ip), ConfigView { dest_host: ip.text(), ..cfg })),
                None => Err(
                    ErrorView::Dns(
                        "no IPv4 address for "@ + cfg.dest_host + " (SOCKS4 needs IPv4)"@,
                    ),
                ),
            },
        }
    }
}

/// Whether [`maybe_resolve_destination`] needs addresses of the destination.
pub fn must_resolve(cfg: &Config) -> (r: bool)
    ensures
        r == needs_resolution(cfg@),
{
    if cfg.socks_resolve != ResolveMode::Local {
        return false;
    }
    let v = chars_of(cfg.dest_host.as_str());
    read_ipv4(v.as_slice()).is_none()
}

/// Resolve `dest_host` if `socks_resolve == Local`. Returns:
/// - `Some(Ipv4Addr)` if resolved
/// - `None` if the proxy resolves (caller will emit the SOCKS4a marker)
///
/// The wire format only carries IPv4, so the first IPv4 address is picked.
/// `addrs` is what the host resolved to; it is ignored where it is not needed.
pub fn maybe_resolve_destination(cfg: &mut Config, addrs: Result<Vec<SocketAddr>>) -> (r: Result<
    Option<Ipv4Addr>,
>)
    ensures
        match (r, resolved_destination(old(cfg)@, resolved_view(addrs))) {
            (Ok(ip), Ok(t)) => ip == t.0 && final(cfg)@ == t.1,
            (Err(e), Err(f)) => e@ == f && final(cfg)@ == old(cfg)@,
            _ => false,
        },
{
    if cfg.socks_resolve != ResolveMode::Local {
        return Ok(None);
    }
    let host = chars_of(cfg.dest_host.as_str());
    if let Some(ip) = read_ipv4(host.as_slice()) {
        return Ok(Some(ip));
    }
    let v = match addrs {
        Ok(v) => v,
        Err(e) => {
            return Err(e);
        },
    };
    let ghost all = socket_views(v@);
    assert(all.skip(0) =~= all);
    for i in 0..v.len()
        invariant
            all == socket_views(v@),
            cfg@ == old(cfg)@,
            first_v4(all.skip(i as int)) == first_v4(all),
            resolved_view(addrs) == Ok::<Seq<SocketView>, ErrorView>(all),
            cfg@.socks_resolve == ResolveMode::Local,
            parse_ipv4(cfg@.dest_host) is None,
    {
        assert(all.skip(i as int)[0] == v@[i as int]@);
        assert(all.skip(i as int).drop_first() =~= all.skip(i + 1));
        if let SocketAddr::V4 { ip, .. } = v[i] {
            cfg.dest_host = ip.to_text();
            return Ok(Some(ip));
        }
    }
    let mut m = concat("no IPv4 address for ", cfg.dest_host.as_str());
    m.append(" (SOCKS4 needs IPv4)");
    Err(Error::Dns(m))
}

// ---- Request ----

/// The HOSTNAME field: there where the proxy resolves.
pub open spec fn hostname_field(cfg: ConfigView, ip: Option<Ipv4Addr>) -> Seq<u8> {
    if ip is None && (cfg.socks_resolve == ResolveMode::Remote || cfg.socks_resolve
        == ResolveMode::Both) {
        encode_utf8(cfg.dest_host).push(0)
    } else {
        Seq::empty()
    }
}

/// The ADDR field: the address, or the marker.
pub open spec fn addr_field(ip: Option<Ipv4Addr>) -> Seq<u8> {
    match ip {
        Some(a) => a.bytes(),
        None => seq![0u8, 0u8, 0u8, SOCKS4A_MARKER],
    }
}

/// The bytes of a connect request, or why there are none.
pub open spec fn connect_request(
    cfg: ConfigView,
    user: Text,
    ip: Option<Ipv4Addr>,
) -> std::result::Result<Seq<u8>, ErrorView> {
    if encode_utf8(user).len() > 255 {
        Err(ErrorView::Config("SOCKS4 username too long"@))
    } else if encode_utf8(cfg.dest_host).len() > 255 {
        Err(ErrorView::Config("SOCKS4 hostname too long"@))
    } else {
        Ok(
            seq![0x04u8, 0x01u8] + be16(cfg.dest_port) + addr_field(ip) + encode_utf8(user).push(0)
                + hostname_field(cfg, ip),
        )
    }
}

fn write_request(cfg: &Config, user: &str, ip: Option<Ipv4Addr>) -> (r: Result<Vec<u8>>)
    ensures
        match r {
            Ok(b) => connect_request(cfg@, user@, ip) == Ok::<Seq<u8>, ErrorView>(b@),
            Err(e) => connect_request(cfg@, user@, ip) == Err::<Seq<u8>, ErrorView>(e@),
        },
{
    let user_bytes = user.as_bytes();
    let host_bytes = cfg.dest_host.as_str().as_bytes();
    if user_bytes.len() > 255 {
        return Err(Error::Config("SOCKS4 username too long".to_owned()));
    }
    if host_bytes.len() > 255 {
        return Err(Error::Config("SOCKS4 hostname too long".to_owned()));
    }
    let mut req: Vec<u8> = Vec::new();
    req.push(0x04);
    req.push(0x01);
    push_be16(&mut req, cfg.dest_port);
    match ip {
        Some(a) => {
            let octets = a.octets();
            req.extend_from_slice(octets.as_slice());
        },
        None => {
            req.push(0);
            req.push(0);
            req.push(0);
            req.push(SOCKS4A_MARKER);
        },
    }
    assert(req@ =~= seq![0x04u8, 0x01u8] + be16(cfg@.dest_port) + addr_field(ip));
    req.extend_from_slice(user_bytes);
    req.push(0);
    if ip.is_none() && (cfg.socks_resolve == ResolveMode::Remote || cfg.socks_resolve
        == ResolveMode::Both) {
        req.extend_from_slice(host_bytes);
        req.push(0);
    }
    assert(req@ =~= connect_request(cfg@, user@, ip)->Ok_0);
    Ok(req)
}

// ---- Orchestration ----

/// What to do next.
#[derive(Debug)]
pub enum Step {
    /// Resolve the destination and go on with [`resolved`] and this user.
    Resolve(String),
    /// Send the bytes, receive so many, and go on with [`finish`].
    Exchange(Vec<u8>, usize),
    /// The handshake failed.
    Fail(Error),
}

/// What to do next.
pub enum StepView {
    Resolve(Text),
    Exchange(Seq<u8>, nat),
    Fail(ErrorView),
}

impl View for Step {
    type V = StepView;

    open spec fn view(&self) -> StepView {
        match self {
            Step::Resolve(u) => StepView::Resolve(u@),
            Step::Exchange(b, n) => StepView::Exchange(b@, *n as nat),
            Step::Fail(e) => StepView::Fail(e@),
        }
    }
}

/// The request to send, once the destination is resolved.
pub open spec fn resolved_step(
    cfg: ConfigView,
    user: Text,
    addrs: std::result::Result<Seq<SocketView>, ErrorView>,
) -> (StepView, ConfigView) {
    match resolved_destination(cfg, addrs) {
        Err(e) => (StepView::Fail(e), cfg),
        Ok(t) => match connect_request(t.1, user, t.0) {
            Ok(b) => (StepView::Exchange(b, 8), t.1),
            Err(e) => (StepView::Fail(e), t.1),
        },
    }
}

/// The first step.
pub open spec fn first_step(cfg: ConfigView, user: Option<Text>) -> StepView {
    match user {
        None => StepView::Fail(ErrorView::Auth("missing SOCKS4 user"@)),
        Some(u) => if needs_resolution(cfg) {
            StepView::Resolve(u)
        } else {
            resolved_step(cfg, u, Ok(Seq::empty())).0
        },
    }
}

/// Start the SOCKS4 / 4a handshake on a stream to the proxy.
pub fn begin(cfg: &mut Config, user: Option<String>) -> (r: Step)
    ensures
        r@ == first_step(old(cfg)@, opt_text(user)),
        final(cfg)@ == old(cfg)@,
{
    match user {
        None => Step::Fail(Error::Auth("missing SOCKS4 user".to_owned())),
        Some(u) => {
            if must_resolve(cfg) {
                Step::Resolve(u)
            } else {
                let none: Vec<SocketAddr> = Vec::new();
                assert(socket_views(none@) =~= Seq::empty());
                resolved(cfg, u, Ok(none))
            }
        },
    }
}

/// Go on once the destination is resolved.
pub fn resolved(cfg: &mut Config, user: String, addrs: Result<Vec<SocketAddr>>) -> (r: Step)
    ensures
        (r@, final(cfg)@) == resolved_step(old(cfg)@, user@, resolved_view(addrs)),
{
    match maybe_resolve_destination(cfg, addrs) {
        Err(e) => Step::Fail(e),
        Ok(ip) => match write_request(cfg, user.as_str(), ip) {
            Ok(b) => Step::Exchange(b, 8),
            Err(e) => Step::Fail(e),
        },
    }
}

/// What the reply says.
pub open spec fn connect_reply(s: Seq<u8>) -> std::result::Result<(), ErrorView> {
    if s.len() < 8 {
        Err(early_end())
    } else if s[1] != reply::SUCCEEDED {
        Err(ErrorView::Socks4Reply(s[1]))
    } else {
        Ok(())
    }
}

/// Read the 8-byte reply: VN(1) | CD(1) | DSTPORT(2) | DSTIP(4). When it says
/// success, the stream is connected to the destination through the proxy.
pub fn finish(stream: &mut Incoming) -> (r: Result<()>)
    ensures
        match r {
            Ok(_) => connect_reply(old(stream)@) is Ok,
            Err(e) => connect_reply(old(stream)@) == Err::<(), ErrorView>(e@),
        },
        old(stream)@.len() >= 8 ==> final(stream)@ == old(stream)@.skip(8),
        old(stream)@.len() < 8 ==> final(stream)@ == Seq::<u8>::empty(),
{
    let resp = match stream.read_exact(8) {
        Ok(b) => b,
        Err(e) => {
            return Err(e);
        },
    };
    if resp[1] != reply::SUCCEEDED {
        return Err(Error::Socks4Reply(resp[1]));
    }
    Ok(())
}

// ---- Laws ----

/// A proxy that reads a request finds in it port, address, user and, where the
/// proxy resolves, the name of the destination, each name up to its zero byte.
pub proof fn law_request_fields(cfg: ConfigView, user: Text, ip: Option<Ipv4Addr>)
    requires
        connect_request(cfg, user, ip) is Ok,
    ensures
        ({
            let f = connect_request(cfg, user, ip)->Ok_0;
            let u = encode_utf8(user);
            let n = 8 + u.len() as int;
            &&& f[0] == 0x04
            &&& f[1] == 0x01
            &&& f[2] * 0x100 + f[3] == cfg.dest_port
            &&& f.subrange(4, 8) == addr_field(ip)
            &&& f.subrange(8, n) == u
            &&& f[n] == 0
            &&& f.skip(n + 1) == hostname_field(cfg, ip)
        }),
{
    let f = connect_request(cfg, user, ip)->Ok_0;
    let u = encode_utf8(user);
    let n = 8 + u.len() as int;
    assert(f[2] == be16(cfg.dest_port)[0]);
    assert(f[3] == be16(cfg.dest_port)[1]);
    assert(f.subrange(4, 8) =~= addr_field(ip));
    assert(f.subrange(8, n) =~= u);
    assert(f.skip(n + 1) =~= hostname_field(cfg, ip));
}

/// When the client resolves, the request names an address and no host.
pub proof fn law_local_names_address(
    cfg: ConfigView,
    addrs: std::result::Result<Seq<SocketView>, ErrorView>,
)
    requires
        cfg.socks_resolve == ResolveMode::Local,
        resolved_destination(cfg, addrs) is Ok,
    ensures
        ({
            let t = resolved_destination(cfg, addrs)->Ok_0;
            &&& t.0 is Some
            &&& t.1.dest_host == t.0->0.text()
            &&& hostname_field(t.1, t.0) == Seq::<u8>::empty()
        }),
{
    let t = resolved_destination(cfg, addrs)->Ok_0;
    law_ipv4_text(cfg.dest_host, t.0->0);
}

/// When the proxy resolves, the request carries the marker and the host, and
/// nothing is looked up here.
pub proof fn law_remote_names_host(cfg: ConfigView, user: Text)
    requires
        cfg.socks_resolve == ResolveMode::Remote || cfg.socks_resolve == ResolveMode::Both,
    ensures
        first_step(cfg, Some(user)) !is Resolve,
        first_step(cfg, Some(user)) matches StepView::Exchange(b, _) ==> b
            == connect_request(cfg, user, None)->Ok_0,
        hostname_field(cfg, None) == encode_utf8(cfg.dest_host).push(0),
{
}

/// A destination that is an address is asked for by its octets, where we resolve:
/// version, command, port, address and user, and eight bytes are waited for.
pub proof fn law_address_request(cfg: ConfigView, user: Text, ip: Ipv4Addr, hi: u8, lo: u8)
    requires
        cfg.socks_resolve == ResolveMode::Local,
        cfg.dest_host == ip.text(),
        cfg.dest_port == hi * 0x100 + lo,
        encode_utf8(user).len() <= 255,
        encode_utf8(cfg.dest_host).len() <= 255,
    ensures
        first_step(cfg, Some(user)) == StepView::Exchange(
            seq![0x04u8, 0x01u8, hi, lo, ip.a, ip.b, ip.c, ip.d] + encode_utf8(user) + seq![0u8],
            8,
        ),
{
    law_ipv4_text(cfg.dest_host, ip);
    assert(cfg.dest_port / 0x100 == hi && cfg.dest_port % 0x100 == lo);
    assert(connect_request(cfg, user, Some(ip))->Ok_0 =~= seq![
        0x04u8,
        0x01u8,
        hi,
        lo,
        ip.a,
        ip.b,
        ip.c,
        ip.d,
    ] + encode_utf8(user) + seq![0u8]);
}

/// A destination that the proxy resolves is asked for by its name, behind an address
/// that is none: `0.0.0.1`.
pub proof fn law_name_request(cfg: ConfigView, user: Text, hi: u8, lo: u8)
    requires
        cfg.socks_resolve == ResolveMode::Remote || cfg.socks_resolve == ResolveMode::Both,
        cfg.dest_port == hi * 0x100 + lo,
        encode_utf8(user).len() <= 255,
        encode_utf8(cfg.dest_host).len() <= 255,
    ensures
        first_step(cfg, Some(user)) == StepView::Exchange(
            seq![0x04u8, 0x01u8, hi, lo, 0u8, 0u8, 0u8, 1u8] + encode_utf8(user) + seq![0u8]
                + encode_utf8(cfg.dest_host) + seq![0u8],
            8,
        ),
{
    assert(cfg.dest_port / 0x100 == hi && cfg.dest_port % 0x100 == lo);
    assert(connect_request(cfg, user, None)->Ok_0 =~= seq![
        0x04u8,
        0x01u8,
        hi,
        lo,
        0u8,
        0u8,
        0u8,
        1u8,
    ] + encode_utf8(user) + seq![0u8] + encode_utf8(cfg.dest_host) + seq![0u8]);
}

/// A name that we resolve is looked up first; then the first IPv4 address that was
/// found, whatever stands before it, is asked for and takes the place of the name.
pub proof fn law_resolved_request(
    cfg: ConfigView,
    user: Text,
    addrs: Seq<SocketView>,
    i: int,
    ip: Ipv4Addr,
    port: u16,
)
    requires
        cfg.socks_resolve == ResolveMode::Local,
        parse_ipv4(cfg.dest_host) is None,
        0 <= i < addrs.len(),
        addrs[i] == (SocketView::V4 { ip, port }),
        forall|k: int| 0 <= k < i ==> #[trigger] addrs[k] is V6,
    ensures
        first_step(cfg, Some(user)) == StepView::Resolve(user),
        resolved_step(cfg, user, Ok(addrs)).1 == (ConfigView { dest_host: ip.text(), ..cfg }),
        resolved_step(cfg, user, Ok(addrs)).0 == first_step(
            ConfigView { dest_host: ip.text(), ..cfg },
            Some(user),
        ),
{
    lemma_first_v4(addrs, i, ip, port);
    law_ipv4_text(ip.text(), ip);
}

proof fn lemma_first_v4(s: Seq<SocketView>, i: int, ip: Ipv4Addr, port: u16)
    requires
        0 <= i < s.len(),
        s[i] == (SocketView::V4 { ip, port }),
        forall|k: int| 0 <= k < i ==> #[trigger] s[k] is V6,
    ensures
        first_v4(s) == Some(ip),
    decreases i,
{
    if i > 0 {
        let t = s.drop_first();
        assert(s[0] is V6);
        assert forall|k: int| 0 <= k < i - 1 implies #[trigger] t[k] is V6 by {
            assert(t[k] == s[k + 1]);
        }
        lemma_first_v4(t, i - 1, ip, port);
    }
}

/// Without an IPv4 address, with a lookup that failed, without a user, and with names
/// that are too long there is no request.
pub proof fn law_no_request(cfg: ConfigView, user: Text, addrs: Seq<SocketView>, e: ErrorView)
    requires
        forall|k: int| 0 <= k < addrs.len() ==> #[trigger] addrs[k] is V6,
    ensures
        cfg.socks_resolve == ResolveMode::Local && parse_ipv4(cfg.dest_host) is None
            ==> resolved_step(cfg, user, Ok(addrs)) == (
            StepView::Fail(
                ErrorView::Dns("no IPv4 address for "@ + cfg.dest_host + " (SOCKS4 needs IPv4)"@),
            ),
            cfg,
        ) && resolved_step(cfg, user, Err(e)) == (StepView::Fail(e), cfg),
        first_step(cfg, None) == StepView::Fail(ErrorView::Auth("missing SOCKS4 user"@)),
        cfg.socks_resolve != ResolveMode::Local && encode_utf8(user).len() > 255 ==> first_step(
            cfg,
            Some(user),
        ) == StepView::Fail(ErrorView::Config("SOCKS4 username too long"@)),
        cfg.socks_resolve != ResolveMode::Local && encode_utf8(user).len() <= 255 && encode_utf8(
            cfg.dest_host,
        ).len() > 255 ==> first_step(cfg, Some(user)) == StepView::Fail(
            ErrorView::Config("SOCKS4 hostname too long"@),
        ),
{
    lemma_no_v4(addrs);
}

proof fn lemma_no_v4(s: Seq<SocketView>)
    requires
        forall|k: int| 0 <= k < s.len() ==> #[trigger] s[k] is V6,
    ensures
        first_v4(s) is None,
    decreases s.len(),
{
    if s.len() > 0 {
        let t = s.drop_first();
        assert(s[0] is V6);
        assert forall|k: int| 0 <= k < t.len() implies #[trigger] t[k] is V6 by {
            assert(t[k] == s[k + 1]);
        }
        lemma_no_v4(t);
    }
}

/// The second of the eight bytes of a reply decides: 0x5A is success, every other is
/// reported.
pub proof fn law_reply_code(s: Seq<u8>)
    ensures
        s.len() < 8 ==> connect_reply(s) == Err::<(), ErrorView>(ErrorView::Io("early eof"@)),
        s.len() >= 8 && s[1] == 0x5A ==> connect_reply(s) is Ok,
        s.len() >= 8 && s[1] != 0x5A ==> connect_reply(s) == Err::<(), ErrorView>(
            ErrorView::Socks4Reply(s[1]),
        ),
{
}

} // verus!

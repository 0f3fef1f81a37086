//! SOCKS v5 handshake.
//!
//! NOAUTH and USERPASS, and the CONNECT request for IPv4, IPv6, and DOMAINNAME
//! ATYP.
//!
//! Split into:
//!
//! - [`handshake`] — the greeting writer and method-selection reply.
//! - [`auth`] — RFC 1929 USERPASS subnegotiation.
//! - [`request`] — CONNECT request writer and reply reader.
//!
//! [`begin`] and [`advance`] are the orchestrators: they chain the three steps in
//! order and surface the typed errors. Each of them says what to do next; what
//! came of that is the event that [`advance`] goes on from.

pub mod auth;
pub mod handshake;
pub mod laws;
pub mod request;

use vstd::prelude::*;
use vstd::string::*;

use crate::addr::{law_ip_text, parse_ip, read_ip, IpAddr};
use crate::config::{Config, ConfigView, ResolveMode};
use crate::error::{Error, ErrorView, Result};
use crate::proxy::socks5::auth::{
    do_userpass, read_userpass_reply, userpass_reply, userpass_request,
};
use crate::proxy::socks5::handshake::{
    greeting, method_reply, read_method_reply, too_many_methods, write_greeting,
};
use crate::proxy::socks5::request::{
    connect_reply, connect_reply_needs, connect_request, read_connect_reply, reply_len, reply_needs,
    write_connect,
};
use crate::proxy::util::Incoming;
use crate::resolve::{resolved_view, socket_views, SocketAddr, SocketView};
use crate::text::{
    chars_of, concat, cut, is_text, lowered, opt_text, pieces, split, split_at_char, to_lower, trim,
    Text,
};

pub use handshake::method;

verus! {

// ---- Methods ----

/// The method that a word names.
pub open spec fn auth_method(token: Text) -> Option<u8> {
    let t = lowered(trim(token));
    if t == "none"@ || t == "noauth"@ || t == "no-auth"@ {
        Some(method::NOAUTH)
    } else if t == "userpass"@ || t == "user-password"@ || t == "user/pasword"@ || t
        == "password"@ {
        Some(method::USERPASS)
    } else {
        None
    }
}

/// The methods that words name, in order; other words count for nothing.
pub open spec fn auth_methods(tokens: Seq<Text>) -> Seq<u8>
    decreases tokens.len(),
{
    if tokens.len() == 0 {
        Seq::empty()
    } else {
        match auth_method(tokens.last()) {
            Some(m) => auth_methods(tokens.drop_last()).push(m),
            None => auth_methods(tokens.drop_last()),
        }
    }
}

/// The methods of a comma-separated list.
pub open spec fn auth_list(spec: Text) -> Seq<u8> {
    auth_methods(split(spec, ','))
}

/// The methods to offer: those of the list, or both; never nothing.
pub open spec fn offered_methods(list: Option<Text>) -> Seq<u8> {
    match list {
        None => seq![method::NOAUTH, method::USERPASS],
        Some(spec) => if auth_list(spec).len() == 0 {
            seq![method::NOAUTH]
        } else {
            auth_list(spec)
        },
    }
}

fn read_auth_method(token: &[char]) -> (r: Option<u8>)
    ensures
        r == auth_method(token@),
{
    let w = to_lower(cut(token));
    let t = w.as_slice();
    if is_text(t, "none") || is_text(t, "noauth") || is_text(t, "no-auth") {
        Some(method::NOAUTH)
    } else if is_text(t, "userpass") || is_text(t, "user-password") || is_text(t, "user/pasword")
        || is_text(t, "password") {
        Some(method::USERPASS)
    } else {
        None
    }
}

/// Parse a `-a` style list: comma-separated keywords like
/// `none,userpass`. Unknown keywords are silently dropped.
pub fn parse_auth_list(spec: &str) -> (out: Vec<u8>)
    ensures
        out@ == auth_list(spec@),
{
    let v = chars_of(spec);
    let p = split_at_char(v.as_slice(), ',');
    let ghost all = pieces(p@);
    let mut out: Vec<u8> = Vec::new();
    assert(all.take(0) =~= Seq::empty());
    for i in 0..p.len()
        invariant
            all == pieces(p@),
            out@ == auth_methods(all.take(i as int)),
    {
        assert(all.take(i + 1).drop_last() =~= all.take(i as int));
        assert(all.take(i + 1).last() == p@[i as int]@);
        if let Some(m) = read_auth_method(p[i].as_slice()) {
            out.push(m);
        }
    }
    assert(all.take(p@.len() as int) =~= all);
    out
}

// ---- Destination ----

/// The destination is to be resolved here, and is no address yet.
pub open spec fn needs_resolution(cfg: ConfigView) -> bool {
    cfg.socks_resolve == ResolveMode::Local && parse_ip(cfg.dest_host) is None
}

/// Whether [`maybe_resolve_destination`] needs addresses of the destination.
pub fn must_resolve(cfg: &Config) -> (r: bool)
    ensures
        r == needs_resolution(cfg@),
{
    if cfg.socks_resolve != ResolveMode::Local {
        return false;
    }
    let v = chars_of(cfg.dest_host.as_str());
    read_ip(v.as_slice()).is_none()
}

/// The configuration with a resolved destination, or why there is none.
pub open spec fn resolved_destination(
    cfg: ConfigView,
    addrs: std::result::Result<Seq<SocketView>, ErrorView>,
) -> std::result::Result<ConfigView, ErrorView> {
    if !needs_resolution(cfg) {
        Ok(cfg)
    } else {
        match addrs {
            Err(e) => Err(e),
            Ok(v) => if v.len() == 0 {
                Err(ErrorView::Dns("no addresses for "@ + cfg.dest_host))
            } else {
                Ok(ConfigView { dest_host: v[0].ip().text(), ..cfg })
            },
        }
    }
}

/// Resolve the destination if `socks_resolve == Local`, replacing
/// `cfg.dest_host` with a textual IP. Done before building the CONNECT
/// request so that ATYP can be chosen. `addrs` is what the host resolved to; it is
/// ignored where the host is numeric or the proxy resolves.
pub fn maybe_resolve_destination(
    cfg: &mut Config,
    addrs: Result<Vec<SocketAddr>>,
) -> (r: Result<()>)
    ensures
        match (r, resolved_destination(old(cfg)@, resolved_view(addrs))) {
            (Ok(_), Ok(c)) => final(cfg)@ == c,
            (Err(e), Err(f)) => e@ == f && final(cfg)@ == old(cfg)@,
            _ => false,
        },
{
    if !must_resolve(cfg) {
        return Ok(());
    }
    match addrs {
        Err(e) => Err(e),
        Ok(v) => {
            assert(socket_views(v@).len() == v@.len());
            if v.len() == 0 {
                return Err(Error::Dns(concat("no addresses for ", cfg.dest_host.as_str())));
            }
            assert(socket_views(v@)[0] == v@[0]@);
            cfg.dest_host = v[0].ip().to_text();
            Ok(())
        },
    }
}

// ---- Orchestration ----

/// What the handshake waits for.
#[derive(Debug)]
pub enum Stage {
    /// The 2-byte method reply.
    Method,
    /// User and password.
    Credentials,
    /// The 2-byte status of the subnegotiation.
    Status,
    /// The addresses of the destination.
    Resolution,
    /// The CONNECT reply, of which these bytes are there.
    Reply(Vec<u8>),
}

/// What happened.
#[derive(Debug)]
pub enum Event {
    /// The bytes that were asked for; fewer if the stream ended.
    Received(Vec<u8>),
    /// User and password.
    Credentials(Option<String>, String),
    /// What the destination resolved to.
    Resolved(Result<Vec<SocketAddr>>),
    /// What was asked for failed.
    Failed(Error),
}

/// What to do next.
#[derive(Debug)]
pub enum Step {
    /// Send the bytes, receive so many, and go on from the stage.
    Exchange(Stage, Vec<u8>, usize),
    /// Receive so many bytes and go on from the stage.
    Receive(Stage, usize),
    /// Ask for user and password and go on from the stage.
    Ask(Stage),
    /// Resolve the destination and go on from the stage.
    Resolve(Stage),
    /// The stream is connected to the destination.
    Done,
    /// The handshake failed.
    Fail(Error),
}

/// What the handshake waits for.
pub enum StageView {
    Method,
    Credentials,
    Status,
    Resolution,
    Reply(Seq<u8>),
}

/// What happened.
pub enum EventView {
    Received(Seq<u8>),
    Credentials(Option<Text>, Text),
    Resolved(std::result::Result<Seq<SocketView>, ErrorView>),
    Failed(ErrorView),
}

/// What to do next.
pub enum StepView {
    Exchange(StageView, Seq<u8>, nat),
    Receive(StageView, nat),
    Ask(StageView),
    Resolve(StageView),
    Done,
    Fail(ErrorView),
}

impl View for Stage {
    type V = StageView;

    open spec fn view(&self) -> StageView {
        match self {
            Stage::Method => StageView::Method,
            Stage::Credentials => StageView::Credentials,
            Stage::Status => StageView::Status,
            Stage::Resolution => StageView::Resolution,
            Stage::Reply(b) => StageView::Reply(b@),
        }
    }
}

impl View for Event {
    type V = EventView;

    open spec fn view(&self) -> EventView {
        match self {
            Event::Received(b) => EventView::Received(b@),
            Event::Credentials(u, p) => EventView::Credentials(opt_text(*u), p@),
            Event::Resolved(r) => EventView::Resolved(resolved_view(*r)),
            Event::Failed(e) => EventView::Failed(e@),
        }
    }
}

impl View for Step {
    type V = StepView;

    open spec fn view(&self) -> StepView {
        match self {
            Step::Exchange(s, b, n) => StepView::Exchange(s@, b@, *n as nat),
            Step::Receive(s, n) => StepView::Receive(s@, *n as nat),
            Step::Ask(s) => StepView::Ask(s@),
            Step::Resolve(s) => StepView::Resolve(s@),
            Step::Done => StepView::Done,
            Step::Fail(e) => StepView::Fail(e@),
        }
    }
}

/// The error of an event that the stage does not wait for.
pub open spec fn out_of_step() -> ErrorView {
    ErrorView::Io("event out of step"@)
}

/// The first step: the greeting.
pub open spec fn first_step(cfg: ConfigView) -> StepView {
    let methods = offered_methods(cfg.socks5_auth);
    if methods.len() > 255 {
        StepView::Fail(too_many_methods())
    } else {
        StepView::Exchange(StageView::Method, greeting(methods), 2)
    }
}

/// The CONNECT request.
pub open spec fn request_step(cfg: ConfigView) -> StepView {
    match connect_request(cfg.dest_host, cfg.dest_port) {
        Ok(b) => StepView::Exchange(StageView::Reply(Seq::empty()), b, 4),
        Err(e) => StepView::Fail(e),
    }
}

/// What follows once the proxy lets us in.
pub open spec fn admitted_step(cfg: ConfigView) -> StepView {
    if needs_resolution(cfg) {
        StepView::Resolve(StageView::Resolution)
    } else {
        request_step(cfg)
    }
}

/// What follows once more bytes of the CONNECT reply are there.
pub open spec fn reply_step(got: Seq<u8>, more: Seq<u8>) -> StepView {
    let s = got + more;
    if more.len() >= reply_needs(got) && reply_needs(s) > 0 {
        StepView::Receive(StageView::Reply(s), reply_needs(s))
    } else {
        match connect_reply(s) {
            Ok(_) => StepView::Done,
            Err(e) => StepView::Fail(e),
        }
    }
}

/// The step that follows an event, and the configuration then.
pub open spec fn next_step(stage: StageView, event: EventView, cfg: ConfigView) -> (
    StepView,
    ConfigView,
) {
    match (stage, event) {
        (_, EventView::Failed(e)) => (StepView::Fail(e), cfg),
        (StageView::Method, EventView::Received(b)) => match method_reply(b) {
            Err(e) => (StepView::Fail(e), cfg),
            Ok(m) => if m == method::NOAUTH {
                (admitted_step(cfg), cfg)
            } else if m == method::USERPASS {
                (StepView::Ask(StageView::Credentials), cfg)
            } else {
                (StepView::Fail(ErrorView::Socks5UnsupportedMethod(m)), cfg)
            },
        },
        (StageView::Credentials, EventView::Credentials(user, pass)) => match userpass_request(
            user,
            pass,
        ) {
            Ok(b) => (StepView::Exchange(StageView::Status, b, 2), cfg),
            Err(e) => (StepView::Fail(e), cfg),
        },
        (StageView::Status, EventView::Received(b)) => match userpass_reply(b) {
            Ok(_) => (admitted_step(cfg), cfg),
            Err(e) => (StepView::Fail(e), cfg),
        },
        (StageView::Resolution, EventView::Resolved(r)) => match resolved_destination(cfg, r) {
            Ok(c) => (request_step(c), c),
            Err(e) => (StepView::Fail(e), cfg),
        },
        (StageView::Reply(got), EventView::Received(b)) => (reply_step(got, b), cfg),
        _ => (StepView::Fail(out_of_step()), cfg),
    }
}

/// Start the SOCKS5 handshake on a stream to the proxy.
pub fn begin(cfg: &Config) -> (r: Step)
    ensures
        r@ == first_step(cfg@),
{
    let mut methods = match &cfg.socks5_auth {
        Some(spec) => parse_auth_list(spec.as_str()),
        None => vec![method::NOAUTH, method::USERPASS],
    };
    if methods.len() == 0 {
        methods.push(method::NOAUTH);
    }
    assert(methods@ =~= offered_methods(cfg@.socks5_auth));
    let mut out: Vec<u8> = Vec::new();
    match write_greeting(&mut out, methods.as_slice()) {
        Ok(_) => {
            assert(out@ =~= greeting(methods@));
            Step::Exchange(Stage::Method, out, 2)
        },
        Err(e) => Step::Fail(e),
    }
}

fn send_connect(cfg: &Config) -> (r: Step)
    ensures
        r@ == request_step(cfg@),
{
    let mut out: Vec<u8> = Vec::new();
    match write_connect(&mut out, cfg) {
        Ok(_) => {
            let got: Vec<u8> = Vec::new();
            assert(out@ =~= connect_request(cfg@.dest_host, cfg@.dest_port)->Ok_0);
            assert(got@ =~= Seq::<u8>::empty());
            Step::Exchange(Stage::Reply(got), out, 4)
        },
        Err(e) => Step::Fail(e),
    }
}

fn admitted(cfg: &Config) -> (r: Step)
    ensures
        r@ == admitted_step(cfg@),
{
    if must_resolve(cfg) {
        Step::Resolve(Stage::Resolution)
    } else {
        send_connect(cfg)
    }
}

fn on_method_reply(cfg: &Config, bytes: Vec<u8>) -> (r: Step)
    ensures
        (r@, cfg@) == next_step(StageView::Method, EventView::Received(bytes@), cfg@),
{
    let mut stream = Incoming::new(bytes);
    match read_method_reply(&mut stream) {
        Err(e) => Step::Fail(e),
        Ok(m) => {
            if m == method::NOAUTH {
                admitted(cfg)
            } else if m == method::USERPASS {
                Step::Ask(Stage::Credentials)
            } else {
                Step::Fail(Error::Socks5UnsupportedMethod(m))
            }
        },
    }
}

fn on_credentials(cfg: &Config, user: Option<String>, pass: String) -> (r: Step)
    ensures
        (r@, cfg@) == next_step(
            StageView::Credentials,
            EventView::Credentials(opt_text(user), pass@),
            cfg@,
        ),
{
    let mut out: Vec<u8> = Vec::new();
    match do_userpass(&mut out, &user, pass.as_str()) {
        Ok(_) => {
            assert(out@ =~= userpass_request(opt_text(user), pass@)->Ok_0);
            Step::Exchange(Stage::Status, out, 2)
        },
        Err(e) => Step::Fail(e),
    }
}

fn on_reply(mut got: Vec<u8>, bytes: Vec<u8>) -> (r: Step)
    ensures
        r@ == reply_step(got@, bytes@),
{
    let ghost before = got@;
    let needed = connect_reply_needs(&got);
    let whole = bytes.len() >= needed;
    got.extend_from_slice(bytes.as_slice());
    assert(got@ =~= before + bytes@);
    let more = connect_reply_needs(&got);
    if whole && more > 0 {
        return Step::Receive(Stage::Reply(got), more);
    }
    let mut stream = Incoming::new(got);
    match read_connect_reply(&mut stream) {
        Ok(_) => Step::Done,
        Err(e) => Step::Fail(e),
    }
}

/// Go on with the handshake. By the time this returns `Done`, the stream is
/// connected to the destination through the proxy. An event that the stage does not
/// wait for ends it.
pub fn advance(stage: Stage, event: Event, cfg: &mut Config) -> (r: Step)
    ensures
        (r@, final(cfg)@) == next_step(stage@, event@, old(cfg)@),
{
    match (stage, event) {
        (_, Event::Failed(e)) => Step::Fail(e),
        (Stage::Method, Event::Received(b)) => on_method_reply(cfg, b),
        (Stage::Credentials, Event::Credentials(user, pass)) => on_credentials(cfg, user, pass),
        (Stage::Status, Event::Received(b)) => {
            let mut stream = Incoming::new(b);
            match read_userpass_reply(&mut stream) {
                Ok(_) => admitted(cfg),
                Err(e) => Step::Fail(e),
            }
        },
        (Stage::Resolution, Event::Resolved(addrs)) => {
            match maybe_resolve_destination(cfg, addrs) {
                Ok(_) => send_connect(cfg),
                Err(e) => Step::Fail(e),
            }
        },
        (Stage::Reply(got), Event::Received(b)) => on_reply(got, b),
        _ => Step::Fail(Error::Io("event out of step".to_owned())),
    }
}

// ---- Laws ----

/// Whatever list is given, some method is offered.
pub proof fn law_some_method_offered(list: Option<Text>)
    ensures
        offered_methods(list).len() > 0,
{
}

/// The password is asked for only when the proxy chose USERPASS.
pub proof fn law_password_only_on_demand(stage: StageView, event: EventView, cfg: ConfigView)
    requires
        next_step(stage, event, cfg).0 is Ask,
    ensures
        stage is Method,
        event matches EventView::Received(b) && b.len() >= 2 && b[0] == 0x05 && b[1]
            == method::USERPASS,
{
}

/// The request is sent only once the proxy let us in: it chose NOAUTH, or accepted
/// user and password, and the destination is resolved where it has to be.
pub proof fn law_request_only_when_admitted(stage: StageView, event: EventView, cfg: ConfigView)
    requires
        next_step(stage, event, cfg).0 matches StepView::Exchange(StageView::Reply(_), _, _),
    ensures
        stage is Method ==> method_reply(event->Received_0) == Ok::<u8, ErrorView>(method::NOAUTH),
        stage is Status ==> userpass_reply(event->Received_0) is Ok,
        stage is Method || stage is Status || stage is Resolution,
        !needs_resolution(cfg) || stage is Resolution,
{
}

/// The handshake is done only when the proxy reported success with a whole reply.
pub proof fn law_done_only_on_success(stage: StageView, event: EventView, cfg: ConfigView)
    requires
        next_step(stage, event, cfg).0 is Done,
    ensures
        stage matches StageView::Reply(got) && event matches EventView::Received(b) && ({
            let s = got + b;
            &&& s.len() >= reply_len(s)
            &&& s[0] == 0x05
            &&& s[1] == 0x00
        }),
{
}

/// A failure ends the handshake, and so does an event that was not waited for.
pub proof fn law_failure_ends(stage: StageView, event: EventView, cfg: ConfigView)
    ensures
        event matches EventView::Failed(e) ==> next_step(stage, event, cfg).0 == StepView::Fail(e),
        stage is Credentials && !(event is Credentials) ==> next_step(stage, event, cfg).0 is Fail,
        stage is Resolution && !(event is Resolved) ==> next_step(stage, event, cfg).0 is Fail,
        !(stage is Credentials || stage is Resolution) && !(event is Received) ==> next_step(
            stage,
            event,
            cfg,
        ).0 is Fail,
{
}

/// The handshake changes nothing of the configuration but the destination's name,
/// and that only to the address that it resolved to.
pub proof fn law_only_destination_changes(stage: StageView, event: EventView, cfg: ConfigView)
    ensures
        ({
            let c = next_step(stage, event, cfg).1;
            &&& c == (ConfigView { dest_host: c.dest_host, ..cfg })
            &&& c.dest_host != cfg.dest_host ==> stage is Resolution && needs_resolution(cfg)
        }),
{
}

/// A resolved destination is an address; it is not resolved again.
pub proof fn law_resolved_once(cfg: ConfigView, first: SocketAddr, rest: Seq<SocketView>)
    requires
        needs_resolution(cfg),
    ensures
        ({
            let r = resolved_destination(cfg, Ok(seq![first@] + rest));
            r matches Ok(c) && parse_ip(c.dest_host) == Some(first@.ip()) && !needs_resolution(c)
        }),
{
    let v = seq![first@] + rest;
    assert(v[0] == first@);
    match first {
        SocketAddr::V4 { ip, .. } => law_ip_text(IpAddr::V4(ip)),
        SocketAddr::V6 { ip, .. } => law_ip_text(IpAddr::V6(ip)),
    }
}

/// A proxy that chooses NOAUTH is sent the request at once.
pub proof fn law_noauth_session(cfg: ConfigView)
    requires
        !needs_resolution(cfg),
        connect_request(cfg.dest_host, cfg.dest_port) is Ok,
    ensures
        next_step(StageView::Method, EventView::Received(seq![0x05u8, method::NOAUTH]), cfg) == (
            StepView::Exchange(
                StageView::Reply(Seq::empty()),
                connect_request(cfg.dest_host, cfg.dest_port)->Ok_0,
                4,
            ),
            cfg,
        ),
{
}

/// A proxy that chooses USERPASS is sent user and password, and the request once
/// it accepts them.
pub proof fn law_userpass_session(cfg: ConfigView, user: Text, pass: Text)
    requires
        !needs_resolution(cfg),
        userpass_request(Some(user), pass) is Ok,
        connect_request(cfg.dest_host, cfg.dest_port) is Ok,
    ensures
        next_step(StageView::Method, EventView::Received(seq![0x05u8, method::USERPASS]), cfg).0
            == StepView::Ask(StageView::Credentials),
        next_step(StageView::Credentials, EventView::Credentials(Some(user), pass), cfg).0
            == StepView::Exchange(
            StageView::Status,
            userpass_request(Some(user), pass)->Ok_0,
            2,
        ),
        next_step(StageView::Status, EventView::Received(seq![0x01u8, 0x00u8]), cfg).0
            == StepView::Exchange(
            StageView::Reply(Seq::empty()),
            connect_request(cfg.dest_host, cfg.dest_port)->Ok_0,
            4,
        ),
{
}

/// A success reply is read to its last byte and no further, in pieces of the size
/// that was asked for, and then the handshake is done.
pub proof fn law_success_is_recognised(frame: Seq<u8>, n: int)
    requires
        connect_reply(frame) is Ok,
        frame.len() == reply_len(frame),
        0 <= n < frame.len(),
    ensures
        ({
            let got = frame.take(n);
            let asked = reply_needs(got) as int;
            &&& 0 < asked <= frame.len() - n
            &&& ({
                let step = reply_step(got, frame.subrange(n, n + asked));
                if n + asked < frame.len() {
                    step == StepView::Receive(
                        StageView::Reply(frame.take(n + asked)),
                        reply_needs(frame.take(n + asked)),
                    )
                } else {
                    step == StepView::Done
                }
            })
        }),
{
    let got = frame.take(n);
    let asked = reply_needs(got) as int;
    assert(forall|i: int| 0 <= i < n ==> got[i] == frame[i]);
    let more = frame.subrange(n, n + asked);
    assert(got + more =~= frame.take(n + asked));
    if n + asked == frame.len() {
        assert(frame.take(n + asked) =~= frame);
    }
    let next = frame.take(n + asked);
    assert(forall|i: int| 0 <= i < n + asked ==> next[i] == frame[i]);
}

} // verus!

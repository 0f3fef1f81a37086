//! Proxy method dispatch.
//!
//! [`open_through_proxy`] is the single entry point both the one-shot
//! stdio path and the listen-mode path use to connect to a destination through
//! the configured proxy. It says what to do first, and [`proceed`] what to do
//! after that. `cfg.connect_timeout` (the `-w` flag) limits the steps that
//! [`is_timed`] holds of, so the timeout fires in either path.

pub mod direct;
pub mod http;
pub mod socks4;
pub mod socks5;
pub mod telnet;
pub mod util;

use vstd::prelude::*;
use vstd::string::*;

use crate::config::{Config, ConfigView, ProxyMethod};
use crate::error::{Error, ErrorView, Result};
use crate::number::{decimal, decimal_of};
use crate::proxy::http::HttpStart;
use crate::text::{concat, Text};

verus! {

// ---- The relay ----

/// Where the proxy is, or why nowhere.
pub open spec fn relay_address(cfg: ConfigView) -> std::result::Result<(Text, u16), ErrorView> {
    match cfg.relay_host {
        Some(h) => Ok((h, cfg.relay_port)),
        None => Err(ErrorView::Config("no relay host set"@)),
    }
}

/// The `relay_host:relay_port` (the proxy server) to connect to. For DIRECT mode
/// the relay host is unset and this returns an error.
pub fn connect_relay(cfg: &Config) -> (r: Result<(String, u16)>)
    ensures
        match (r, relay_address(cfg@)) {
            (Ok(a), Ok(b)) => a.0@ == b.0 && a.1 == b.1,
            (Err(e), Err(f)) => e@ == f,
            _ => false,
        },
{
    match &cfg.relay_host {
        Some(h) => Ok((h.clone(), cfg.relay_port)),
        None => Err(Error::Config("no relay host set".to_owned())),
    }
}

// ---- The timeout ----

/// The error of a connection that took too long.
pub open spec fn timed_out(secs: u32) -> ErrorView {
    ErrorView::Config("connect timeout after "@ + decimal(secs as nat) + "s"@)
}

/// For how many seconds a connection is waited for. `secs == 0` disables the
/// timeout and the connection runs to completion.
pub fn time_limit(secs: u32) -> (r: Option<u64>)
    ensures
        r == (if secs > 0 {
            Some(secs as u64)
        } else {
            None
        }),
{
    if secs > 0 {
        Some(secs as u64)
    } else {
        None
    }
}

/// What came of a connection with `secs` seconds of timeout: its own outcome, or
/// the timeout's error where it has none.
pub fn connect_with_timeout<T>(secs: u32, outcome: Option<Result<T>>) -> (r: Result<T>)
    ensures
        outcome matches Some(o) ==> r == o,
        outcome is None ==> (r matches Err(e) && e@ == timed_out(secs)),
{
    match outcome {
        Some(r) => r,
        None => {
            let mut m = concat("connect timeout after ", decimal_of(secs as u64).as_str());
            m.append("s");
            Err(Error::Config(m))
        },
    }
}

// ---- The handshake ----

/// The handshake that a configuration calls for.
#[derive(Debug, Clone, Copy, PartialEq, Eq, Structural)]
pub enum Handshake {
    /// None.
    Nothing,
    /// [`socks4`].
    Socks4,
    /// [`socks5`].
    Socks5,
    /// [`telnet`].
    Telnet,
}

/// The handshake of a method. HTTP CONNECT has its own retry loop (302 / 401 /
/// 407) and is not one of these.
pub open spec fn handshake_of(method: ProxyMethod, socks_version: u8) -> Handshake {
    match method {
        ProxyMethod::Socks => if socks_version == 5 {
            Handshake::Socks5
        } else {
            Handshake::Socks4
        },
        ProxyMethod::Telnet => Handshake::Telnet,
        _ => Handshake::Nothing,
    }
}

/// The proxy handshake to run on an already-connected TCP stream.
pub fn handshake(cfg: &Config) -> (r: Handshake)
    ensures
        r == handshake_of(cfg@.relay_method, cfg@.socks_version),
{
    match cfg.relay_method {
        ProxyMethod::Direct | ProxyMethod::Undecided | ProxyMethod::Http => Handshake::Nothing,
        ProxyMethod::Socks => {
            if cfg.socks_version == 5 {
                Handshake::Socks5
            } else {
                Handshake::Socks4
            }
        },
        ProxyMethod::Telnet => Handshake::Telnet,
    }
}

// ---- Opening ----

/// What to do next.
#[derive(Debug)]
pub enum OpenStep {
    /// Connect to host and port; a stream that is open is dropped before.
    Connect(String, u16),
    /// Send an HTTP request and judge the reply.
    HttpAttempt,
    /// Run the handshake.
    Shake(Handshake),
    /// The stream is ready for the relay.
    Ready,
    /// There is no stream.
    Fail(Error),
}

/// What happened.
#[derive(Debug)]
pub enum OpenEvent {
    /// The stream is connected.
    Connected,
    /// The reply to the HTTP request was judged so.
    Http(HttpStart),
    /// The handshake succeeded.
    Shaken,
    /// The step failed.
    Failed(Error),
    /// The time limit passed.
    TimedOut,
}

/// What to do next.
pub enum OpenStepView {
    Connect(Text, u16),
    HttpAttempt,
    Shake(Handshake),
    Ready,
    Fail(ErrorView),
}

/// What happened.
pub enum OpenEventView {
    Connected,
    Http(HttpStart),
    Shaken,
    Failed(ErrorView),
    TimedOut,
}

impl View for OpenStep {
    type V = OpenStepView;

    open spec fn view(&self) -> OpenStepView {
        match self {
            OpenStep::Connect(h, p) => OpenStepView::Connect(h@, *p),
            OpenStep::HttpAttempt => OpenStepView::HttpAttempt,
            OpenStep::Shake(h) => OpenStepView::Shake(*h),
            OpenStep::Ready => OpenStepView::Ready,
            OpenStep::Fail(e) => OpenStepView::Fail(e@),
        }
    }
}

impl View for OpenEvent {
    type V = OpenEventView;

    open spec fn view(&self) -> OpenEventView {
        match self {
            OpenEvent::Connected => OpenEventView::Connected,
            OpenEvent::Http(s) => OpenEventView::Http(*s),
            OpenEvent::Shaken => OpenEventView::Shaken,
            OpenEvent::Failed(e) => OpenEventView::Failed(e@),
            OpenEvent::TimedOut => OpenEventView::TimedOut,
        }
    }
}

/// Connect to the proxy.
pub open spec fn relay_step(cfg: ConfigView) -> OpenStepView {
    match relay_address(cfg) {
        Ok(a) => OpenStepView::Connect(a.0, a.1),
        Err(e) => OpenStepView::Fail(e),
    }
}

/// No method was chosen.
pub open spec fn no_method() -> ErrorView {
    ErrorView::Config("no proxy method"@)
}

/// The first step.
pub open spec fn open_first(cfg: ConfigView) -> OpenStepView {
    match cfg.relay_method {
        ProxyMethod::Direct => OpenStepView::Connect(cfg.dest_host, cfg.dest_port),
        ProxyMethod::Undecided => OpenStepView::Fail(no_method()),
        _ => relay_step(cfg),
    }
}

/// The step that follows an event.
pub open spec fn open_next(cfg: ConfigView, event: OpenEventView) -> OpenStepView {
    match event {
        OpenEventView::Connected => match cfg.relay_method {
            ProxyMethod::Direct => OpenStepView::Ready,
            ProxyMethod::Undecided => OpenStepView::Fail(no_method()),
            ProxyMethod::Http => OpenStepView::HttpAttempt,
            _ => OpenStepView::Shake(handshake_of(cfg.relay_method, cfg.socks_version)),
        },
        OpenEventView::Http(HttpStart::Established) => OpenStepView::Ready,
        OpenEventView::Http(HttpStart::Retry) => relay_step(cfg),
        OpenEventView::Shaken => OpenStepView::Ready,
        OpenEventView::Failed(e) => OpenStepView::Fail(e),
        OpenEventView::TimedOut => OpenStepView::Fail(timed_out(cfg.connect_timeout)),
    }
}

/// The time limit counts for the step: for the TCP connection, and for the
/// handshakes that belong to it. The SOCKS handshake runs after it.
pub open spec fn counts_time(step: OpenStepView) -> bool {
    match step {
        OpenStepView::Connect(_, _) => true,
        OpenStepView::HttpAttempt => true,
        OpenStepView::Shake(h) => h == Handshake::Telnet,
        _ => false,
    }
}

/// Whether the time limit counts for the step.
pub fn is_timed(step: &OpenStep) -> (r: bool)
    ensures
        r == counts_time(step@),
{
    match step {
        OpenStep::Connect(_, _) => true,
        OpenStep::HttpAttempt => true,
        OpenStep::Shake(h) => *h == Handshake::Telnet,
        _ => false,
    }
}

fn to_relay(cfg: &Config) -> (r: OpenStep)
    ensures
        r@ == relay_step(cfg@),
{
    match connect_relay(cfg) {
        Ok((host, port)) => OpenStep::Connect(host, port),
        Err(e) => OpenStep::Fail(e),
    }
}

/// Connect to the destination through the configured proxy method, running
/// the protocol handshake to the end: what to do first.
///
/// This is the single dispatcher for both the stdio path and the listen
/// path, so `cfg.connect_timeout` (the `-w` flag) fires consistently in
/// either path.
pub fn open_through_proxy(cfg: &Config) -> (r: OpenStep)
    ensures
        r@ == open_first(cfg@),
{
    match cfg.relay_method {
        ProxyMethod::Direct => {
            let (host, port) = direct::connect(cfg);
            OpenStep::Connect(host, port)
        },
        ProxyMethod::Undecided => OpenStep::Fail(Error::Config("no proxy method".to_owned())),
        _ => to_relay(cfg),
    }
}

/// What to do next. `Ready` means that the stream is ready to hand to the relay.
pub fn proceed(cfg: &Config, event: OpenEvent) -> (r: OpenStep)
    ensures
        r@ == open_next(cfg@, event@),
{
    match event {
        OpenEvent::Connected => match cfg.relay_method {
            ProxyMethod::Direct => OpenStep::Ready,
            ProxyMethod::Undecided => OpenStep::Fail(Error::Config("no proxy method".to_owned())),
            ProxyMethod::Http => OpenStep::HttpAttempt,
            _ => OpenStep::Shake(handshake(cfg)),
        },
        OpenEvent::Http(HttpStart::Established) => OpenStep::Ready,
        OpenEvent::Http(HttpStart::Retry) => to_relay(cfg),
        OpenEvent::Shaken => OpenStep::Ready,
        OpenEvent::Failed(e) => OpenStep::Fail(e),
        OpenEvent::TimedOut => match connect_with_timeout::<()>(cfg.connect_timeout, None) {
            Ok(_) => OpenStep::Ready,
            Err(e) => OpenStep::Fail(e),
        },
    }
}

// ---- Laws ----

/// With a proxy method, only the proxy is connected to, whatever happens; without
/// one, only the destination.
pub proof fn law_only_relay_is_contacted(cfg: ConfigView, event: OpenEventView)
    ensures
        cfg.relay_method.is_proxy() ==> (open_first(cfg) matches OpenStepView::Connect(h, p)
            ==> cfg.relay_host == Some(h) && cfg.relay_port == p),
        cfg.relay_method == ProxyMethod::Direct ==> open_first(cfg) == OpenStepView::Connect(
            cfg.dest_host,
            cfg.dest_port,
        ),
        open_next(cfg, event) matches OpenStepView::Connect(h, p) ==> cfg.relay_host == Some(h)
            && cfg.relay_port == p,
{
}

/// A stream through a proxy is ready only after the proxy's handshake.
pub proof fn law_ready_after_handshake(cfg: ConfigView, event: OpenEventView)
    requires
        cfg.relay_method.is_proxy(),
        open_next(cfg, event) is Ready,
    ensures
        event == OpenEventView::Http(HttpStart::Established) || event == OpenEventView::Shaken,
{
}

/// The time limit counts for every step but the SOCKS handshake.
pub proof fn law_timed_steps(cfg: ConfigView, event: OpenEventView)
    ensures
        ({
            let s = open_next(cfg, event);
            !counts_time(s) <==> s is Ready || s is Fail || cfg.relay_method == ProxyMethod::Socks
                && s is Shake
        }),
        open_first(cfg) is Connect ==> counts_time(open_first(cfg)),
{
}

/// A connection starts at the destination where it is direct, at the proxy where there
/// is one, and nowhere without a method or without the proxy's host.
pub proof fn law_where_to_start(cfg: ConfigView, host: Text)
    ensures
        cfg.relay_method == ProxyMethod::Direct ==> open_first(cfg) == OpenStepView::Connect(
            cfg.dest_host,
            cfg.dest_port,
        ),
        (cfg.relay_method == ProxyMethod::Socks || cfg.relay_method == ProxyMethod::Http
            || cfg.relay_method == ProxyMethod::Telnet) && cfg.relay_host == Some(host)
            ==> open_first(cfg) == OpenStepView::Connect(host, cfg.relay_port),
        (cfg.relay_method == ProxyMethod::Socks || cfg.relay_method == ProxyMethod::Http
            || cfg.relay_method == ProxyMethod::Telnet) && cfg.relay_host is None ==> open_first(
            cfg,
        ) == OpenStepView::Fail(ErrorView::Config("no relay host set"@)),
        cfg.relay_method == ProxyMethod::Undecided ==> open_first(cfg) == OpenStepView::Fail(
            ErrorView::Config("no proxy method"@),
        ),
{
}

/// Once connected, a direct stream is ready, and a proxy gets the handshake of its
/// method and version.
pub proof fn law_after_connecting(cfg: ConfigView)
    ensures
        ({
            let next = open_next(cfg, OpenEventView::Connected);
            &&& cfg.relay_method == ProxyMethod::Direct ==> next == OpenStepView::Ready
            &&& cfg.relay_method == ProxyMethod::Http ==> next == OpenStepView::HttpAttempt
            &&& cfg.relay_method == ProxyMethod::Telnet ==> next == OpenStepView::Shake(
                Handshake::Telnet,
            )
            &&& cfg.relay_method == ProxyMethod::Socks && cfg.socks_version == 5 ==> next
                == OpenStepView::Shake(Handshake::Socks5)
            &&& cfg.relay_method == ProxyMethod::Socks && cfg.socks_version == 4 ==> next
                == OpenStepView::Shake(Handshake::Socks4)
            &&& cfg.relay_method == ProxyMethod::Undecided ==> next is Fail
        }),
{
}

/// What a handshake leads to: a stream that is ready, another connection to the proxy
/// where it is to be tried again, or the failure as it was.
pub proof fn law_after_handshake(cfg: ConfigView, host: Text, e: ErrorView)
    ensures
        open_next(cfg, OpenEventView::Shaken) == OpenStepView::Ready,
        open_next(cfg, OpenEventView::Http(HttpStart::Established)) == OpenStepView::Ready,
        cfg.relay_host == Some(host) ==> open_next(cfg, OpenEventView::Http(HttpStart::Retry))
            == OpenStepView::Connect(host, cfg.relay_port),
        open_next(cfg, OpenEventView::Failed(e)) == OpenStepView::Fail(e),
        open_next(cfg, OpenEventView::TimedOut) == OpenStepView::Fail(
            ErrorView::Config(
                "connect timeout after "@ + decimal(cfg.connect_timeout as nat) + "s"@,
            ),
        ),
{
}

/// The time limit is the configured one in seconds, and 0 is none; what came in time is
/// handed on as it is.
pub proof fn law_time_limit(secs: u32, r: Option<u64>, outcome: Result<u8>, got: Result<u8>)
    requires
        call_ensures(time_limit, (secs,), r),
        call_ensures(connect_with_timeout::<u8>, (secs, Some(outcome)), got),
    ensures
        secs == 0 ==> r is None,
        secs > 0 ==> r == Some(secs as u64),
        got == outcome,
{
}

} // verus!

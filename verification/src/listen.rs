//! Local TCP listen socket for `-p` / `-P` modes.
//!
//! Bind a local TCP port, accept connections one at a time, and for each
//! connection:
//!
//! 1. Connect to the proxy server (if not Direct), run the proxy handshake.
//! 2. Run the bidirectional relay between the accepted local TCP and the
//!    remote socket.
//!
//! With `-P` (hold_session == true), the **remote** socket is kept across
//! accepts — local EOF just closes the local socket, and the next accepted
//! connection re-uses the same remote tunnel.

use vstd::prelude::*;
use vstd::string::*;

use crate::config::{Config, ConfigView, LocalType};
use crate::error::{Error, ErrorView, Result};

verus! {

/// How to listen.
#[derive(Debug, Clone, Copy, PartialEq, Eq, Structural)]
pub struct ListenPlan {
    /// The port to bind.
    pub port: u16,
    /// Keep the remote across accepts.
    pub hold: bool,
}

/// What to do next.
#[derive(Debug, Clone, Copy, PartialEq, Eq, Structural)]
pub enum ListenStep {
    /// Accept a local connection.
    Accept,
    /// Open the remote.
    Open,
    /// Relay between the two.
    Relay,
    /// Find out whether the remote is alive.
    Probe,
    /// Nothing more.
    Stop,
}

/// How to listen as configured, or why not.
pub open spec fn listen_plan(cfg: ConfigView) -> std::result::Result<ListenPlan, ErrorView> {
    match cfg.local_type {
        LocalType::Socket(port) => Ok(ListenPlan { port, hold: cfg.f_hold_session }),
        LocalType::Stdio => Err(ErrorView::Config("listen mode called without -p/-P"@)),
    }
}

/// How to accept local TCP connections and run the relay loop.
///
/// `hold_session == true` causes the remote socket to be kept across accepts.
pub fn accept_loop(cfg: &Config) -> (r: Result<ListenPlan>)
    ensures
        match (r, listen_plan(cfg@)) {
            (Ok(a), Ok(b)) => a == b,
            (Err(e), Err(f)) => e@ == f,
            _ => false,
        },
{
    match cfg.local_type {
        LocalType::Socket(port) => Ok(ListenPlan { port, hold: cfg.hold_session() }),
        LocalType::Stdio => Err(Error::Config("listen mode called without -p/-P".to_owned())),
    }
}

/// The first step once the port is bound.
pub open spec fn listen_first(hold: bool) -> ListenStep {
    if hold {
        ListenStep::Open
    } else {
        ListenStep::Accept
    }
}

/// The step after `done`. Once: accept, open, relay, stop. Holding: open, then
/// accept, relay and probe for as long as the remote is alive.
pub open spec fn listen_next(hold: bool, done: ListenStep, alive: bool) -> ListenStep {
    match done {
        ListenStep::Accept => if hold {
            ListenStep::Relay
        } else {
            ListenStep::Open
        },
        ListenStep::Open => if hold {
            ListenStep::Accept
        } else {
            ListenStep::Relay
        },
        ListenStep::Relay => if hold {
            ListenStep::Probe
        } else {
            ListenStep::Stop
        },
        ListenStep::Probe => if alive {
            ListenStep::Accept
        } else {
            ListenStep::Stop
        },
        ListenStep::Stop => ListenStep::Stop,
    }
}

impl ListenPlan {
    /// The first step once the port is bound.
    pub fn first(&self) -> (r: ListenStep)
        ensures
            r == listen_first(self.hold),
    {
        if self.hold {
            ListenStep::Open
        } else {
            ListenStep::Accept
        }
    }

    /// The step after `done`, which went well. `alive` is what a probe found.
    pub fn next(&self, done: ListenStep, alive: bool) -> (r: ListenStep)
        ensures
            r == listen_next(self.hold, done, alive),
    {
        if self.hold {
            accept_loop_hold(done, alive)
        } else {
            accept_loop_once(done, alive)
        }
    }
}

/// One-shot accept: accept once, relay, exit.
fn accept_loop_once(done: ListenStep, alive: bool) -> (r: ListenStep)
    ensures
        r == listen_next(false, done, alive),
{
    match done {
        ListenStep::Accept => ListenStep::Open,
        ListenStep::Open => ListenStep::Relay,
        ListenStep::Relay => ListenStep::Stop,
        ListenStep::Probe => {
            if alive {
                ListenStep::Accept
            } else {
                ListenStep::Stop
            }
        },
        ListenStep::Stop => ListenStep::Stop,
    }
}

/// Hold session: accept repeatedly. The remote socket is established
/// once and reused across accepts. Local EOF just releases the local side.
fn accept_loop_hold(done: ListenStep, alive: bool) -> (r: ListenStep)
    ensures
        r == listen_next(true, done, alive),
{
    match done {
        ListenStep::Open => ListenStep::Accept,
        ListenStep::Accept => ListenStep::Relay,
        ListenStep::Relay => ListenStep::Probe,
        ListenStep::Probe => {
            if alive {
                ListenStep::Accept
            } else {
                ListenStep::Stop
            }
        },
        ListenStep::Stop => ListenStep::Stop,
    }
}

/// What a look at the remote's next byte gave, without waiting for it.
#[derive(Debug, Clone, Copy, PartialEq, Eq, Structural)]
pub enum Peek {
    /// There is none yet.
    Pending,
    /// There is one.
    Data,
    /// The peer closed.
    Eof,
    /// The socket failed.
    Failed,
}

/// Whether the remote socket is still alive.
pub fn remote_alive(peek: Peek) -> (r: bool)
    ensures
        r == (peek == Peek::Pending || peek == Peek::Data),
{
    match peek {
        Peek::Pending | Peek::Data => true,
        Peek::Eof | Peek::Failed => false,
    }
}

/// Map `cfg.read_timeout_ms` to the idle time of the relay, in milliseconds.
/// `0` → disabled, otherwise the configured window.
pub fn idle_timeout(cfg: &Config) -> (r: Option<u64>)
    ensures
        r == (if cfg@.read_timeout_ms == 0 {
            None
        } else {
            Some(cfg@.read_timeout_ms)
        }),
{
    match cfg.read_timeout_ms {
        0 => None,
        ms => Some(ms),
    }
}

// ---- Laws ----

/// The steps of a session; `alive` is what the probe after each step found.
pub open spec fn session(hold: bool, alive: Seq<bool>) -> Seq<ListenStep>
    decreases alive.len(),
{
    if alive.len() == 0 {
        seq![listen_first(hold)]
    } else {
        let before = session(hold, alive.drop_last());
        before.push(listen_next(hold, before.last(), alive.last()))
    }
}

/// Holding, the remote is opened once, before anything else, and never again.
pub proof fn law_hold_opens_once(alive: Seq<bool>, i: int)
    requires
        0 <= i < session(true, alive).len(),
    ensures
        session(true, alive).len() == alive.len() + 1,
        session(true, alive)[i] == ListenStep::Open <==> i == 0,
    decreases alive.len(),
{
    if alive.len() > 0 {
        let before = session(true, alive.drop_last());
        law_hold_opens_once(alive.drop_last(), 0);
        if i < before.len() {
            law_hold_opens_once(alive.drop_last(), i);
        }
    }
}

/// Without holding, a session accepts, opens, relays and stops, whatever a probe
/// would find.
pub proof fn law_once(alive: Seq<bool>, i: int)
    requires
        0 <= i <= alive.len(),
    ensures
        session(false, alive).len() == alive.len() + 1,
        session(false, alive)[i] == (if i == 0 {
            ListenStep::Accept
        } else if i == 1 {
            ListenStep::Open
        } else if i == 2 {
            ListenStep::Relay
        } else {
            ListenStep::Stop
        }),
    decreases alive.len(),
{
    if alive.len() > 0 {
        let before = session(false, alive.drop_last());
        law_once(alive.drop_last(), alive.len() - 1);
        if i < before.len() {
            law_once(alive.drop_last(), i);
        }
    }
}

/// Holding, a session goes on for as long as the remote is alive.
pub proof fn law_hold_while_alive(alive: bool)
    ensures
        listen_next(true, ListenStep::Probe, alive) == ListenStep::Stop <==> !alive,
        alive ==> listen_next(true, ListenStep::Probe, alive) == ListenStep::Accept,
{
}

/// A remote is alive while it neither closed nor failed, whether or not it has sent
/// anything.
pub proof fn law_alive_peek(peek: Peek, r: bool)
    requires
        call_ensures(remote_alive, (peek,), r),
    ensures
        peek == Peek::Pending || peek == Peek::Data ==> r,
        peek == Peek::Eof || peek == Peek::Failed ==> !r,
{
}

/// The idle time is the configured one in milliseconds, and 0 is none.
pub proof fn law_idle_time_configured(cfg: Config, r: Option<u64>)
    requires
        call_ensures(idle_timeout, (&cfg,), r),
    ensures
        cfg.read_timeout_ms == 0 ==> r is None,
        cfg.read_timeout_ms > 0 ==> r == Some(cfg.read_timeout_ms),
{
}

/// Listening is on the configured port and holds where that is configured; without a
/// port there is nothing to listen on.
pub proof fn law_listen_plan(cfg: ConfigView, port: u16)
    ensures
        cfg.local_type == LocalType::Socket(port) ==> listen_plan(cfg) == Ok::<
            ListenPlan,
            ErrorView,
        >(ListenPlan { port, hold: cfg.f_hold_session }),
        cfg.local_type == LocalType::Stdio ==> listen_plan(cfg) == Err::<ListenPlan, ErrorView>(
            ErrorView::Config("listen mode called without -p/-P"@),
        ),
{
}

/// Holding, every accepted connection is relayed over the remote that is open, and the
/// remote is probed behind each; the next is accepted as long as it is alive.
pub proof fn law_hold_cycle(alive: Seq<bool>, i: int)
    requires
        0 <= i < alive.len(),
        forall|k: int| 0 <= k < alive.len() ==> #[trigger] alive[k],
    ensures
        session(true, alive).len() == alive.len() + 1,
        session(true, alive)[0] == ListenStep::Open,
        i % 3 == 0 ==> session(true, alive)[i + 1] == ListenStep::Accept,
        i % 3 == 1 ==> session(true, alive)[i + 1] == ListenStep::Relay,
        i % 3 == 2 ==> session(true, alive)[i + 1] == ListenStep::Probe,
    decreases alive.len(),
{
    let n = alive.len() - 1;
    let h = alive.drop_last();
    assert forall|k: int| 0 <= k < h.len() implies #[trigger] h[k] by {
        assert(alive[k]);
    }
    assert(alive[n]);
    if n > 0 {
        law_hold_cycle(h, n - 1);
        if i < n {
            law_hold_cycle(h, i);
        }
    } else {
        assert(session(true, h) =~= seq![ListenStep::Open]);
    }
}

/// Holding, a remote that is gone ends the session, and it stays ended.
pub proof fn law_hold_ends(alive: bool)
    ensures
        listen_next(true, ListenStep::Probe, false) == ListenStep::Stop,
        listen_next(true, ListenStep::Stop, alive) == ListenStep::Stop,
        listen_next(false, ListenStep::Stop, alive) == ListenStep::Stop,
{
}

} // verus!

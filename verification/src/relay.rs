//! Bidirectional byte relay between a local side (stdin/stdout or local TCP)
//! and a remote TCP socket.
//!
//! - Remote EOF → both directions close.
//! - Local EOF → writing to the remote is shut down to send a FIN to the peer, and
//!   `remote → local` is drained until the remote side also EOFs.
//! - When `hold == true`, local EOF does **not** propagate to the remote at
//!   all; the caller is expected to keep the remote socket open across
//!   multiple local connections (the `-P` mode).
//!
//! Idle timeout: when `idle` is set, each per-direction read has so many
//! milliseconds; a read that got bytes is followed by one that has as many again,
//! so an active connection is never reaped and only a truly silent one is torn
//! down. `None` disables the timeout entirely.
//!
//! [`relay`] is one step: what to do with what one of the reads gave.

use vstd::prelude::*;
use vstd::string::*;

use crate::error::{Error, ErrorView};
use crate::text::Text;

verus! {

/// A direction of the relay.
#[derive(Debug, Clone, Copy, PartialEq, Eq, Structural)]
pub enum Direction {
    LocalToRemote,
    RemoteToLocal,
}

/// Which directions are open.
#[derive(Debug, Clone, Copy, PartialEq, Eq, Structural)]
pub enum RelayState {
    /// Both.
    Open,
    /// Only remote to local.
    Draining,
    /// None: the relay is over.
    Finished,
}

/// What a direction gave.
#[derive(Debug)]
pub enum RelayEvent {
    /// Bytes were read.
    Data(Direction, Vec<u8>),
    /// The reading side ended.
    Eof(Direction),
    /// Reading or writing failed; the text is the system's.
    Failed(Direction, String),
    /// Nothing was read for the idle time.
    Idle(Direction),
}

/// What to do.
#[derive(Debug)]
pub enum RelayAction {
    /// Write the bytes to the other side and flush them onto the wire.
    Forward(Direction, Vec<u8>),
    /// Shut down writing to the remote.
    HalfCloseRemote,
    /// Shut down writing to the local side.
    CloseLocal,
    /// Report the error.
    Report(Error),
    /// Nothing.
    Nothing,
}

/// What a direction gave.
pub enum RelayEventView {
    Data(Direction, Seq<u8>),
    Eof(Direction),
    Failed(Direction, Text),
    Idle(Direction),
}

/// What to do.
pub enum RelayActionView {
    Forward(Direction, Seq<u8>),
    HalfCloseRemote,
    CloseLocal,
    Report(ErrorView),
    Nothing,
}

impl View for RelayEvent {
    type V = RelayEventView;

    open spec fn view(&self) -> RelayEventView {
        match self {
            RelayEvent::Data(d, b) => RelayEventView::Data(*d, b@),
            RelayEvent::Eof(d) => RelayEventView::Eof(*d),
            RelayEvent::Failed(d, e) => RelayEventView::Failed(*d, e@),
            RelayEvent::Idle(d) => RelayEventView::Idle(*d),
        }
    }
}

impl View for RelayAction {
    type V = RelayActionView;

    open spec fn view(&self) -> RelayActionView {
        match self {
            RelayAction::Forward(d, b) => RelayActionView::Forward(*d, b@),
            RelayAction::HalfCloseRemote => RelayActionView::HalfCloseRemote,
            RelayAction::CloseLocal => RelayActionView::CloseLocal,
            RelayAction::Report(e) => RelayActionView::Report(e@),
            RelayAction::Nothing => RelayActionView::Nothing,
        }
    }
}

impl RelayEventView {
    /// The direction that gave it.
    pub open spec fn direction(self) -> Direction {
        match self {
            RelayEventView::Data(d, _) => d,
            RelayEventView::Eof(d) => d,
            RelayEventView::Failed(d, _) => d,
            RelayEventView::Idle(d) => d,
        }
    }
}

/// The direction is open.
pub open spec fn is_open(state: RelayState, d: Direction) -> bool {
    match d {
        Direction::LocalToRemote => state == RelayState::Open,
        Direction::RemoteToLocal => state != RelayState::Finished,
    }
}

/// The state once a direction is over: draining goes on without the local side,
/// but nothing goes on without the remote.
pub open spec fn without(d: Direction) -> RelayState {
    match d {
        Direction::LocalToRemote => RelayState::Draining,
        Direction::RemoteToLocal => RelayState::Finished,
    }
}

/// The state after an event, and what to do.
pub open spec fn relay_next(
    state: RelayState,
    event: RelayEventView,
    hold: bool,
    idle: Option<u64>,
) -> (RelayState, RelayActionView) {
    if !is_open(state, event.direction()) {
        (state, RelayActionView::Nothing)
    } else {
        match event {
            RelayEventView::Data(d, b) => (state, RelayActionView::Forward(d, b)),
            RelayEventView::Eof(Direction::LocalToRemote) => if hold {
                (RelayState::Finished, RelayActionView::Nothing)
            } else {
                (RelayState::Draining, RelayActionView::HalfCloseRemote)
            },
            RelayEventView::Eof(Direction::RemoteToLocal) => (
                RelayState::Finished,
                RelayActionView::CloseLocal,
            ),
            RelayEventView::Failed(d, e) => (without(d), RelayActionView::Report(ErrorView::Io(e))),
            RelayEventView::Idle(d) => match idle {
                Some(ms) => (without(d), RelayActionView::Report(ErrorView::IdleTimeout(ms))),
                None => (state, RelayActionView::Nothing),
            },
        }
    }
}

fn after(d: Direction) -> (r: RelayState)
    ensures
        r == without(d),
{
    match d {
        Direction::LocalToRemote => RelayState::Draining,
        Direction::RemoteToLocal => RelayState::Finished,
    }
}

fn open(state: RelayState, d: Direction) -> (r: bool)
    ensures
        r == is_open(state, d),
{
    match d {
        Direction::LocalToRemote => state == RelayState::Open,
        Direction::RemoteToLocal => state != RelayState::Finished,
    }
}

/// One step of the relay, which runs until either side closes (or the idle
/// timeout fires). It starts with both directions open.
pub fn relay(state: RelayState, event: RelayEvent, hold: bool, idle: Option<u64>) -> (r: (
    RelayState,
    RelayAction,
))
    ensures
        (r.0, r.1@) == relay_next(state, event@, hold, idle),
{
    match event {
        RelayEvent::Data(d, bytes) => {
            if open(state, d) {
                (state, RelayAction::Forward(d, bytes))
            } else {
                (state, RelayAction::Nothing)
            }
        },
        RelayEvent::Eof(d) => {
            if !open(state, d) {
                return (state, RelayAction::Nothing);
            }
            match d {
                Direction::LocalToRemote => {
                    if hold {
                        (RelayState::Finished, RelayAction::Nothing)
                    } else {
                        (RelayState::Draining, RelayAction::HalfCloseRemote)
                    }
                },
                Direction::RemoteToLocal => (RelayState::Finished, RelayAction::CloseLocal),
            }
        },
        RelayEvent::Failed(d, e) => {
            if !open(state, d) {
                return (state, RelayAction::Nothing);
            }
            (after(d), RelayAction::Report(Error::Io(e)))
        },
        RelayEvent::Idle(d) => {
            if !open(state, d) {
                return (state, RelayAction::Nothing);
            }
            match idle {
                Some(ms) => (after(d), RelayAction::Report(Error::IdleTimeout(ms))),
                None => (state, RelayAction::Nothing),
            }
        },
    }
}

// ---- Laws ----

/// The state after some events.
pub open spec fn relay_state(
    events: Seq<RelayEventView>,
    hold: bool,
    idle: Option<u64>,
) -> RelayState
    decreases events.len(),
{
    if events.len() == 0 {
        RelayState::Open
    } else {
        relay_next(relay_state(events.drop_last(), hold, idle), events.last(), hold, idle).0
    }
}

/// What to do after the last of some events.
pub open spec fn last_action(
    events: Seq<RelayEventView>,
    hold: bool,
    idle: Option<u64>,
) -> RelayActionView {
    relay_next(relay_state(events.drop_last(), hold, idle), events.last(), hold, idle).1
}

/// The bytes that were read in a direction.
pub open spec fn bytes_read(events: Seq<RelayEventView>, d: Direction) -> Seq<u8>
    decreases events.len(),
{
    if events.len() == 0 {
        Seq::empty()
    } else {
        let before = bytes_read(events.drop_last(), d);
        match events.last() {
            RelayEventView::Data(e, b) => if e == d {
                before + b
            } else {
                before
            },
            _ => before,
        }
    }
}

/// The bytes that were written in a direction.
pub open spec fn bytes_written(
    events: Seq<RelayEventView>,
    hold: bool,
    idle: Option<u64>,
    d: Direction,
) -> Seq<u8>
    decreases events.len(),
{
    if events.len() == 0 {
        Seq::empty()
    } else {
        let before = bytes_written(events.drop_last(), hold, idle, d);
        match last_action(events, hold, idle) {
            RelayActionView::Forward(e, b) => if e == d {
                before + b
            } else {
                before
            },
            _ => before,
        }
    }
}

/// The relay neither loses, changes nor invents bytes: what is written in a
/// direction is what was read in it, from the first byte on and in order, and all
/// of it while the direction is open.
pub proof fn law_bytes_in_order(
    events: Seq<RelayEventView>,
    hold: bool,
    idle: Option<u64>,
    d: Direction,
)
    ensures
        bytes_written(events, hold, idle, d).is_prefix_of(bytes_read(events, d)),
        is_open(relay_state(events, hold, idle), d) ==> bytes_written(events, hold, idle, d)
            == bytes_read(events, d),
    decreases events.len(),
{
    if events.len() > 0 {
        law_bytes_in_order(events.drop_last(), hold, idle, d);
    }
}

/// With `hold`, nothing is shut down towards the remote.
pub proof fn law_hold_keeps_remote(
    state: RelayState,
    event: RelayEventView,
    idle: Option<u64>,
)
    ensures
        relay_next(state, event, true, idle).1 !is HalfCloseRemote,
{
}

/// Local EOF without `hold` half-closes the remote, and what the remote sends is
/// still forwarded.
pub proof fn law_local_eof_drains(state: RelayState, idle: Option<u64>, b: Seq<u8>)
    requires
        state == RelayState::Open,
    ensures
        ({
            let r = relay_next(state, RelayEventView::Eof(Direction::LocalToRemote), false, idle);
            &&& r.1 == RelayActionView::HalfCloseRemote
            &&& relay_next(
                r.0,
                RelayEventView::Data(Direction::RemoteToLocal, b),
                false,
                idle,
            ) == (r.0, RelayActionView::Forward(Direction::RemoteToLocal, b))
        }),
{
}

/// Remote EOF ends the relay, whatever was open.
pub proof fn law_remote_eof_ends(state: RelayState, hold: bool, idle: Option<u64>)
    ensures
        relay_next(state, RelayEventView::Eof(Direction::RemoteToLocal), hold, idle).0
            == RelayState::Finished,
{
}

/// Without an idle time, silence changes nothing and no idle timeout is reported.
pub proof fn law_no_idle_time(state: RelayState, event: RelayEventView, hold: bool)
    ensures
        !(relay_next(state, event, hold, None).1 matches RelayActionView::Report(
            ErrorView::IdleTimeout(_),
        )),
        event is Idle ==> relay_next(state, event, hold, None) == (
            state,
            RelayActionView::Nothing,
        ),
{
}

/// With an idle time, a silent direction that is open is over, and the report
/// tells that time.
pub proof fn law_idle_time(state: RelayState, d: Direction, hold: bool, ms: u64)
    requires
        is_open(state, d),
    ensures
        ({
            let r = relay_next(state, RelayEventView::Idle(d), hold, Some(ms));
            &&& !is_open(r.0, d)
            &&& r.1 == RelayActionView::Report(ErrorView::IdleTimeout(ms))
        }),
{
}

/// A relay that is over does nothing any more.
pub proof fn law_finished_is_final(event: RelayEventView, hold: bool, idle: Option<u64>)
    ensures
        relay_next(RelayState::Finished, event, hold, idle) == (
            RelayState::Finished,
            RelayActionView::Nothing,
        ),
{
}

/// A direction that is closed is not opened again.
pub proof fn law_closed_stays_closed(
    state: RelayState,
    event: RelayEventView,
    hold: bool,
    idle: Option<u64>,
    d: Direction,
)
    requires
        !is_open(state, d),
    ensures
        !is_open(relay_next(state, event, hold, idle).0, d),
{
}

/// While both sides are there, bytes go through in both directions; once the local
/// side is over, those of the remote still do, and those of the local side do not.
pub proof fn law_bytes_go_through(d: Direction, b: Seq<u8>, hold: bool, idle: Option<u64>)
    ensures
        relay_next(RelayState::Open, RelayEventView::Data(d, b), hold, idle) == (
            RelayState::Open,
            RelayActionView::Forward(d, b),
        ),
        relay_next(
            RelayState::Draining,
            RelayEventView::Data(Direction::RemoteToLocal, b),
            hold,
            idle,
        ) == (RelayState::Draining, RelayActionView::Forward(Direction::RemoteToLocal, b)),
        relay_next(
            RelayState::Draining,
            RelayEventView::Data(Direction::LocalToRemote, b),
            hold,
            idle,
        ) == (RelayState::Draining, RelayActionView::Nothing),
{
}

/// What happens to the local side, its end under `hold` apart, never cuts off the
/// remote: what the remote sends afterwards is still forwarded.
pub proof fn law_local_side_never_ends_remote(
    state: RelayState,
    event: RelayEventView,
    hold: bool,
    idle: Option<u64>,
    b: Seq<u8>,
)
    requires
        state != RelayState::Finished,
        match event {
            RelayEventView::Data(d, _) => d == Direction::LocalToRemote,
            RelayEventView::Eof(d) => d == Direction::LocalToRemote && !hold,
            RelayEventView::Failed(d, _) => d == Direction::LocalToRemote,
            RelayEventView::Idle(d) => d == Direction::LocalToRemote,
        },
    ensures
        ({
            let next = relay_next(state, event, hold, idle).0;
            &&& next != RelayState::Finished
            &&& relay_next(
                next,
                RelayEventView::Data(Direction::RemoteToLocal, b),
                hold,
                idle,
            ) == (next, RelayActionView::Forward(Direction::RemoteToLocal, b))
        }),
{
}

/// A local side that is silent for the idle time, or that fails, is over and
/// reported: nothing more is read from it, and the remote is drained.
pub proof fn law_local_side_over(hold: bool, idle: Option<u64>, ms: u64, e: Text, b: Seq<u8>)
    ensures
        ({
            let silent = relay_next(
                RelayState::Open,
                RelayEventView::Idle(Direction::LocalToRemote),
                hold,
                Some(ms),
            );
            let failed = relay_next(
                RelayState::Open,
                RelayEventView::Failed(Direction::LocalToRemote, e),
                hold,
                idle,
            );
            &&& silent.1 == RelayActionView::Report(ErrorView::IdleTimeout(ms))
            &&& failed.1 == RelayActionView::Report(ErrorView::Io(e))
            &&& silent.0 == RelayState::Draining
            &&& failed.0 == RelayState::Draining
            &&& relay_next(
                silent.0,
                RelayEventView::Data(Direction::LocalToRemote, b),
                hold,
                Some(ms),
            ).1 == RelayActionView::Nothing
        }),
{
}

/// A remote that ends, fails or is silent for the idle time ends the relay, in
/// whichever state; its end closes the local side, the others are reported.
pub proof fn law_remote_side_over(
    state: RelayState,
    hold: bool,
    idle: Option<u64>,
    ms: u64,
    e: Text,
)
    requires
        state != RelayState::Finished,
    ensures
        relay_next(state, RelayEventView::Eof(Direction::RemoteToLocal), hold, idle) == (
            RelayState::Finished,
            RelayActionView::CloseLocal,
        ),
        relay_next(state, RelayEventView::Failed(Direction::RemoteToLocal, e), hold, idle) == (
            RelayState::Finished,
            RelayActionView::Report(ErrorView::Io(e)),
        ),
        relay_next(state, RelayEventView::Idle(Direction::RemoteToLocal), hold, Some(ms)) == (
            RelayState::Finished,
            RelayActionView::Report(ErrorView::IdleTimeout(ms)),
        ),
{
}

/// With `hold`, the local end just ends this relay and nothing is sent to anyone.
pub proof fn law_held_local_eof(idle: Option<u64>)
    ensures
        relay_next(RelayState::Open, RelayEventView::Eof(Direction::LocalToRemote), true, idle)
            == (RelayState::Finished, RelayActionView::Nothing),
{
}

/// Every byte of the remote arrives up to its own end, failure or silence, whatever
/// happens to the local side; under `hold`, up to the local end.
pub proof fn law_remote_bytes_arrive(events: Seq<RelayEventView>, hold: bool, idle: Option<u64>)
    requires
        forall|i: int|
            0 <= i < events.len() ==> match #[trigger] events[i] {
                RelayEventView::Data(_, _) => true,
                RelayEventView::Eof(d) => d == Direction::LocalToRemote && !hold,
                RelayEventView::Failed(d, _) => d == Direction::LocalToRemote,
                RelayEventView::Idle(d) => d == Direction::LocalToRemote || idle is None,
            },
    ensures
        relay_state(events, hold, idle) != RelayState::Finished,
        bytes_written(events, hold, idle, Direction::RemoteToLocal) == bytes_read(
            events,
            Direction::RemoteToLocal,
        ),
    decreases events.len(),
{
    if events.len() > 0 {
        let h = events.drop_last();
        assert forall|i: int| 0 <= i < h.len() implies match #[trigger] h[i] {
            RelayEventView::Data(_, _) => true,
            RelayEventView::Eof(d) => d == Direction::LocalToRemote && !hold,
            RelayEventView::Failed(d, _) => d == Direction::LocalToRemote,
            RelayEventView::Idle(d) => d == Direction::LocalToRemote || idle is None,
        } by {
            assert(h[i] == events[i]);
        }
        law_remote_bytes_arrive(h, hold, idle);
        assert(events.last() == events[events.len() - 1]);
    }
}

/// Every byte of the local side is sent as long as both sides are there.
pub proof fn law_local_bytes_arrive(events: Seq<RelayEventView>, hold: bool, idle: Option<u64>)
    requires
        forall|i: int|
            0 <= i < events.len() ==> #[trigger] events[i] is Data || (events[i] is Idle && idle
                is None),
    ensures
        relay_state(events, hold, idle) == RelayState::Open,
        bytes_written(events, hold, idle, Direction::LocalToRemote) == bytes_read(
            events,
            Direction::LocalToRemote,
        ),
    decreases events.len(),
{
    if events.len() > 0 {
        let h = events.drop_last();
        assert forall|i: int| 0 <= i < h.len() implies #[trigger] h[i] is Data || (h[i] is Idle
            && idle is None) by {
            assert(h[i] == events[i]);
        }
        law_local_bytes_arrive(h, hold, idle);
        assert(events.last() == events[events.len() - 1]);
    }
}

} // verus!

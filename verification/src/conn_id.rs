//! Monotonic connection-ID counter used as a tracing span field.
//!
//! Every connection `sc` handles — whether via `-p`/`-P` listen or a
//! one-shot stdin/stdout relay — carries the next integer from
//! [`ConnectionId::next`], so that connections can be told apart in logs.
//!
//! IDs are dense starting at the counter's first value, and not reused until the
//! counter has gone round.

use vstd::prelude::*;

verus! {

/// Opaque, dense, process-unique connection identifier.
#[derive(Debug, Clone, Copy, PartialEq, Eq, Hash, Structural)]
pub struct ConnectionId(pub u64);

/// The counter behind a number.
pub open spec fn after(n: u64) -> u64 {
    if n == u64::MAX {
        0
    } else {
        (n + 1) as u64
    }
}

impl ConnectionId {
    /// Allocate the next ID of a counter.
    pub fn next(counter: &mut u64) -> (r: ConnectionId)
        ensures
            r == ConnectionId(*old(counter)),
            *final(counter) == after(*old(counter)),
    {
        let id = ConnectionId(*counter);
        *counter = counter.wrapping_add(1);
        id
    }
}

/// The counter after `n` allocations.
pub open spec fn counted(start: u64, n: nat) -> u64
    decreases n,
{
    if n == 0 {
        start
    } else {
        after(counted(start, (n - 1) as nat))
    }
}

/// The counter goes up by one for each ID, and round at its end.
pub proof fn lemma_counted(start: u64, n: nat)
    ensures
        counted(start, n) == (start + n) % 0x1_0000_0000_0000_0000,
    decreases n,
{
    if n > 0 {
        lemma_counted(start, (n - 1) as nat);
    }
}

/// Connection number `i` of a counter that starts at 0 has ID `i`; until the
/// counter has gone round, no two connections have the same.
pub proof fn law_ids_are_dense_and_unique(i: nat, j: nat)
    requires
        i < j <= u64::MAX,
    ensures
        counted(0, i) == i,
        counted(0, j) == j,
        counted(0, i) != counted(0, j),
{
    lemma_counted(0, i);
    lemma_counted(0, j);
}

} // verus!

//! Shutdown bookkeeping shared by the watcher and the transport: teardown happens once, and
//! any later `close` is a no-op.
use vstd::prelude::*;

verus! {

/// Records whether a resource has been torn down.
#[derive(Debug)]
pub struct ShutdownLatch {
    pub closed: bool,
}

/// One `close` on a latch in state `closed`: the new state, and whether teardown is due now.
pub open spec fn close_step(closed: bool) -> (bool, bool) {
    (true, !closed)
}

impl ShutdownLatch {
    /// A latch for a resource that is still open.
    pub fn new() -> (r: Self)
        ensures
            !r.closed,
    {
        ShutdownLatch { closed: false }
    }

    /// Marks the resource closed; the result tells whether the teardown is due now.
    pub fn close(&mut self) -> (r: bool)
        ensures
            (final(self).closed, r) == close_step(old(self).closed),
    {
        let due = !self.closed;
        self.closed = true;
        due
    }
}

/// Idempotent shutdown: a second `close` asks for no teardown and leaves the latch as the
/// first one left it.
pub proof fn lemma_close_idempotent(closed: bool)
    ensures
        close_step(close_step(closed).0) == (close_step(closed).0, false),
{
}

} // verus!

//! The one-directional stop signal.

use vstd::prelude::*;

verus! {

/// One indivisible operation of the stop protocol: either some actor raises
/// the signal, or some reader observes it.  Observing never changes the flag.
#[derive(Clone, Copy, Debug, PartialEq, Eq, Structural)]
pub enum SignalOp {
    Raise,
    Observe,
}

/// The flag value after replaying `ops` against a flag currently at `raised`.
pub open spec fn signal_after(raised: bool, ops: Seq<SignalOp>) -> bool
    decreases ops.len(),
{
    if ops.len() == 0 {
        raised
    } else {
        signal_after(raised || ops[0] is Raise, ops.drop_first())
    }
}

/// Once the flag has been observed true, no later operation of any actor can
/// make a reader see false again: the transition is one-directional.
pub proof fn lemma_stop_is_monotonic(ops: Seq<SignalOp>)
    ensures
        signal_after(true, ops),
    decreases ops.len(),
{
    if ops.len() > 0 {
        lemma_stop_is_monotonic(ops.drop_first());
    }
}

/// The flag ends up raised exactly when it started raised or some operation
/// of the replay raised it.
pub proof fn lemma_signal_after_characterized(raised: bool, ops: Seq<SignalOp>)
    ensures
        signal_after(raised, ops) <==> raised || (exists|i: int|
            0 <= i < ops.len() && ops[i] is Raise),
    decreases ops.len(),
{
    if ops.len() > 0 {
        lemma_signal_after_characterized(raised || ops[0] is Raise, ops.drop_first());
        if exists|i: int| 0 <= i < ops.drop_first().len() && ops.drop_first()[i] is Raise {
            let i = choose|i: int|
                0 <= i < ops.drop_first().len() && ops.drop_first()[i] is Raise;
            assert(ops[i + 1] is Raise);
        }
        if !raised && !(ops[0] is Raise) && (exists|i: int|
            0 <= i < ops.len() && ops[i] is Raise) {
            let i = choose|i: int| 0 <= i < ops.len() && ops[i] is Raise;
            assert(ops.drop_first()[i - 1] is Raise);
        }
    }
}

/// A boolean flag, initially false, set to true at most effectively once and
/// never reset.  Raising it twice has no further effect, and a raise by any
/// actor is an indivisible store, so every reader sees the same
/// one-directional transition.
pub struct StopSignal {
    raised: bool,
}

impl StopSignal {
    /// Whether the signal has been raised.
    pub closed spec fn spec_raised(&self) -> bool {
        self.raised
    }

    /// A fresh, unraised signal.
    pub fn new() -> (r: StopSignal)
        ensures
            !r.spec_raised(),
    {
        StopSignal { raised: false }
    }

    /// Raise the signal.  Idempotent: the outcome does not depend on whether
    /// it was already raised.
    pub fn stop(&mut self)
        ensures
            final(self).spec_raised(),
    {
        self.raised = true;
    }

    /// Observe the signal without changing it.
    pub fn is_stopped(&self) -> (r: bool)
        ensures
            r == self.spec_raised(),
    {
        self.raised
    }
}

/// The check a worker makes at each iteration boundary.  Cancellation is
/// cooperative only: the worker goes on exactly while nobody has raised the
/// stop signal and it still has iterations to do; it is never interrupted
/// inside a unit of work.
pub fn worker_should_continue(signal: &StopSignal, remaining: u64) -> (r: bool)
    ensures
        r <==> (!signal.spec_raised() && remaining > 0),
{
    !signal.is_stopped() && remaining > 0
}

} // verus!

//! Racy lazy one-time initialization.

use vstd::prelude::*;
use crate::atomic::AtomicCell;

verus! {

/// A value computed at most once, racily.  Several callers may each compute a
/// candidate value concurrently, but a single compare-and-exchange from the
/// reserved "unset" sentinel decides the winner; losers discard their own
/// candidate and adopt the stored one.  No caller ever blocks waiting for
/// another's computation.
///
/// The sentinel 0 is reserved to mean "not yet initialized", so a candidate
/// value of 0 is explicitly ruled out.
pub struct LazyKey {
    slot: AtomicCell,
}

impl LazyKey {
    /// The raw slot: 0 while unset, the accepted value afterwards.
    pub closed spec fn spec_slot(&self) -> u64 {
        self.slot.spec_value()
    }

    /// Whether some caller's candidate has been accepted.
    pub open spec fn is_set(&self) -> bool {
        self.spec_slot() != 0
    }

    /// An uninitialized slot.
    pub fn new() -> (r: LazyKey)
        ensures
            !r.is_set(),
    {
        LazyKey { slot: AtomicCell::new(0) }
    }

    /// One caller's attempt: `candidate` is the value this caller computed
    /// for itself.  The first attempt on an unset slot installs its
    /// candidate; every attempt, winning or losing, returns the value the
    /// slot holds from then on, so all callers agree.
    pub fn get_key(&mut self, candidate: u64) -> (r: u64)
        requires
            candidate != 0,
        ensures
            final(self).spec_slot() == slot_after_attempt(old(self).spec_slot(), candidate),
            r == attempt_result(old(self).spec_slot(), candidate),
            final(self).is_set(),
            r == final(self).spec_slot(),
    {
        let key = self.slot.load();
        if key == 0 {
            match self.slot.compare_exchange(0, candidate) {
                Ok(_) => candidate,
                Err(k) => k,
            }
        } else {
            key
        }
    }
}

/// The slot value after one attempt with `candidate` against a slot at
/// `slot`: the candidate is accepted only from the sentinel.
pub open spec fn slot_after_attempt(slot: u64, candidate: u64) -> u64 {
    if slot == 0 {
        candidate
    } else {
        slot
    }
}

/// The value an attempt with `candidate` against a slot at `slot` returns.
pub open spec fn attempt_result(slot: u64, candidate: u64) -> u64 {
    slot_after_attempt(slot, candidate)
}

/// The slot after replaying a whole race: one attempt per caller, each with
/// its own candidate, in the order the indivisible compare-and-exchange
/// operations happened to serialize.
pub open spec fn slot_after_race(slot: u64, candidates: Seq<u64>) -> u64
    decreases candidates.len(),
{
    if candidates.len() == 0 {
        slot
    } else {
        slot_after_race(slot_after_attempt(slot, candidates[0]), candidates.drop_first())
    }
}

/// Racing any number of callers against an unset slot accepts exactly the
/// first candidate to arrive, and every caller comes away with that same
/// value: the values the individual attempts return all equal the final
/// slot.
pub proof fn lemma_race_agrees_on_first_candidate(candidates: Seq<u64>)
    requires
        candidates.len() >= 1,
        forall|i: int| 0 <= i < candidates.len() ==> candidates[i] != 0,
    ensures
        slot_after_race(0, candidates) == candidates[0],
        forall|i: int|
            0 <= i < candidates.len() ==> #[trigger] attempt_result(
                slot_after_race(0, candidates.take(i)),
                candidates[i],
            ) == candidates[0],
{
    assert forall|i: int| 0 <= i < candidates.len() implies #[trigger] attempt_result(
        slot_after_race(0, candidates.take(i)),
        candidates[i],
    ) == candidates[0] by {
        if i == 0 {
            assert(candidates.take(0).len() == 0);
        } else {
            lemma_race_settles_immediately(candidates.take(i));
            assert(candidates.take(i)[0] == candidates[0]);
        }
    }
    lemma_race_settles_immediately(candidates);
}

/// After the first nonzero candidate lands, the slot never changes again.
proof fn lemma_race_settles_immediately(candidates: Seq<u64>)
    requires
        candidates.len() >= 1,
        forall|i: int| 0 <= i < candidates.len() ==> candidates[i] != 0,
    ensures
        slot_after_race(0, candidates) == candidates[0],
    decreases candidates.len(),
{
    lemma_set_slot_is_stable(candidates[0], candidates.drop_first());
}

/// A slot that is already set ignores every further attempt.
proof fn lemma_set_slot_is_stable(slot: u64, candidates: Seq<u64>)
    requires
        slot != 0,
    ensures
        slot_after_race(slot, candidates) == slot,
    decreases candidates.len(),
{
    if candidates.len() > 0 {
        lemma_set_slot_is_stable(slot, candidates.drop_first());
    }
}

} // verus!

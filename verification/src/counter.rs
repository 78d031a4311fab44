//! The shared progress counter.

use vstd::prelude::*;

verus! {

/// A non-negative counter that is incremented exactly once per completed unit
/// of work and never exceeds the total number of expected units.
///
/// In the running system the counter is a single atomic word updated with
/// `fetch_add(1)`; because each such update is indivisible, a concurrent
/// history of increments is equivalent to a serial replay of them, and this
/// type is that replay: one `increment` call per completed unit.
pub struct ProgressCounter {
    value: u64,
    target: u64,
}

impl ProgressCounter {
    /// Units of work completed so far.
    pub closed spec fn spec_value(&self) -> u64 {
        self.value
    }

    /// Total number of units expected over the whole run.
    pub closed spec fn spec_target(&self) -> u64 {
        self.target
    }

    /// The counter never runs past its target.
    pub open spec fn wf(&self) -> bool {
        self.spec_value() <= self.spec_target()
    }

    /// A fresh counter for a run of `target` total units.
    pub fn new(target: u64) -> (r: ProgressCounter)
        ensures
            r.wf(),
            r.spec_value() == 0,
            r.spec_target() == target,
    {
        ProgressCounter { value: 0, target }
    }

    /// Record one completed unit of work.
    pub fn increment(&mut self)
        requires
            old(self).wf(),
            old(self).spec_value() < old(self).spec_target(),
        ensures
            final(self).wf(),
            final(self).spec_value() == old(self).spec_value() + 1,
            final(self).spec_target() == old(self).spec_target(),
    {
        self.value = self.value + 1;
    }

    /// Read the current progress.
    pub fn value(&self) -> (r: u64)
        ensures
            r == self.spec_value(),
    {
        self.value
    }

    /// The total number of expected units.
    pub fn target(&self) -> (r: u64)
        ensures
            r == self.spec_target(),
    {
        self.target
    }

    /// The completion predicate the observer polls: true exactly when every
    /// expected unit has been counted, never before.
    pub fn is_complete(&self) -> (r: bool)
        ensures
            r <==> self.spec_value() == self.spec_target(),
    {
        self.value == self.target
    }
}

} // verus!

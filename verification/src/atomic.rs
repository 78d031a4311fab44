//! Sequential model of a shared atomic 64-bit word.
//!
//! Atomic operations are indivisible: each one has either fully completed or
//! not happened at all, so a concurrent history over one atomic word is
//! equivalent to some serial order of its operations.  `AtomicCell` is that
//! serial view: every method is one indivisible operation of the history, and
//! a replay of any interleaving is a sequence of these calls.

use vstd::prelude::*;

verus! {

/// One shared 64-bit word updated only by indivisible operations.
pub struct AtomicCell {
    value: u64,
}

impl AtomicCell {
    /// The word's current value.
    pub closed spec fn spec_value(&self) -> u64 {
        self.value
    }

    /// A cell holding `v`.
    pub fn new(v: u64) -> (r: AtomicCell)
        ensures
            r.spec_value() == v,
    {
        AtomicCell { value: v }
    }

    /// An atomic load.
    pub fn load(&self) -> (r: u64)
        ensures
            r == self.spec_value(),
    {
        self.value
    }

    /// An atomic store.
    pub fn store(&mut self, v: u64)
        ensures
            final(self).spec_value() == v,
    {
        self.value = v;
    }

    /// Atomic add, returning the previous value.  The caller rules overflow
    /// out; the progress counter stays below its fixed target, so its
    /// increments never wrap.
    pub fn fetch_add(&mut self, v: u64) -> (r: u64)
        requires
            old(self).spec_value() + v <= u64::MAX,
        ensures
            r == old(self).spec_value(),
            final(self).spec_value() == old(self).spec_value() + v,
    {
        let r = self.value;
        self.value = self.value + v;
        r
    }

    /// Atomic add that clamps at `u64::MAX` instead of wrapping, returning
    /// the previous value.  Used for running duration totals, where a wrap
    /// must not corrupt the aggregate.
    pub fn fetch_add_saturating(&mut self, v: u64) -> (r: u64)
        ensures
            r == old(self).spec_value(),
            old(self).spec_value() + v <= u64::MAX ==> final(self).spec_value() == old(
                self,
            ).spec_value() + v,
            old(self).spec_value() + v > u64::MAX ==> final(self).spec_value() == u64::MAX,
    {
        let r = self.value;
        if self.value <= u64::MAX - v {
            self.value = self.value + v;
        } else {
            self.value = u64::MAX;
        }
        r
    }

    /// Atomic maximum, returning the previous value.
    pub fn fetch_max(&mut self, v: u64) -> (r: u64)
        ensures
            r == old(self).spec_value(),
            final(self).spec_value() == if v > old(self).spec_value() {
                v
            } else {
                old(self).spec_value()
            },
    {
        let r = self.value;
        if v > self.value {
            self.value = v;
        }
        r
    }

    /// Atomic compare-and-exchange: the word becomes `new` only if it
    /// currently equals `expected`; otherwise it is unchanged and the actual
    /// value comes back in the `Err`.
    pub fn compare_exchange(&mut self, expected: u64, new: u64) -> (r: Result<u64, u64>)
        ensures
            old(self).spec_value() == expected ==> final(self).spec_value() == new && r == Ok::<
                u64,
                u64,
            >(expected),
            old(self).spec_value() != expected ==> *final(self) == *old(self) && r == Err::<u64, u64>(
                old(self).spec_value(),
            ),
    {
        if self.value == expected {
            self.value = new;
            Ok(expected)
        } else {
            Err(self.value)
        }
    }
}

/// Add one to a shared word with a compare-and-exchange loop, the
/// general-purpose building block out of which any other atomic
/// read-modify-write can be made.
pub fn increment(a: &mut AtomicCell)
    requires
        old(a).spec_value() < u64::MAX,
    ensures
        final(a).spec_value() == old(a).spec_value() + 1,
{
    let mut current = a.load();
    loop
        invariant
            current == a.spec_value(),
            a.spec_value() < u64::MAX,
            a.spec_value() == old(a).spec_value(),
        decreases 1int,
    {
        let new = current + 1;
        match a.compare_exchange(current, new) {
            Ok(_) => {
                return ;
            },
            Err(v) => {
                current = v;
            },
        }
    }
}

} // verus!

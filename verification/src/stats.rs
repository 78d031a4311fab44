//! Running duration statistics and their aggregate report.

use vstd::multiset::Multiset;
use vstd::prelude::*;

verus! {

/// The larger of two durations.
pub open spec fn max_dur(a: u64, b: u64) -> u64 {
    if a > b {
        a
    } else {
        b
    }
}

/// Mathematical sum of a sequence of recorded durations.
pub open spec fn duration_sum(ds: Seq<u64>) -> int
    decreases ds.len(),
{
    if ds.len() == 0 {
        0
    } else {
        duration_sum(ds.drop_last()) + ds.last()
    }
}

/// Durations are unsigned, so their sum is never negative.
pub proof fn lemma_duration_sum_nonneg(ds: Seq<u64>)
    ensures
        duration_sum(ds) >= 0,
    decreases ds.len(),
{
    if ds.len() > 0 {
        lemma_duration_sum_nonneg(ds.drop_last());
    }
}

/// The running total kept by the accumulator: the mathematical sum, clamped
/// at `u64::MAX`.
pub open spec fn clamped_duration_sum(ds: Seq<u64>) -> u64 {
    if duration_sum(ds) <= u64::MAX {
        duration_sum(ds) as u64
    } else {
        u64::MAX
    }
}

/// The largest duration in the sequence, 0 when nothing was recorded.
pub open spec fn duration_max(ds: Seq<u64>) -> u64
    decreases ds.len(),
{
    if ds.len() == 0 {
        0
    } else {
        max_dur(ds.last(), duration_max(ds.drop_last()))
    }
}

/// A snapshot of the aggregate statistics at some point of a run.
#[derive(Clone, Copy, Debug, PartialEq, Eq, Structural)]
pub struct StatsReport {
    /// Completed operations the snapshot covers.
    pub completed: u64,
    /// Clamped running total of the recorded durations.
    pub total_duration: u64,
    /// Largest single recorded duration.
    pub max_duration: u64,
    /// Mean duration, `total_duration / completed`.
    pub average_duration: u64,
}

/// A running sum and a running maximum of elapsed-time measurements, both
/// updated exactly once per completed unit of work.
///
/// In the running system these are two atomic words updated with `fetch_add`
/// and `fetch_max`; each update is indivisible, so a concurrent history is
/// equivalent to a serial replay of `record` calls.  The sum saturates at
/// `u64::MAX` so that an overflow cannot corrupt the aggregate.
pub struct DurationAccumulator {
    count: u64,
    total: u64,
    max: u64,
}

impl DurationAccumulator {
    /// Operations recorded so far.
    pub closed spec fn spec_count(&self) -> u64 {
        self.count
    }

    /// Clamped running total of the recorded durations.
    pub closed spec fn spec_total(&self) -> u64 {
        self.total
    }

    /// Largest duration recorded so far.
    pub closed spec fn spec_max(&self) -> u64 {
        self.max
    }

    /// An accumulator with nothing recorded.
    pub fn new() -> (r: DurationAccumulator)
        ensures
            r.spec_count() == 0,
            r.spec_total() == 0,
            r.spec_max() == 0,
    {
        DurationAccumulator { count: 0, total: 0, max: 0 }
    }

    /// Record the elapsed time of one completed unit of work.
    pub fn record(&mut self, duration: u64)
        requires
            old(self).spec_count() < u64::MAX,
        ensures
            final(self).spec_count() == old(self).spec_count() + 1,
            old(self).spec_total() + duration <= u64::MAX ==> final(self).spec_total() == old(
                self,
            ).spec_total() + duration,
            old(self).spec_total() + duration > u64::MAX ==> final(self).spec_total() == u64::MAX,
            final(self).spec_max() == max_dur(old(self).spec_max(), duration),
    {
        self.count = self.count + 1;
        if self.total <= u64::MAX - duration {
            self.total = self.total + duration;
        } else {
            self.total = u64::MAX;
        }
        if duration > self.max {
            self.max = duration;
        }
    }

    /// The aggregate over everything recorded so far: `None` is the "no data
    /// yet" sentinel when nothing has completed, so the mean is never a
    /// division by zero; otherwise the count, total, maximum and mean.
    pub fn aggregate_stats(&self) -> (r: Option<StatsReport>)
        ensures
            self.spec_count() == 0 ==> r is None,
            self.spec_count() > 0 ==> r == Some(
                StatsReport {
                    completed: self.spec_count(),
                    total_duration: self.spec_total(),
                    max_duration: self.spec_max(),
                    average_duration: (self.spec_total() / self.spec_count()) as u64,
                },
            ),
    {
        if self.count == 0 {
            None
        } else {
            Some(
                StatsReport {
                    completed: self.count,
                    total_duration: self.total,
                    max_duration: self.max,
                    average_duration: self.total / self.count,
                },
            )
        }
    }
}

/// Sum of a multiset of durations.
pub open spec fn fold_sum(m: Multiset<u64>) -> int
    decreases m.len(),
{
    if m.len() == 0 {
        0
    } else {
        m.choose() + fold_sum(m.remove(m.choose()))
    }
}

/// Maximum of a multiset of durations, 0 when the multiset is empty.
pub open spec fn fold_max(m: Multiset<u64>) -> u64
    decreases m.len(),
{
    if m.len() == 0 {
        0
    } else {
        max_dur(m.choose(), fold_max(m.remove(m.choose())))
    }
}

/// Two replays that record the same durations, in whatever order the workers'
/// updates interleaved, end at the same running total and the same running
/// maximum: the aggregates depend only on the multiset of measurements.
pub proof fn lemma_totals_are_order_insensitive(ds: Seq<u64>, es: Seq<u64>)
    requires
        ds.to_multiset() == es.to_multiset(),
    ensures
        clamped_duration_sum(ds) == clamped_duration_sum(es),
        duration_max(ds) == duration_max(es),
{
    lemma_duration_sum_is_multiset_sum(ds);
    lemma_duration_sum_is_multiset_sum(es);
    lemma_duration_max_is_multiset_max(ds);
    lemma_duration_max_is_multiset_max(es);
}

/// The sequence sum equals the fold of the sequence's multiset.
proof fn lemma_duration_sum_is_multiset_sum(ds: Seq<u64>)
    ensures
        duration_sum(ds) == fold_sum(ds.to_multiset()),
    decreases ds.len(),
{
    broadcast use vstd::multiset::group_multiset_axioms;

    if ds.len() == 0 {
        ds.to_multiset_ensures();
        assert(ds.to_multiset() =~= Multiset::<u64>::empty());
    } else {
        lemma_duration_sum_is_multiset_sum(ds.drop_last());
        ds.drop_last().to_multiset_ensures();
        assert(ds.drop_last().push(ds.last()) =~= ds);
        lemma_fold_sum_insert(ds.drop_last().to_multiset(), ds.last());
    }
}

/// The sequence maximum equals the fold of the sequence's multiset.
proof fn lemma_duration_max_is_multiset_max(ds: Seq<u64>)
    ensures
        duration_max(ds) == fold_max(ds.to_multiset()),
    decreases ds.len(),
{
    broadcast use vstd::multiset::group_multiset_axioms;

    if ds.len() == 0 {
        ds.to_multiset_ensures();
        assert(ds.to_multiset() =~= Multiset::<u64>::empty());
    } else {
        lemma_duration_max_is_multiset_max(ds.drop_last());
        ds.drop_last().to_multiset_ensures();
        assert(ds.drop_last().push(ds.last()) =~= ds);
        lemma_fold_max_insert(ds.drop_last().to_multiset(), ds.last());
    }
}

/// Folding after an insertion adds the inserted duration to the sum.
proof fn lemma_fold_sum_insert(m: Multiset<u64>, x: u64)
    ensures
        fold_sum(m.insert(x)) == x + fold_sum(m),
{
    broadcast use vstd::multiset::group_multiset_axioms;

    lemma_fold_sum_remove(m.insert(x), x);
    assert(m.insert(x).remove(x) =~= m);
}

/// Removing a member takes exactly its value out of the sum, wherever the
/// fold's arbitrary choices happen to visit it.
proof fn lemma_fold_sum_remove(m: Multiset<u64>, y: u64)
    requires
        m.contains(y),
    ensures
        fold_sum(m) == y + fold_sum(m.remove(y)),
    decreases m.len(),
{
    broadcast use vstd::multiset::group_multiset_axioms;

    let z = m.choose();
    if z != y {
        lemma_fold_sum_remove(m.remove(z), y);
        lemma_fold_sum_remove(m.remove(y), z);
        assert(m.remove(z).remove(y) =~= m.remove(y).remove(z));
    }
}

/// Folding after an insertion takes the maximum with the inserted duration.
proof fn lemma_fold_max_insert(m: Multiset<u64>, x: u64)
    ensures
        fold_max(m.insert(x)) == max_dur(x, fold_max(m)),
{
    broadcast use vstd::multiset::group_multiset_axioms;

    lemma_fold_max_remove(m.insert(x), x);
    assert(m.insert(x).remove(x) =~= m);
}

/// Taking a member out of the fold leaves the maximum of the rest.
proof fn lemma_fold_max_remove(m: Multiset<u64>, y: u64)
    requires
        m.contains(y),
    ensures
        fold_max(m) == max_dur(y, fold_max(m.remove(y))),
    decreases m.len(),
{
    broadcast use vstd::multiset::group_multiset_axioms;

    let z = m.choose();
    if z != y {
        lemma_fold_max_remove(m.remove(z), y);
        lemma_fold_max_remove(m.remove(y), z);
        assert(m.remove(z).remove(y) =~= m.remove(y).remove(z));
    }
}

} // verus!

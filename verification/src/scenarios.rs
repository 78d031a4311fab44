//! End-to-end scenarios over the whole library, one per chapter of the
//! underlying coordination patterns: exclusive-access counting, and the full
//! spawn / work / observe / join pipeline.

use vstd::prelude::*;
use crate::coordinator::{
    TaskCoordinator, lemma_clean_run_has_no_join_error,
};
use crate::counter::ProgressCounter;
use crate::schedule::{round_robin_schedule, run_schedule};

verus! {

/// The exclusive-access counting scenario: ten workers each add one hundred
/// increments to one shared counter, every increment made under exclusive
/// access to the whole read-compute-write step, so the total is exactly one
/// thousand — no update lost, none torn.
pub fn chapter_one_example_container() -> (r: u64)
    ensures
        r == 1000,
{
    let mut counter = ProgressCounter::new(1000);
    let mut t: usize = 0;
    while t < 10
        invariant
            t <= 10,
            counter.wf(),
            counter.spec_target() == 1000,
            counter.spec_value() == t * 100,
        decreases 10 - t,
    {
        let mut i: usize = 0;
        while i < 100
            invariant
                t < 10,
                i <= 100,
                counter.wf(),
                counter.spec_target() == 1000,
                counter.spec_value() == t * 100 + i,
            decreases 100 - i,
        {
            counter.increment();
            i = i + 1;
        }
        t = t + 1;
    }
    counter.value()
}

/// The full pipeline scenario: four workers of twenty-five units each are
/// spawned, their hundred units complete in round-robin interleaving, the
/// observer's completion predicate turns true at exactly one hundred, and
/// joining the pool surfaces no failure and returns the final count.
pub fn chapter_two_example_container() -> (r: u64)
    ensures
        r == 100,
{
    let schedule = round_robin_schedule(4, 25);
    let mut durations: Vec<u64> = Vec::new();
    let mut k: usize = 0;
    let total = schedule.len();
    while k < total
        invariant
            k <= total,
            durations@.len() == k,
        decreases total - k,
    {
        durations.push(1);
        k = k + 1;
    }
    let mut pool: TaskCoordinator = run_schedule(4, 25, &schedule, &durations);
    let done = pool.is_complete();
    assert(done);
    let mut join_ok: Vec<bool> = Vec::new();
    let mut j: usize = 0;
    while j < 4
        invariant
            j <= 4,
            join_ok@.len() == j,
            forall|i: int| 0 <= i < j ==> join_ok@[i],
        decreases 4 - j,
    {
        join_ok.push(true);
        j = j + 1;
    }
    proof {
        lemma_clean_run_has_no_join_error(pool.spec_workers(), join_ok@, 0);
    }
    match pool.join_all(&join_ok) {
        Ok(count) => count,
        Err(_) => 0,
    }
}

} // verus!

//! Schedules: explicit interleavings of the workers' completed units.
//!
//! Each atomic counter update is indivisible, so a concurrent run of the pool
//! is equivalent to a serial replay of its updates in some order.  That order
//! is a schedule: the sequence of worker indices whose unit of work finished,
//! one entry per unit.  `run_schedule` replays any well-formed schedule and
//! proves that the shared counter ends at exactly
//! `worker_count * iterations_per_worker`, whatever the interleaving — no
//! update lost, none counted twice.

use vstd::prelude::*;
use crate::coordinator::{
    CoordError, TaskCoordinator, lemma_all_completed_implies_exact_count,
    lemma_clean_run_has_no_join_error,
};
use crate::stats::{clamped_duration_sum, duration_max};

verus! {

/// How many of the schedule's entries are units of worker `w`.
pub open spec fn occurrences(s: Seq<usize>, w: int) -> int
    decreases s.len(),
{
    if s.len() == 0 {
        0
    } else {
        occurrences(s.drop_last(), w) + if s.last() as int == w {
            1int
        } else {
            0int
        }
    }
}

/// A schedule is well-formed for a pool of `worker_count` workers of
/// `iterations_per_worker` units each when every entry names a worker of the
/// pool and every worker appears exactly once per unit of its work.
pub open spec fn valid_schedule(s: Seq<usize>, worker_count: int, iterations_per_worker: u64) -> bool {
    &&& forall|k: int| 0 <= k < s.len() ==> 0 <= #[trigger] s[k] < worker_count
    &&& forall|w: int| 0 <= w < worker_count ==> occurrences(s, w) == iterations_per_worker
}

/// Appending one entry raises exactly that worker's count by one.
pub proof fn lemma_occurrences_push(s: Seq<usize>, x: usize, w: int)
    ensures
        occurrences(s.push(x), w) == occurrences(s, w) + if x as int == w {
            1int
        } else {
            0int
        },
{
    assert(s.push(x).drop_last() =~= s);
}

/// Extending a prefix by the next entry raises exactly that entry's count.
pub proof fn lemma_occurrences_take_succ(s: Seq<usize>, k: int, w: int)
    requires
        0 <= k < s.len(),
    ensures
        occurrences(s.take(k + 1), w) == occurrences(s.take(k), w) + if s[k] as int == w {
            1int
        } else {
            0int
        },
{
    assert(s.take(k + 1).drop_last() =~= s.take(k));
    assert(s.take(k + 1).last() == s[k]);
}

/// Counts are never negative.
pub proof fn lemma_occurrences_nonneg(s: Seq<usize>, w: int)
    ensures
        occurrences(s, w) >= 0,
    decreases s.len(),
{
    if s.len() > 0 {
        lemma_occurrences_nonneg(s.drop_last(), w);
    }
}

/// A prefix of the schedule holds at most as many of a worker's units as the
/// whole schedule.
pub proof fn lemma_occurrences_prefix_le(s: Seq<usize>, k: int, w: int)
    requires
        0 <= k <= s.len(),
    ensures
        occurrences(s.take(k), w) <= occurrences(s, w),
    decreases s.len() - k,
{
    if k == s.len() {
        assert(s.take(k) =~= s);
    } else {
        lemma_occurrences_take_succ(s, k, w);
        lemma_occurrences_prefix_le(s, k + 1, w);
    }
}

/// Replay a whole run under any well-formed schedule, with `durations[k]`
/// the elapsed time of the `k`-th completed unit.
///
/// Whatever the interleaving, the replay ends with every worker complete,
/// the counter at exactly `worker_count * iterations_per_worker` — for all
/// `worker_count >= 1` and all `iterations_per_worker >= 0`, with no update
/// lost and none counted twice — and the statistics at the clamped sum and
/// the maximum of the recorded durations, which depend only on what was
/// measured, not on the order.
pub fn run_schedule(
    worker_count: usize,
    iterations_per_worker: u64,
    schedule: &Vec<usize>,
    durations: &Vec<u64>,
) -> (r: TaskCoordinator)
    requires
        worker_count >= 1,
        worker_count * iterations_per_worker <= u64::MAX,
        valid_schedule(schedule@, worker_count as int, iterations_per_worker),
        durations@.len() == schedule@.len(),
    ensures
        r.wf(),
        r.spec_phase() is AwaitingCompletion,
        r.spec_worker_count() == worker_count,
        r.spec_iterations() == iterations_per_worker,
        r.spec_target() == worker_count * iterations_per_worker,
        r.spec_progress() == worker_count * iterations_per_worker,
        forall|i: int|
            0 <= i < worker_count ==> (#[trigger] r.spec_workers()[i]).phase is Completed,
        r.spec_stats_count() == worker_count * iterations_per_worker,
        r.spec_stats_total() == clamped_duration_sum(durations@),
        r.spec_stats_max() == duration_max(durations@),
{
    let mut c = TaskCoordinator::new(worker_count, iterations_per_worker);
    c.start_all();
    let total = schedule.len();
    let mut k: usize = 0;
    while k < total
        invariant
            k <= total,
            total == schedule@.len(),
            durations@.len() == total,
            worker_count >= 1,
            valid_schedule(schedule@, worker_count as int, iterations_per_worker),
            c.wf(),
            c.spec_phase() is AwaitingCompletion,
            c.spec_worker_count() == worker_count,
            c.spec_iterations() == iterations_per_worker,
            c.spec_target() == worker_count * iterations_per_worker,
            forall|i: int|
                0 <= i < worker_count ==> !((#[trigger] c.spec_workers()[i]).phase is Failed),
            forall|i: int|
                0 <= i < worker_count ==> (#[trigger] c.spec_workers()[i]).remaining
                    == iterations_per_worker - occurrences(schedule@.take(k as int), i),
            c.spec_stats_total() == clamped_duration_sum(durations@.take(k as int)),
            c.spec_stats_max() == duration_max(durations@.take(k as int)),
        decreases total - k,
    {
        let w = schedule[k];
        let d = durations[k];
        proof {
            lemma_occurrences_take_succ(schedule@, k as int, w as int);
            lemma_occurrences_prefix_le(schedule@, k as int + 1, w as int);
            lemma_occurrences_nonneg(schedule@.take(k as int), w as int);
        }
        c.step_unit_done(w, d);
        proof {
            assert forall|i: int|
                0 <= i < worker_count implies (#[trigger] c.spec_workers()[i]).remaining
                == iterations_per_worker - occurrences(schedule@.take(k as int + 1), i) by {
                lemma_occurrences_take_succ(schedule@, k as int, i);
            }
            assert(durations@.take(k as int + 1).drop_last() =~= durations@.take(k as int));
            assert(durations@.take(k as int + 1).last() == durations@[k as int]);
            crate::stats::lemma_duration_sum_nonneg(durations@.take(k as int));
            assert(crate::stats::duration_sum(durations@.take(k as int + 1))
                == crate::stats::duration_sum(durations@.take(k as int)) + d);
        }
        k = k + 1;
    }
    proof {
        assert(schedule@.take(total as int) =~= schedule@);
        assert(durations@.take(total as int) =~= durations@);
        assert forall|i: int|
            0 <= i < worker_count implies (#[trigger] c.spec_workers()[i]).phase
            is Completed by {
            assert(occurrences(schedule@, i) == iterations_per_worker);
        }
        lemma_all_completed_implies_exact_count(c);
    }
    c
}

/// A whole failure-free run: spawn `worker_count` workers, replay their
/// units in round-robin interleaving with the given per-unit durations, join
/// every worker, and surface the final count.
///
/// For every `worker_count >= 1` and every `iterations_per_worker >= 0`, the
/// run completes with exactly `Ok(worker_count * iterations_per_worker)`.
pub fn run(worker_count: usize, iterations_per_worker: u64, durations: &Vec<u64>) -> (r: Result<
    u64,
    CoordError,
>)
    requires
        worker_count >= 1,
        worker_count * iterations_per_worker <= usize::MAX,
        worker_count * iterations_per_worker <= u64::MAX,
        durations@.len() == worker_count * iterations_per_worker,
    ensures
        r == Ok::<u64, CoordError>((worker_count * iterations_per_worker) as u64),
{
    let schedule = round_robin_schedule(worker_count, iterations_per_worker);
    let mut pool = run_schedule(worker_count, iterations_per_worker, &schedule, durations);
    let mut join_ok: Vec<bool> = Vec::new();
    let mut j: usize = 0;
    while j < worker_count
        invariant
            j <= worker_count,
            join_ok@.len() == j,
            forall|i: int| 0 <= i < j ==> join_ok@[i],
        decreases worker_count - j,
    {
        join_ok.push(true);
        j = j + 1;
    }
    proof {
        lemma_clean_run_has_no_join_error(pool.spec_workers(), join_ok@, 0);
    }
    pool.join_all(&join_ok)
}

/// An interleaved schedule: the workers take turns, one unit each per round,
/// the way simultaneous workers of equal pace would serialize.
pub fn round_robin_schedule(worker_count: usize, iterations_per_worker: u64) -> (r: Vec<usize>)
    requires
        worker_count >= 1,
        worker_count * iterations_per_worker <= usize::MAX,
    ensures
        valid_schedule(r@, worker_count as int, iterations_per_worker),
        r@.len() == worker_count * iterations_per_worker,
{
    let mut s: Vec<usize> = Vec::new();
    let mut round: u64 = 0;
    while round < iterations_per_worker
        invariant
            round <= iterations_per_worker,
            worker_count >= 1,
            worker_count * iterations_per_worker <= usize::MAX,
            s@.len() == worker_count * round,
            forall|k: int| 0 <= k < s@.len() ==> 0 <= #[trigger] s@[k] < worker_count,
            forall|w: int| 0 <= w < worker_count ==> occurrences(s@, w) == round,
        decreases iterations_per_worker - round,
    {
        let mut i: usize = 0;
        while i < worker_count
            invariant
                i <= worker_count,
                round < iterations_per_worker,
                worker_count >= 1,
                worker_count * iterations_per_worker <= usize::MAX,
                s@.len() == worker_count * round + i,
                forall|k: int| 0 <= k < s@.len() ==> 0 <= #[trigger] s@[k] < worker_count,
                forall|w: int| 0 <= w < i ==> occurrences(s@, w) == round + 1,
                forall|w: int| i <= w < worker_count ==> occurrences(s@, w) == round,
            decreases worker_count - i,
        {
            let ghost t = s@;
            s.push(i);
            proof {
                assert forall|w: int| 0 <= w < worker_count implies occurrences(s@, w)
                    == occurrences(t, w) + if i as int == w {
                    1int
                } else {
                    0int
                } by {
                    lemma_occurrences_push(t, i, w);
                }
            }
            i = i + 1;
        }
        proof {
            assert(worker_count * (round + 1) == worker_count * round + worker_count)
                by (nonlinear_arith);
        }
        round = round + 1;
    }
    s
}

/// A blocked schedule: each worker's units in one contiguous run, the way a
/// pool would serialize if each worker ran to completion before the next
/// started.
pub fn block_schedule(worker_count: usize, iterations_per_worker: u64) -> (r: Vec<usize>)
    requires
        worker_count >= 1,
        worker_count * iterations_per_worker <= usize::MAX,
    ensures
        valid_schedule(r@, worker_count as int, iterations_per_worker),
        r@.len() == worker_count * iterations_per_worker,
{
    let mut s: Vec<usize> = Vec::new();
    let mut i: usize = 0;
    while i < worker_count
        invariant
            i <= worker_count,
            worker_count >= 1,
            worker_count * iterations_per_worker <= usize::MAX,
            s@.len() == i * iterations_per_worker,
            forall|k: int| 0 <= k < s@.len() ==> 0 <= #[trigger] s@[k] < worker_count,
            forall|w: int| 0 <= w < i ==> occurrences(s@, w) == iterations_per_worker,
            forall|w: int| i <= w < worker_count ==> occurrences(s@, w) == 0,
        decreases worker_count - i,
    {
        let mut u: u64 = 0;
        while u < iterations_per_worker
            invariant
                u <= iterations_per_worker,
                i < worker_count,
                worker_count >= 1,
                worker_count * iterations_per_worker <= usize::MAX,
                s@.len() == i * iterations_per_worker + u,
                forall|k: int| 0 <= k < s@.len() ==> 0 <= #[trigger] s@[k] < worker_count,
                forall|w: int| 0 <= w < i ==> occurrences(s@, w) == iterations_per_worker,
                occurrences(s@, i as int) == u,
                forall|w: int| i < w < worker_count ==> occurrences(s@, w) == 0,
            decreases iterations_per_worker - u,
        {
            let ghost t = s@;
            s.push(i);
            proof {
                assert forall|w: int| 0 <= w < worker_count implies occurrences(s@, w)
                    == occurrences(t, w) + if i as int == w {
                    1int
                } else {
                    0int
                } by {
                    lemma_occurrences_push(t, i, w);
                }
            }
            u = u + 1;
        }
        proof {
            assert((i + 1) * iterations_per_worker == i * iterations_per_worker
                + iterations_per_worker) by (nonlinear_arith);
        }
        i = i + 1;
    }
    s
}

} // verus!

//! The task coordinator: a fixed pool of workers, a shared progress counter,
//! shared duration statistics, and a completion predicate for the observer.
//!
//! Every shared update a worker makes (the progress increment, the duration
//! total, the running maximum) is an indivisible atomic operation, so any
//! concurrent run of the pool is equivalent to some serial replay of those
//! operations.  A replay is driven here by a *schedule*: the sequence of
//! worker indices in the order their units of work completed.  The central
//! theorem is that the outcome is the same for every schedule — the counter
//! ends at exactly `worker_count * iterations_per_worker`, with no update
//! lost and none counted twice.

use vstd::prelude::*;
use crate::counter::ProgressCounter;
use crate::stats::{DurationAccumulator, StatsReport, max_dur};

verus! {

/// The life of one worker: spawned, then running its iterations, then either
/// done with all of them or stopped by an unrecoverable error.  Terminal
/// states are observed only at join time.
#[derive(Clone, Copy, Debug, PartialEq, Eq, Structural)]
pub enum WorkerPhase {
    Created,
    Running,
    Completed,
    Failed,
}

/// One worker of the pool: how many of its iterations are still to do, and
/// where it stands in its life cycle.
#[derive(Clone, Copy, Debug, PartialEq, Eq, Structural)]
pub struct WorkerState {
    /// Iterations this worker has not completed yet.
    pub remaining: u64,
    /// Where the worker stands in its life cycle.
    pub phase: WorkerPhase,
}

/// The life of the run as a whole.
#[derive(Clone, Copy, Debug, PartialEq, Eq, Structural)]
pub enum CoordinatorPhase {
    Idle,
    Spawning,
    AwaitingCompletion,
    Joined,
}

/// Why a run failed.  Failures are surfaced only when the pool is joined,
/// and always name the worker so the run can be reproduced.
#[derive(Clone, Copy, Debug, PartialEq, Eq, Structural)]
pub enum CoordError {
    /// The worker's unit of work signalled an unrecoverable error.
    WorkerFailure { worker: usize },
    /// The worker could not be joined at all (it aborted mid-execution).
    JoinFailure { worker: usize },
}

/// Iterations still to do, summed over the whole pool.
pub open spec fn sum_remaining(ws: Seq<WorkerState>) -> int
    decreases ws.len(),
{
    if ws.len() == 0 {
        0
    } else {
        sum_remaining(ws.drop_last()) + ws.last().remaining
    }
}

/// Coordinates a fixed number of workers over a shared progress counter and
/// shared duration statistics.
///
/// The host program owns the actual threads; it tells the coordinator what
/// happened (a unit of work finished in so many microseconds, a unit of work
/// failed, a worker was joined) and the coordinator accounts for it.  The
/// well-formedness invariant ties the counter to the workers: the progress
/// counter always equals the total number of expected units minus the
/// iterations still to do, so it never decreases, is never double-counted,
/// and never runs past the target.
pub struct TaskCoordinator {
    counter: ProgressCounter,
    stats: DurationAccumulator,
    workers: Vec<WorkerState>,
    iterations_per_worker: u64,
    phase: CoordinatorPhase,
}

impl TaskCoordinator {
    /// The workers of the pool.
    pub closed spec fn spec_workers(&self) -> Seq<WorkerState> {
        self.workers@
    }

    /// Number of workers in the pool.
    pub open spec fn spec_worker_count(&self) -> int {
        self.spec_workers().len() as int
    }

    /// Iterations each worker is to run.
    pub closed spec fn spec_iterations(&self) -> u64 {
        self.iterations_per_worker
    }

    /// Units of work completed so far, as counted by the shared counter.
    pub closed spec fn spec_progress(&self) -> u64 {
        self.counter.spec_value()
    }

    /// Total units of work expected over the whole run.
    pub closed spec fn spec_target(&self) -> u64 {
        self.counter.spec_target()
    }

    /// Where the run stands in its life cycle.
    pub closed spec fn spec_phase(&self) -> CoordinatorPhase {
        self.phase
    }

    /// Operations recorded in the duration statistics.
    pub closed spec fn spec_stats_count(&self) -> u64 {
        self.stats.spec_count()
    }

    /// Clamped running total of recorded durations.
    pub closed spec fn spec_stats_total(&self) -> u64 {
        self.stats.spec_total()
    }

    /// Largest recorded duration.
    pub closed spec fn spec_stats_max(&self) -> u64 {
        self.stats.spec_max()
    }

    /// The coordinator's invariant.
    pub open spec fn wf(&self) -> bool {
        &&& self.spec_worker_count() >= 1
    &&& self.spec_worker_count() * self.spec_iterations() <= u64::MAX
    &&& self.spec_target() == self.spec_worker_count() * self.spec_iterations()
    &&& self.spec_progress() <= self.spec_target()
    &&& forall|i: int|
        0 <= i < self.spec_worker_count() ==> (#[trigger] self.spec_workers()[i]).remaining
            <= self.spec_iterations()
    &&& forall|i: int|
        0 <= i < self.spec_worker_count() ==> ((#[trigger] self.spec_workers()[i]).phase
            is Created ==> self.spec_workers()[i].remaining == self.spec_iterations())
    &&& forall|i: int|
        0 <= i < self.spec_worker_count() ==> ((#[trigger] self.spec_workers()[i]).phase
            is Running ==> self.spec_workers()[i].remaining >= 1)
    &&& forall|i: int|
        0 <= i < self.spec_worker_count() ==> ((#[trigger] self.spec_workers()[i]).phase
            is Completed ==> self.spec_workers()[i].remaining == 0)
    &&& forall|i: int|
        0 <= i < self.spec_worker_count() ==> ((#[trigger] self.spec_workers()[i]).phase
            is Failed ==> self.spec_workers()[i].remaining >= 1)
    &&& self.spec_progress() + sum_remaining(self.spec_workers()) == self.spec_target()
    &&& self.spec_stats_count() == self.spec_progress()
    &&& (self.spec_phase() is Idle ==> forall|i: int|
        0 <= i < self.spec_worker_count() ==> (#[trigger] self.spec_workers()[i]).phase
            is Created)
    &&& (self.spec_phase() is AwaitingCompletion ==> forall|i: int|
        0 <= i < self.spec_worker_count() ==> !((#[trigger] self.spec_workers()[i]).phase
            is Created))
    &&& (self.spec_phase() is Joined ==> forall|i: int|
        0 <= i < self.spec_worker_count() ==> terminal(
            (#[trigger] self.spec_workers()[i]).phase,
        ))
    }

    /// Every worker has reached a terminal state.
    pub open spec fn all_terminal(&self) -> bool {
        forall|i: int|
            0 <= i < self.spec_worker_count() ==> terminal(
                (#[trigger] self.spec_workers()[i]).phase,
            )
    }

    /// A coordinator for `worker_count` workers of `iterations_per_worker`
    /// units each, with nothing spawned, nothing counted and nothing
    /// recorded yet.
    pub fn new(worker_count: usize, iterations_per_worker: u64) -> (r: TaskCoordinator)
        requires
            worker_count >= 1,
            worker_count * iterations_per_worker <= u64::MAX,
        ensures
            r.wf(),
            r.spec_worker_count() == worker_count,
            r.spec_iterations() == iterations_per_worker,
            r.spec_phase() is Idle,
            r.spec_progress() == 0,
            r.spec_target() == worker_count * iterations_per_worker,
            r.spec_stats_count() == 0,
            r.spec_stats_total() == 0,
            r.spec_stats_max() == 0,
    {
        let mut workers: Vec<WorkerState> = Vec::new();
        let mut i: usize = 0;
        while i < worker_count
            invariant
                i <= worker_count,
                workers@.len() == i,
                forall|j: int|
                    0 <= j < i ==> #[trigger] workers@[j] == (WorkerState {
                        remaining: iterations_per_worker,
                        phase: WorkerPhase::Created,
                    }),
            decreases worker_count - i,
        {
            workers.push(
                WorkerState { remaining: iterations_per_worker, phase: WorkerPhase::Created },
            );
            i = i + 1;
        }
        let target = (worker_count as u64) * iterations_per_worker;
        proof {
            lemma_sum_remaining_uniform(workers@, iterations_per_worker);
        }
        TaskCoordinator {
            counter: ProgressCounter::new(target),
            stats: DurationAccumulator::new(),
            workers,
            iterations_per_worker,
            phase: CoordinatorPhase::Idle,
        }
    }

    /// Hand one created worker to the pool's scope.  The worker starts
    /// running — or is already complete if it has zero iterations to do —
    /// and the run is awaiting completion as soon as no created worker is
    /// left.
    pub fn spawn_worker(&mut self, worker: usize)
        requires
            old(self).wf(),
            0 <= worker < old(self).spec_worker_count(),
            old(self).spec_workers()[worker as int].phase is Created,
            old(self).spec_phase() is Idle || old(self).spec_phase() is Spawning,
        ensures
            final(self).wf(),
            final(self).spec_workers() == old(self).spec_workers().update(
                worker as int,
                WorkerState {
                    remaining: old(self).spec_workers()[worker as int].remaining,
                    phase: if old(self).spec_iterations() == 0 {
                        WorkerPhase::Completed
                    } else {
                        WorkerPhase::Running
                    },
                },
            ),
            final(self).spec_phase() == if (exists|j: int|
                0 <= j < final(self).spec_worker_count()
                    && (#[trigger] final(self).spec_workers()[j]).phase is Created) {
                CoordinatorPhase::Spawning
            } else {
                CoordinatorPhase::AwaitingCompletion
            },
            final(self).spec_worker_count() == old(self).spec_worker_count(),
            final(self).spec_iterations() == old(self).spec_iterations(),
            final(self).spec_progress() == old(self).spec_progress(),
            final(self).spec_target() == old(self).spec_target(),
            final(self).spec_stats_count() == old(self).spec_stats_count(),
            final(self).spec_stats_total() == old(self).spec_stats_total(),
            final(self).spec_stats_max() == old(self).spec_stats_max(),
    {
        let remaining = self.workers[worker].remaining;
        let phase = if self.iterations_per_worker == 0 {
            WorkerPhase::Completed
        } else {
            WorkerPhase::Running
        };
        self.workers.set(worker, WorkerState { remaining, phase });
        proof {
            lemma_sum_remaining_update(
                old(self).spec_workers(),
                worker as int,
                WorkerState { remaining, phase },
            );
        }
        let mut any_created = false;
        let mut j: usize = 0;
        let worker_count = self.workers.len();
        while j < worker_count
            invariant
                j <= worker_count,
                worker_count == self.spec_worker_count(),
                self.counter == old(self).counter,
                self.stats == old(self).stats,
                self.iterations_per_worker == old(self).iterations_per_worker,
                self.phase == old(self).phase,
                self.workers@ == old(self).spec_workers().update(
                    worker as int,
                    WorkerState { remaining, phase },
                ),
                any_created == exists|k: int|
                    0 <= k < j && (#[trigger] self.spec_workers()[k]).phase is Created,
            decreases worker_count - j,
        {
            if matches!(self.workers[j].phase, WorkerPhase::Created) {
                any_created = true;
            }
            j = j + 1;
        }
        self.phase = if any_created {
            CoordinatorPhase::Spawning
        } else {
            CoordinatorPhase::AwaitingCompletion
        };
    }

    /// Spawn the whole pool: afterwards every worker is out of `Created` and
    /// the run is awaiting completion.
    pub fn start_all(&mut self)
        requires
            old(self).wf(),
            old(self).spec_phase() is Idle,
        ensures
            final(self).wf(),
            final(self).spec_phase() is AwaitingCompletion,
            final(self).spec_worker_count() == old(self).spec_worker_count(),
            final(self).spec_iterations() == old(self).spec_iterations(),
            final(self).spec_progress() == old(self).spec_progress(),
            final(self).spec_target() == old(self).spec_target(),
            final(self).spec_stats_count() == old(self).spec_stats_count(),
            final(self).spec_stats_total() == old(self).spec_stats_total(),
            final(self).spec_stats_max() == old(self).spec_stats_max(),
            forall|i: int|
                0 <= i < final(self).spec_worker_count()
                    ==> (#[trigger] final(self).spec_workers()[i]).phase == (if old(
                    self,
                ).spec_iterations() == 0 {
                    WorkerPhase::Completed
                } else {
                    WorkerPhase::Running
                }),
            forall|i: int|
                0 <= i < final(self).spec_worker_count()
                    ==> (#[trigger] final(self).spec_workers()[i]).remaining == old(
                    self,
                ).spec_workers()[i].remaining,
    {
        let worker_count = self.workers.len();
        let mut i: usize = 0;
        while i < worker_count
            invariant
                i <= worker_count,
                worker_count == self.spec_worker_count(),
                self.wf(),
                self.spec_worker_count() == old(self).spec_worker_count(),
                self.spec_iterations() == old(self).spec_iterations(),
                self.spec_progress() == old(self).spec_progress(),
                self.spec_target() == old(self).spec_target(),
                self.spec_stats_count() == old(self).spec_stats_count(),
                self.spec_stats_total() == old(self).spec_stats_total(),
                self.spec_stats_max() == old(self).spec_stats_max(),
                forall|j: int|
                    0 <= j < i ==> (#[trigger] self.spec_workers()[j]).phase == (if old(
                        self,
                    ).spec_iterations() == 0 {
                        WorkerPhase::Completed
                    } else {
                        WorkerPhase::Running
                    }),
                forall|j: int|
                    i <= j < worker_count ==> (#[trigger] self.spec_workers()[j]).phase
                        is Created,
                forall|j: int|
                    0 <= j < worker_count ==> (#[trigger] self.spec_workers()[j]).remaining
                        == old(self).spec_workers()[j].remaining,
                i < worker_count ==> (self.spec_phase() is Idle || self.spec_phase()
                    is Spawning),
                i == worker_count ==> self.spec_phase() is AwaitingCompletion,
            decreases worker_count - i,
        {
            self.spawn_worker(i);
            i = i + 1;
        }
    }

    /// Account for one completed unit of work: `worker` finished one
    /// iteration in `duration` microseconds.  Exactly one increment of the
    /// progress counter, one recorded duration; the worker's remaining count
    /// goes down by one and it completes when it reaches zero.
    pub fn step_unit_done(&mut self, worker: usize, duration: u64)
        requires
            old(self).wf(),
            0 <= worker < old(self).spec_worker_count(),
            old(self).spec_workers()[worker as int].phase is Running,
        ensures
            final(self).wf(),
            final(self).spec_progress() == old(self).spec_progress() + 1,
            final(self).spec_workers() == old(self).spec_workers().update(
                worker as int,
                WorkerState {
                    remaining: (old(self).spec_workers()[worker as int].remaining - 1) as u64,
                    phase: if old(self).spec_workers()[worker as int].remaining == 1 {
                        WorkerPhase::Completed
                    } else {
                        WorkerPhase::Running
                    },
                },
            ),
            final(self).spec_worker_count() == old(self).spec_worker_count(),
            final(self).spec_iterations() == old(self).spec_iterations(),
            final(self).spec_target() == old(self).spec_target(),
            final(self).spec_phase() == old(self).spec_phase(),
            final(self).spec_stats_count() == old(self).spec_stats_count() + 1,
            old(self).spec_stats_total() + duration <= u64::MAX
                ==> final(self).spec_stats_total() == old(self).spec_stats_total() + duration,
            old(self).spec_stats_total() + duration > u64::MAX ==> final(self).spec_stats_total()
                == u64::MAX,
            final(self).spec_stats_max() == max_dur(old(self).spec_stats_max(), duration),
    {
        proof {
            lemma_sum_remaining_at_least_element(old(self).spec_workers(), worker as int);
        }
        self.counter.increment();
        self.stats.record(duration);
        let remaining = self.workers[worker].remaining - 1;
        let phase = if remaining == 0 {
            WorkerPhase::Completed
        } else {
            WorkerPhase::Running
        };
        self.workers.set(worker, WorkerState { remaining, phase });
        proof {
            lemma_sum_remaining_update(
                old(self).spec_workers(),
                worker as int,
                WorkerState { remaining, phase },
            );
        }
    }

    /// Account for one failed unit of work: `worker`'s work function
    /// signalled an unrecoverable error.  The failure happens between
    /// increments, never inside one, so the shared counters are untouched;
    /// the failure itself is surfaced later, at join time.
    pub fn step_unit_failed(&mut self, worker: usize)
        requires
            old(self).wf(),
            0 <= worker < old(self).spec_worker_count(),
            old(self).spec_workers()[worker as int].phase is Running,
        ensures
            final(self).wf(),
            final(self).spec_workers() == old(self).spec_workers().update(
                worker as int,
                WorkerState {
                    remaining: old(self).spec_workers()[worker as int].remaining,
                    phase: WorkerPhase::Failed,
                },
            ),
            final(self).spec_worker_count() == old(self).spec_worker_count(),
            final(self).spec_iterations() == old(self).spec_iterations(),
            final(self).spec_progress() == old(self).spec_progress(),
            final(self).spec_target() == old(self).spec_target(),
            final(self).spec_phase() == old(self).spec_phase(),
            final(self).spec_stats_count() == old(self).spec_stats_count(),
            final(self).spec_stats_total() == old(self).spec_stats_total(),
            final(self).spec_stats_max() == old(self).spec_stats_max(),
    {
        let remaining = self.workers[worker].remaining;
        self.workers.set(worker, WorkerState { remaining, phase: WorkerPhase::Failed });
        proof {
            lemma_sum_remaining_update(
                old(self).spec_workers(),
                worker as int,
                WorkerState { remaining, phase: WorkerPhase::Failed },
            );
        }
    }

    /// Where the run as a whole stands in its life cycle.
    pub fn current_phase(&self) -> (r: CoordinatorPhase)
        ensures
            r == self.spec_phase(),
    {
        self.phase
    }

    /// Where one worker stands in its life cycle.
    pub fn worker_phase(&self, worker: usize) -> (r: WorkerPhase)
        requires
            0 <= worker < self.spec_worker_count(),
        ensures
            r == self.spec_workers()[worker as int].phase,
    {
        self.workers[worker].phase
    }

    /// Iterations one worker has not completed yet.
    pub fn worker_remaining(&self, worker: usize) -> (r: u64)
        requires
            0 <= worker < self.spec_worker_count(),
        ensures
            r == self.spec_workers()[worker as int].remaining,
    {
        self.workers[worker].remaining
    }

    /// Current progress, as the observer reads it.
    pub fn progress(&self) -> (r: u64)
        ensures
            r == self.spec_progress(),
    {
        self.counter.value()
    }

    /// Total units of work expected over the whole run.
    pub fn target(&self) -> (r: u64)
        ensures
            r == self.spec_target(),
    {
        self.counter.target()
    }

    /// Number of workers in the pool.
    pub fn worker_count(&self) -> (r: usize)
        ensures
            r == self.spec_worker_count(),
    {
        self.workers.len()
    }

    /// The observer's completion predicate: true exactly when the counter
    /// has reached the target, never before.  While the run is awaiting
    /// completion this moreover means every worker has completed every one
    /// of its iterations.
    pub fn is_complete(&self) -> (r: bool)
        requires
            self.wf(),
        ensures
            r <==> self.spec_progress() == self.spec_target(),
            (r && self.spec_phase() is AwaitingCompletion) ==> forall|i: int|
                0 <= i < self.spec_worker_count() ==> (#[trigger] self.spec_workers()[i]).phase
                    is Completed,
    {
        let complete = self.counter.is_complete();
        proof {
            if complete && self.spec_phase() is AwaitingCompletion {
                lemma_zero_sum_means_none_remaining(self.spec_workers());
            }
        }
        complete
    }

    /// The aggregate duration statistics: `None` is the "no data yet"
    /// sentinel when nothing has completed, so no division by zero is ever
    /// attempted.
    pub fn aggregate_stats(&self) -> (r: Option<StatsReport>)
        ensures
            self.spec_stats_count() == 0 ==> r is None,
            self.spec_stats_count() > 0 ==> r == Some(
                StatsReport {
                    completed: self.spec_stats_count(),
                    total_duration: self.spec_stats_total(),
                    max_duration: self.spec_stats_max(),
                    average_duration: (self.spec_stats_total() / self.spec_stats_count()) as u64,
                },
            ),
    {
        self.stats.aggregate_stats()
    }

    /// Join the whole pool.  `join_ok[i]` says whether worker `i` could be
    /// joined at all; a worker that aborted mid-execution cannot.  Every
    /// worker is joined before any failure is surfaced — no worker is
    /// abandoned — and the verdict is the first failure in worker order: a
    /// worker that could not be joined, or one whose work failed.  When no
    /// worker failed, the run is complete and the final count comes back:
    /// exactly `worker_count * iterations_per_worker`.
    pub fn join_all(&mut self, join_ok: &Vec<bool>) -> (r: Result<u64, CoordError>)
        requires
            old(self).wf(),
            old(self).spec_phase() is AwaitingCompletion,
            old(self).all_terminal(),
            join_ok@.len() == old(self).spec_worker_count(),
        ensures
            final(self).wf(),
            final(self).spec_phase() is Joined,
            final(self).spec_workers() == old(self).spec_workers(),
            final(self).spec_progress() == old(self).spec_progress(),
            final(self).spec_target() == old(self).spec_target(),
            final(self).spec_iterations() == old(self).spec_iterations(),
            final(self).spec_stats_count() == old(self).spec_stats_count(),
            final(self).spec_stats_total() == old(self).spec_stats_total(),
            final(self).spec_stats_max() == old(self).spec_stats_max(),
            r == match first_join_error(old(self).spec_workers(), join_ok@, 0) {
                Some(e) => Err::<u64, CoordError>(e),
                None => Ok::<u64, CoordError>(old(self).spec_target()),
            },
            r is Ok ==> final(self).spec_progress() == final(self).spec_target(),
    {
        let worker_count = self.workers.len();
        let mut verdict: Option<CoordError> = None;
        let mut i: usize = 0;
        while i < worker_count && verdict.is_none()
            invariant
                *self == *old(self),
                i <= worker_count,
                worker_count == self.spec_worker_count(),
                join_ok@.len() == worker_count,
                verdict is None ==> first_join_error(self.spec_workers(), join_ok@, 0)
                    == first_join_error(self.spec_workers(), join_ok@, i as int),
                verdict is Some ==> first_join_error(self.spec_workers(), join_ok@, 0)
                    == verdict,
            decreases worker_count - i,
        {
            if !join_ok[i] {
                verdict = Some(CoordError::JoinFailure { worker: i });
            } else if matches!(self.workers[i].phase, WorkerPhase::Failed) {
                verdict = Some(CoordError::WorkerFailure { worker: i });
            }
            i = i + 1;
        }
        self.phase = CoordinatorPhase::Joined;
        match verdict {
            Some(e) => Err(e),
            None => {
                proof {
                    lemma_no_error_means_all_joinable(self.spec_workers(), join_ok@, 0);
                    lemma_sum_remaining_uniform(self.spec_workers(), 0);
                }
                Ok(self.counter.value())
            },
        }
    }
}

/// A phase a worker can be observed in at join time.
pub open spec fn terminal(p: WorkerPhase) -> bool {
    p is Completed || p is Failed
}

/// The first failure at or after worker `i`, scanning in worker order: a
/// worker that could not be joined, or one whose work failed.
pub open spec fn first_join_error(ws: Seq<WorkerState>, join_ok: Seq<bool>, i: int) -> Option<
    CoordError,
>
    decreases ws.len() - i,
{
    if i < 0 || i >= ws.len() {
        None
    } else if !join_ok[i] {
        Some(CoordError::JoinFailure { worker: i as usize })
    } else if ws[i].phase is Failed {
        Some(CoordError::WorkerFailure { worker: i as usize })
    } else {
        first_join_error(ws, join_ok, i + 1)
    }
}

/// A run in which every worker was joined cleanly and none failed has no
/// failure for the join scan to surface.
pub proof fn lemma_clean_run_has_no_join_error(ws: Seq<WorkerState>, join_ok: Seq<bool>, i: int)
    requires
        0 <= i <= ws.len(),
        join_ok.len() == ws.len(),
        forall|j: int| 0 <= j < ws.len() ==> join_ok[j],
        forall|j: int| 0 <= j < ws.len() ==> !((#[trigger] ws[j]).phase is Failed),
    ensures
        first_join_error(ws, join_ok, i) is None,
    decreases ws.len() - i,
{
    if i < ws.len() {
        lemma_clean_run_has_no_join_error(ws, join_ok, i + 1);
    }
}

/// When the scan finds no failure, every worker was joined cleanly and none
/// failed.
proof fn lemma_no_error_means_all_joinable(ws: Seq<WorkerState>, join_ok: Seq<bool>, i: int)
    requires
        0 <= i <= ws.len(),
        join_ok.len() == ws.len(),
        first_join_error(ws, join_ok, i) is None,
    ensures
        forall|j: int| i <= j < ws.len() ==> join_ok[j] && !((#[trigger] ws[j]).phase is Failed),
    decreases ws.len() - i,
{
    if i < ws.len() {
        lemma_no_error_means_all_joinable(ws, join_ok, i + 1);
    }
}

/// A pool whose every worker has remaining count equal to `r` has `len * r`
/// iterations still to do in total.
pub proof fn lemma_sum_remaining_uniform(ws: Seq<WorkerState>, r: u64)
    requires
        forall|i: int| 0 <= i < ws.len() ==> (#[trigger] ws[i]).remaining == r,
    ensures
        sum_remaining(ws) == ws.len() * r,
    decreases ws.len(),
{
    if ws.len() > 0 {
        lemma_sum_remaining_uniform(ws.drop_last(), r);
        assert(sum_remaining(ws) == (ws.len() - 1) * r + r);
        assert((ws.len() - 1) * r + r == ws.len() * r) by (nonlinear_arith);
    }
}

/// The total of remaining iterations is at least any one worker's share.
proof fn lemma_sum_remaining_at_least_element(ws: Seq<WorkerState>, i: int)
    requires
        0 <= i < ws.len(),
    ensures
        sum_remaining(ws) >= ws[i].remaining,
    decreases ws.len(),
{
    lemma_sum_remaining_nonneg(ws.drop_last());
    if i < ws.len() - 1 {
        lemma_sum_remaining_at_least_element(ws.drop_last(), i);
    }
}

/// Remaining counts are unsigned, so their sum is non-negative.
proof fn lemma_sum_remaining_nonneg(ws: Seq<WorkerState>)
    ensures
        sum_remaining(ws) >= 0,
    decreases ws.len(),
{
    if ws.len() > 0 {
        lemma_sum_remaining_nonneg(ws.drop_last());
    }
}

/// Replacing one worker's state changes the total by the difference in that
/// worker's remaining count.
proof fn lemma_sum_remaining_update(ws: Seq<WorkerState>, i: int, v: WorkerState)
    requires
        0 <= i < ws.len(),
    ensures
        sum_remaining(ws.update(i, v)) == sum_remaining(ws) - ws[i].remaining + v.remaining,
    decreases ws.len(),
{
    if i == ws.len() - 1 {
        assert(ws.update(i, v).drop_last() =~= ws.drop_last());
    } else {
        assert(ws.update(i, v).drop_last() =~= ws.drop_last().update(i, v));
        lemma_sum_remaining_update(ws.drop_last(), i, v);
    }
}

/// If the total of remaining iterations is zero, each worker's is zero.
proof fn lemma_zero_sum_means_none_remaining(ws: Seq<WorkerState>)
    requires
        sum_remaining(ws) == 0,
    ensures
        forall|i: int| 0 <= i < ws.len() ==> (#[trigger] ws[i]).remaining == 0,
    decreases ws.len(),
{
    if ws.len() > 0 {
        lemma_sum_remaining_nonneg(ws.drop_last());
        lemma_zero_sum_means_none_remaining(ws.drop_last());
        assert forall|i: int| 0 <= i < ws.len() implies (#[trigger] ws[i]).remaining == 0 by {
            if i < ws.len() - 1 {
                assert(ws.drop_last()[i] == ws[i]);
            }
        }
    }
}

/// When every worker of a well-formed coordinator has completed, the counter
/// holds exactly `worker_count * iterations_per_worker`: no update was lost,
/// none was counted twice.
pub proof fn lemma_all_completed_implies_exact_count(c: TaskCoordinator)
    requires
        c.wf(),
        forall|i: int|
            0 <= i < c.spec_worker_count() ==> (#[trigger] c.spec_workers()[i]).phase
                is Completed,
    ensures
        c.spec_progress() == c.spec_worker_count() * c.spec_iterations(),
{
    lemma_sum_remaining_uniform(c.spec_workers(), 0);
    assert(c.spec_worker_count() * 0 == 0) by (nonlinear_arith);
}

} // verus!

//! Bounded scheduler: task enumeration and quiescence/stall detection.
//!
//! The run schedules one fetch task per build across all jobs, capped by a
//! single shared concurrency limit. Completion is detected by polling the
//! outstanding-task count at a fixed interval: the run is finished when the
//! count reaches zero, or stalled when the count has stayed flat and below
//! a small threshold for a fixed number of consecutive polls. A stall is a
//! recorded completion mode, not an error: it tolerates a few permanently
//! stuck tasks without blocking the pipeline forever, at the price of those
//! few missing results.

use vstd::prelude::*;

verus! {

/// Number of fetch operations that may be in flight at once across a run.
pub const PARALLEL_FETCHES: usize = 4;

/// Seconds between two polls of the outstanding-task count.
pub const POLL_INTERVAL_SECS: u64 = 5;

/// A run can only stall while fewer tasks than this are outstanding.
pub const STALL_OUTSTANDING_THRESHOLD: u64 = 10;

/// Number of consecutive flat polls after which a run is declared stalled.
pub const STALL_FLAT_POLLS: u64 = 10;

/// The decision after one poll of the outstanding-task count.
#[derive(Clone, Copy, Debug, PartialEq, Eq, Structural)]
pub enum PollDecision {
    /// Tasks are outstanding and progress is still assumed: keep waiting.
    Continue,
    /// Every task has finished.
    Done,
    /// Progress has flattened with few tasks left: the remaining tasks are
    /// abandoned and the run finishes without their results.
    Stalled,
}

/// Quiescence-detection state carried between polls.
pub struct PollState {
    pub last_value: u64,
    pub iterations_since_change: u64,
}

/// The state and decision after observing `outstanding` tasks: zero ends
/// the run; a count equal to the last observed one bumps the flat-poll
/// counter (which saturates at its threshold), any other count resets it;
/// the run stalls when the count is below the outstanding threshold and the
/// counter has reached the flat-poll threshold.
pub open spec fn spec_poll_step(s: PollState, outstanding: u64) -> (PollState, PollDecision) {
    if outstanding == 0 {
        (s, PollDecision::Done)
    } else {
        let flat = if s.last_value == outstanding {
            if s.iterations_since_change < STALL_FLAT_POLLS {
                (s.iterations_since_change + 1) as u64
            } else {
                s.iterations_since_change
            }
        } else {
            0
        };
        let s2 = PollState { last_value: outstanding, iterations_since_change: flat };
        if outstanding < STALL_OUTSTANDING_THRESHOLD && flat >= STALL_FLAT_POLLS {
            (s2, PollDecision::Stalled)
        } else {
            (s2, PollDecision::Continue)
        }
    }
}

impl PollState {
    /// The flat-poll counter never runs past its threshold.
    pub open spec fn wf(&self) -> bool {
        self.iterations_since_change <= STALL_FLAT_POLLS
    }

    /// The state before the first poll.
    pub fn new() -> (s: PollState)
        ensures
            s.wf(),
            s.last_value == 0,
            s.iterations_since_change == 0,
    {
        PollState { last_value: 0, iterations_since_change: 0 }
    }

    /// Observes the current outstanding-task count and decides whether the
    /// run is finished, stalled, or still in progress.
    pub fn poll_step(&mut self, outstanding: u64) -> (d: PollDecision)
        requires
            old(self).wf(),
        ensures
            final(self).wf(),
            (*final(self), d) == spec_poll_step(*old(self), outstanding),
    {
        if outstanding == 0 {
            return PollDecision::Done;
        }
        if self.last_value == outstanding {
            if self.iterations_since_change < STALL_FLAT_POLLS {
                self.iterations_since_change = self.iterations_since_change + 1;
            }
        } else {
            self.last_value = outstanding;
            self.iterations_since_change = 0;
        }
        if outstanding < STALL_OUTSTANDING_THRESHOLD && self.iterations_since_change
            >= STALL_FLAT_POLLS {
            PollDecision::Stalled
        } else {
            PollDecision::Continue
        }
    }
}

/// Whether repeated polling, observing the constant count `c`, reaches a
/// terminal decision within `k` polls.
pub open spec fn terminates_within(s: PollState, c: u64, k: nat) -> bool
    decreases k,
{
    if k == 0 {
        false
    } else {
        let next = spec_poll_step(s, c);
        next.1 != PollDecision::Continue || terminates_within(next.0, c, (k - 1) as nat)
    }
}

/// Termination within `k` polls implies termination within any larger
/// budget.
pub proof fn lemma_terminates_mono(s: PollState, c: u64, k1: nat, k2: nat)
    requires
        terminates_within(s, c, k1),
        k1 <= k2,
    ensures
        terminates_within(s, c, k2),
    decreases k1,
{
    if k1 > 0 && spec_poll_step(s, c).1 == PollDecision::Continue {
        lemma_terminates_mono(spec_poll_step(s, c).0, c, (k1 - 1) as nat, (k2 - 1) as nat);
    }
}

proof fn lemma_flat_counts_up(s: PollState, c: u64)
    requires
        s.wf(),
        0 < c < STALL_OUTSTANDING_THRESHOLD,
        s.last_value == c,
    ensures
        terminates_within(s, c, (STALL_FLAT_POLLS - s.iterations_since_change + 1) as nat),
    decreases STALL_FLAT_POLLS - s.iterations_since_change,
{
    let next = spec_poll_step(s, c);
    if s.iterations_since_change + 1 >= STALL_FLAT_POLLS {
        assert(next.1 == PollDecision::Stalled);
    } else {
        lemma_flat_counts_up(next.0, c);
        lemma_terminates_mono(
            next.0,
            c,
            (STALL_FLAT_POLLS - next.0.iterations_since_change + 1) as nat,
            (STALL_FLAT_POLLS - s.iterations_since_change) as nat,
        );
    }
}

/// Stall law: once the outstanding-task count has dropped below the stall
/// threshold and stays flat, the scheduler terminates within a bounded
/// number of polls — at most one poll to observe the flat value plus the
/// configured number of flat polls, plus the terminal poll.
pub proof fn lemma_stall_terminates(s: PollState, c: u64)
    requires
        s.wf(),
        c < STALL_OUTSTANDING_THRESHOLD,
    ensures
        terminates_within(s, c, (STALL_FLAT_POLLS + 2) as nat),
{
    if c == 0 {
        assert(spec_poll_step(s, c).1 == PollDecision::Done);
    } else if s.last_value == c {
        lemma_flat_counts_up(s, c);
        lemma_terminates_mono(
            s,
            c,
            (STALL_FLAT_POLLS - s.iterations_since_change + 1) as nat,
            (STALL_FLAT_POLLS + 2) as nat,
        );
    } else {
        let next = spec_poll_step(s, c);
        if next.1 == PollDecision::Continue {
            lemma_flat_counts_up(next.0, c);
            lemma_terminates_mono(
                next.0,
                c,
                (STALL_FLAT_POLLS - next.0.iterations_since_change + 1) as nat,
                (STALL_FLAT_POLLS + 1) as nat,
            );
        }
    }
}

/// The fetch tasks of all jobs from index `i` on: one task per build,
/// builds of one job in order, jobs in order.
pub open spec fn tasks_of(jobs: Seq<(u64, Vec<u64>)>, i: int) -> Seq<(u64, u64)>
    decreases jobs.len() - i,
{
    if i < 0 || i >= jobs.len() {
        Seq::empty()
    } else {
        jobs[i].1@.map_values(|b: u64| (jobs[i].0, b)) + tasks_of(jobs, i + 1)
    }
}

/// With no job planned there is no fetch task at all: together with the
/// planning law of the cache store, a rerun over fully cached jobs
/// performs zero network requests.
pub proof fn lemma_empty_plan_schedules_nothing(jobs: Seq<(u64, Vec<u64>)>)
    requires
        jobs.len() == 0,
    ensures
        tasks_of(jobs, 0) == Seq::<(u64, u64)>::empty(),
{
}

/// Enumerates one fetch task per build across all jobs.
pub fn enumerate_tasks(jobs: &Vec<(u64, Vec<u64>)>) -> (r: Vec<(u64, u64)>)
    ensures
        r@ == tasks_of(jobs@, 0),
{
    let mut r: Vec<(u64, u64)> = Vec::new();
    let mut i: usize = 0;
    proof {
        assert(r@ + tasks_of(jobs@, 0) =~= tasks_of(jobs@, 0));
    }
    while i < jobs.len()
        invariant
            i <= jobs@.len(),
            r@ + tasks_of(jobs@, i as int) == tasks_of(jobs@, 0),
        decreases jobs@.len() - i,
    {
        let ghost job_tasks = jobs@[i as int].1@.map_values(|b: u64| (jobs@[i as int].0, b));
        let job = jobs[i].0;
        let builds = &jobs[i].1;
        let mut j: usize = 0;
        while j < builds.len()
            invariant
                j <= builds@.len(),
                builds@ == jobs@[i as int].1@,
                job == jobs@[i as int].0,
                0 <= i < jobs@.len(),
                job_tasks == jobs@[i as int].1@.map_values(|b: u64| (jobs@[i as int].0, b)),
                r@ + job_tasks.skip(j as int) + tasks_of(jobs@, i + 1) == tasks_of(jobs@, 0),
            decreases builds@.len() - j,
        {
            let ghost r0 = r@;
            r.push((job, builds[j]));
            proof {
                assert(job_tasks[j as int] == (job, builds@[j as int]));
                assert(r0 + job_tasks.skip(j as int) =~= r@ + job_tasks.skip(j + 1));
                assert(r0 + job_tasks.skip(j as int) + tasks_of(jobs@, i + 1) =~= r@
                    + job_tasks.skip(j + 1) + tasks_of(jobs@, i + 1));
            }
            j = j + 1;
        }
        proof {
            assert(job_tasks.skip(builds@.len() as int) =~= Seq::<(u64, u64)>::empty());
            assert(tasks_of(jobs@, i as int) == job_tasks + tasks_of(jobs@, i + 1));
            assert(r@ + job_tasks.skip(builds@.len() as int) + tasks_of(jobs@, i + 1) =~= r@
                + tasks_of(jobs@, i + 1));
        }
        i = i + 1;
    }
    proof {
        assert(tasks_of(jobs@, jobs@.len() as int) == Seq::<(u64, u64)>::empty());
        assert(r@ + Seq::<(u64, u64)>::empty() =~= r@);
    }
    r
}

} // verus!

//! What holds of the queue as a whole: the order in which jobs are claimed,
//! that no job is claimed twice, how a failing job ends, what a replay
//! restores, how retries are delayed, and what the statistics count.

use crate::external::is_clock_reading;
use crate::job::{backoff_secs, JobStatus, JobWrapper, BACKOFF_BASE_SECS};
use crate::pool::{
    claim_order, distinct_ids, eligible, has_id, in_claim_order, lemma_after_claim_wf,
    lemma_buried_wf, lemma_first_index_exists, lemma_first_index_is_first,
    lemma_insert_position, lemma_insert_position_bounds, lemma_inserted_wf, Store,
};
use crate::queue::QueueState;
use crate::worker::{
    disposition, recurrence, retry_record, retry_representable, Disposition, RunOutcome,
};
use vstd::arithmetic::power2::{lemma_pow2_unfold, pow2};
use vstd::prelude::*;

verus! {

/// A store that was filled by inserting jobs one after the other is well
/// formed.
pub proof fn lemma_inserted_all_wf(store: Store, jobs: Seq<JobWrapper>)
    requires
        store.wf(),
        forall|i: int| 0 <= i < jobs.len() ==> (#[trigger] jobs[i]).attempts < u32::MAX,
    ensures
        store.inserted_all(jobs).wf(),
        store.inserted_all(jobs).pending.len() == store.pending.len() + jobs.len(),
    decreases jobs.len(),
{
    if jobs.len() > 0 {
        lemma_inserted_all_wf(store, jobs.drop_last());
        lemma_inserted_wf(store.inserted_all(jobs.drop_last()), jobs.last());
    }
}

/// A claim takes the job that comes first in the claim order among those
/// that are eligible: it has the highest priority among them, and among
/// those of that priority the earliest creation time.
pub proof fn lemma_claim_takes_the_first_in_order(store: Store, now: i64, k: int)
    requires
        store.wf(),
        0 <= k < store.pending.len(),
        store.pending[k].eligible_at(now),
    ensures
        store.claimed_job(now) matches Some(job) && claim_order(job, store.pending[k]),
{
    lemma_first_index_exists(store.pending, eligible(now), k);
    let i = store.claim_index(now)->0;
    if i < k {
        assert(claim_order(store.pending[i], store.pending[k]));
    }
}

/// Where no pending job carries a scheduled time, a claim hands out the
/// first job of the pool whatever the time is.
pub proof fn lemma_unscheduled_claim_ignores_time(store: Store, now: i64)
    requires
        store.wf(),
        forall|k: int|
            0 <= k < store.pending.len() ==> (#[trigger] store.pending[k]).scheduled_at is None,
    ensures
        store.pending.len() == 0 ==> store.claimed_job(now) is None && store.after_claim(now)
            == store,
        store.pending.len() > 0 ==> store.claimed_job(now) == Some(store.pending[0].claimed())
            && store.after_claim(now).pending == store.pending.remove(0),
{
    if store.pending.len() > 0 {
        assert(eligible(now)(store.pending[0]));
        lemma_first_index_exists(store.pending, eligible(now), 0);
    } else {
        lemma_first_index_is_first(store.pending, eligible(now));
    }
}

/// Jobs that tie in priority and creation time are claimed in the order in
/// which they were enqueued: a new job enters the pool behind every job
/// that it ties with.
pub proof fn lemma_ties_keep_enqueue_order(store: Store, job: JobWrapper, k: int)
    requires
        store.wf(),
        0 <= k < store.pending.len(),
        store.pending[k].priority == job.priority,
        store.pending[k].created_at == job.created_at,
    ensures
        k < store.insert_position(job),
        store.inserted(job).pending[k] == store.pending[k],
{
    lemma_insert_position(store, job);
}

/// Every job that a drain hands out is an eligible job of the pool, marked
/// as claimed.
pub proof fn lemma_drained_from_pool(store: Store, now: i64, a: int) -> (k: int)
    requires
        0 <= a < store.drained(now).len(),
    ensures
        0 <= k < store.pending.len(),
        store.pending[k].eligible_at(now),
        store.drained(now)[a] == store.pending[k].claimed(),
    decreases store.pending.len(),
{
    lemma_first_index_is_first(store.pending, eligible(now));
    let i = store.claim_index(now)->0;
    if a == 0 {
        i
    } else {
        let rest = store.after_claim(now);
        let k = lemma_drained_from_pool(rest, now, a - 1);
        if k < i {
            k
        } else {
            k + 1
        }
    }
}

/// Jobs are claimed in claim order. Whatever jobs are enqueued, in whatever
/// order, draining the queue at one time hands them out by falling
/// priority, and within one priority by rising creation time.
pub proof fn lemma_dequeue_order(jobs: Seq<JobWrapper>, now: i64)
    requires
        forall|i: int| 0 <= i < jobs.len() ==> (#[trigger] jobs[i]).attempts < u32::MAX,
    ensures
        in_claim_order(Store::empty().inserted_all(jobs).drained(now)),
{
    lemma_inserted_all_wf(Store::empty(), jobs);
    lemma_drained_in_order(Store::empty().inserted_all(jobs), now);
}

/// Draining a well-formed store hands the jobs out in claim order.
pub proof fn lemma_drained_in_order(store: Store, now: i64)
    requires
        store.wf(),
    ensures
        in_claim_order(store.drained(now)),
    decreases store.pending.len(),
{
    lemma_after_claim_wf(store, now);
    if let Some(i) = store.claim_index(now) {
        let rest = store.after_claim(now);
        lemma_drained_in_order(rest, now);
        let out = store.drained(now);
        assert forall|a: int, b: int| 0 <= a < b < out.len() implies claim_order(
            #[trigger] out[a],
            #[trigger] out[b],
        ) by {
            if a == 0 {
                let k = lemma_drained_from_pool(rest, now, b - 1);
                let k0 = if k < i { k } else { k + 1 };
                assert(rest.pending[k] == store.pending[k0]);
                assert(out[b] == store.pending[k0].claimed());
                if k0 < i {
                    assert(!eligible(now)(store.pending[k0]));
                }
                assert(claim_order(store.pending[i], store.pending[k0]));
            } else {
                assert(out[a] == rest.drained(now)[a - 1]);
                assert(out[b] == rest.drained(now)[b - 1]);
            }
        }
    }
}

/// A claimed job has left the pool: where ids are distinct, no job that
/// stays behind, and so no job claimed later, carries the id of the job
/// that was handed out.
pub proof fn lemma_claimed_job_has_left(store: Store, now: i64, later: i64)
    requires
        distinct_ids(store.pending),
        store.claim_index(now) is Some,
    ensures
        distinct_ids(store.after_claim(now).pending),
        forall|k: int|
            0 <= k < store.after_claim(now).pending.len() ==> (
            #[trigger] store.after_claim(now).pending[k]).id@ != store.claimed_job(now)->0.id@,
        store.after_claim(now).claimed_job(later) matches Some(next) ==> next.id@
            != store.claimed_job(now)->0.id@,
{
    lemma_first_index_is_first(store.pending, eligible(now));
    let i = store.claim_index(now)->0;
    let rest = store.after_claim(now).pending;
    assert forall|k: int| 0 <= k < rest.len() implies (#[trigger] rest[k]).id@
        != store.pending[i].id@ by {
        let k0 = if k < i { k } else { k + 1 };
        assert(rest[k] == store.pending[k0]);
    }
    assert forall|a: int, b: int| 0 <= a < b < rest.len() implies (#[trigger] rest[a]).id@ != (
    #[trigger] rest[b]).id@ by {
        let a0 = if a < i { a } else { a + 1 };
        let b0 = if b < i { b } else { b + 1 };
        assert(rest[a] == store.pending[a0] && rest[b] == store.pending[b0]);
    }
    lemma_first_index_is_first(rest, eligible(later));
}

/// No job is claimed twice. Where the ids in the pool are distinct, the
/// jobs that a drain hands out carry distinct ids, there are no more of
/// them than the pool held, and where every job is eligible there are
/// exactly as many.
pub proof fn lemma_no_job_claimed_twice(store: Store, now: i64)
    requires
        distinct_ids(store.pending),
    ensures
        distinct_ids(store.drained(now)),
        store.drained(now).len() <= store.pending.len(),
        (forall|k: int| 0 <= k < store.pending.len() ==> (#[trigger] store.pending[k]).eligible_at(now))
            ==> store.drained(now).len() == store.pending.len(),
    decreases store.pending.len(),
{
    lemma_first_index_is_first(store.pending, eligible(now));
    if let Some(i) = store.claim_index(now) {
        let rest = store.after_claim(now);
        lemma_claimed_job_has_left(store, now, now);
        lemma_no_job_claimed_twice(rest, now);
        let out = store.drained(now);
        assert forall|a: int, b: int| 0 <= a < b < out.len() implies (#[trigger] out[a]).id@ != (
        #[trigger] out[b]).id@ by {
            if a == 0 {
                let k = lemma_drained_from_pool(rest, now, b - 1);
                assert(out[b] == rest.pending[k].claimed());
            } else {
                assert(out[a] == rest.drained(now)[a - 1]);
                assert(out[b] == rest.drained(now)[b - 1]);
            }
        }
        if forall|k: int| 0 <= k < store.pending.len() ==> (#[trigger] store.pending[k]).eligible_at(now) {
            assert forall|k: int| 0 <= k < rest.pending.len() implies (
            #[trigger] rest.pending[k]).eligible_at(now) by {
                let k0 = if k < i { k } else { k + 1 };
                assert(rest.pending[k] == store.pending[k0]);
            }
        }
    } else {
        if store.pending.len() > 0 && store.pending[0].eligible_at(now) {
            assert(eligible(now)(store.pending[0]));
        }
    }
}

/// How often a job that fails every run is claimed, counted from its
/// pending record until a failure is no longer answered with a retry. Each
/// round claims the job, reports the failure at `now` and, where the job is
/// retried, puts its retry record back into the pool.
pub open spec fn claims_when_always_failing(job: JobWrapper, error: String, now: i64) -> nat
    decreases job.max_retries - job.attempts,
{
    let run = job.claimed();
    if job.attempts < u32::MAX && disposition(run, RunOutcome::Failed(error), now)
        == Disposition::Retried {
        1 + claims_when_always_failing(
            retry_record(run, error, now).with_status(JobStatus::Pending),
            error,
            now,
        )
    } else {
        1
    }
}

/// The record with which a job that fails every run is finally given up.
pub open spec fn last_run_when_always_failing(job: JobWrapper, error: String, now: i64) -> JobWrapper
    decreases job.max_retries - job.attempts,
{
    let run = job.claimed();
    if job.attempts < u32::MAX && disposition(run, RunOutcome::Failed(error), now)
        == Disposition::Retried {
        last_run_when_always_failing(
            retry_record(run, error, now).with_status(JobStatus::Pending),
            error,
            now,
        )
    } else {
        run
    }
}

/// A job that fails every run is claimed once for each attempt that its
/// budget allows, and at least once; its last failure is answered by
/// dead-lettering it, with every claim counted in `attempts`.
///
/// With an attempt budget of zero that is one claim more than the budget.
pub proof fn lemma_always_failing_job_is_given_up(job: JobWrapper, error: String, now: i64)
    requires
        job.attempts <= job.max_retries,
        job.attempts < u32::MAX,
        job.cron_schedule is None,
    ensures
        claims_when_always_failing(job, error, now) == (if job.attempts < job.max_retries {
            job.max_retries - job.attempts
        } else {
            1
        }),
        job.attempts == 0 && job.max_retries == 0 ==> claims_when_always_failing(job, error, now)
            == job.max_retries + 1,
        disposition(
            last_run_when_always_failing(job, error, now),
            RunOutcome::Failed(error),
            now,
        ) == Disposition::DeadLettered,
        last_run_when_always_failing(job, error, now).attempts == job.attempts
            + claims_when_always_failing(job, error, now),
    decreases job.max_retries - job.attempts,
{
    let run = job.claimed();
    if disposition(run, RunOutcome::Failed(error), now) == Disposition::Retried {
        lemma_always_failing_job_is_given_up(
            retry_record(run, error, now).with_status(JobStatus::Pending),
            error,
            now,
        );
    }
}

/// A dead-lettered job is out of reach of every claim: dead-lettering
/// leaves the pool as it was, and no record in the dead-letter store is
/// eligible at any time.
pub proof fn lemma_dead_letter_is_final(store: Store, job: JobWrapper, now: i64)
    requires
        store.wf(),
    ensures
        store.buried(job).pending == store.pending,
        store.buried(job).claimed_job(now) == store.claimed_job(now),
        forall|i: int|
            0 <= i < store.buried(job).dead_letter.len() ==> !(
            #[trigger] store.buried(job).dead_letter[i]).eligible_at(now),
{
    lemma_buried_wf(store, job);
}

/// A replay restores a dead-lettered job: its record enters the pool
/// pending, with no attempts counted and no failure recorded, and otherwise
/// as it was. Unless a scheduled time still lies ahead it is eligible at
/// once, so the next claim hands out a job.
pub proof fn lemma_replayed_job_is_eligible(store: Store, id: Seq<char>, now: i64)
    requires
        store.wf(),
        store.dead_index(id) is Some,
    ensures
        ({
            let dead = store.dead_letter[store.dead_index(id)->0];
            let replayed = store.replayed(id);
            let at = Store {
                dead_letter: store.dead_letter.remove(store.dead_index(id)->0),
                ..store
            }.insert_position(dead.revived());
            &&& dead.id@ == id
            &&& 0 <= at < replayed.pending.len()
            &&& replayed.pending[at] == dead.revived()
            &&& dead.revived().attempts == 0
            &&& dead.revived().error is None
            &&& dead.revived().status == JobStatus::Pending
            &&& (dead.scheduled_at matches Some(due) ==> due <= now) ==> replayed.claimed_job(now)
                is Some
        }),
{
    lemma_first_index_is_first(store.dead_letter, has_id(id));
    let i = store.dead_index(id)->0;
    let dead = store.dead_letter[i];
    let taken = Store { dead_letter: store.dead_letter.remove(i), ..store };
    lemma_insert_position_bounds(taken, dead.revived());
    let at = taken.insert_position(dead.revived());
    let replayed = store.replayed(id);
    assert(replayed.pending[at] == dead.revived());
    if dead.scheduled_at matches Some(due) ==> due <= now {
        assert(eligible(now)(replayed.pending[at]));
        lemma_first_index_exists(replayed.pending, eligible(now), at);
    }
}

/// A recurring job whose expression has no next occurrence is inert once it
/// was rescheduled: it carries no scheduled time, and no claim takes it at
/// any time.
pub proof fn lemma_job_without_next_run_is_inert(job: JobWrapper, now: i64, at: i64)
    requires
        job.cron_schedule is Some,
        job.rescheduled(now).scheduled_at is None,
    ensures
        !job.rescheduled(now).eligible_at(at),
        recurrence(job, now) == Disposition::Inert,
{
}

/// A recurring job that was rescheduled at `now` waits for its next
/// occurrence: that time lies after `now`, and the job is not eligible
/// before it and eligible from then on.
pub proof fn lemma_rescheduled_job_waits(job: JobWrapper, now: i64, at: i64)
    requires
        job.cron_schedule is Some,
        job.rescheduled(now).scheduled_at is Some,
    ensures
        job.rescheduled(now).scheduled_at->0 > now,
        job.rescheduled(now).eligible_at(at) <==> at >= job.rescheduled(now).scheduled_at->0,
        !job.rescheduled(now).eligible_at(now),
{
}

/// The backoff starts at the base delay and doubles with every attempt.
pub proof fn lemma_backoff_doubles(attempts: u32)
    ensures
        backoff_secs(0) == BACKOFF_BASE_SECS,
        backoff_secs(attempts) == BACKOFF_BASE_SECS * pow2(attempts as nat),
        attempts < u32::MAX ==> backoff_secs((attempts + 1) as u32) == 2 * backoff_secs(attempts),
{
    vstd::arithmetic::power2::lemma2_to64();
    if attempts < u32::MAX {
        lemma_pow2_unfold((attempts + 1) as nat);
        assert(60 * (2 * pow2(attempts as nat)) == 2 * (60 * pow2(attempts as nat)));
    }
}

/// At every time that the clock can read, the delay after up to 57
/// attempts leads to a time that can be represented: a job delayed by its
/// backoff is scheduled for exactly the time read plus the base delay
/// doubled once per attempt, and nothing else about it changes.
pub proof fn lemma_backoff_fits_the_clock(job: JobWrapper, now: i64)
    requires
        is_clock_reading(now),
        job.attempts <= 57,
    ensures
        retry_representable(job, now),
        now + backoff_secs(job.attempts) <= i64::MAX,
        job.delayed(backoff_secs(job.attempts) as u64, now) == (JobWrapper {
            scheduled_at: Some((now + BACKOFF_BASE_SECS * pow2(job.attempts as nat)) as i64),
            ..job
        }),
        job.delayed_where_possible(backoff_secs(job.attempts) as u64, now) == job.delayed(
            backoff_secs(job.attempts) as u64,
            now,
        ),
{
    vstd::arithmetic::power2::lemma2_to64();
    vstd::arithmetic::power2::lemma2_to64_rest();
    if job.attempts < 57 {
        vstd::arithmetic::power2::lemma_pow2_strictly_increases(job.attempts as nat, 57);
    }
}

/// A retried job becomes due exactly one backoff after the failure was
/// reported: it is not eligible before that time and eligible from then on.
pub proof fn lemma_retry_waits_for_backoff(job: JobWrapper, error: String, now: i64, at: i64)
    requires
        retry_representable(job, now),
    ensures
        retry_record(job, error, now).scheduled_at == Some(
            (now + BACKOFF_BASE_SECS * pow2(job.attempts as nat)) as i64,
        ),
        retry_record(job, error, now).with_status(JobStatus::Pending).eligible_at(at) <==> at
            >= now + BACKOFF_BASE_SECS * pow2(job.attempts as nat),
{
}

/// One operation on a queue, as producers, workers and operators perform
/// them.
pub enum Step {
    /// A producer enqueues a job.
    Enqueue(JobWrapper),
    /// A worker asks for a job at the given time.
    Claim(i64),
    /// A worker reports the run of a claimed job and disposes of the job.
    Settle(JobWrapper, RunOutcome, i64),
    /// An operator replays the dead-lettered job with the given id.
    Replay(Seq<char>),
}

/// A queue together with the number of jobs that workers have claimed and
/// not yet reported, and the number of dead-lettered jobs that were
/// replayed.
pub struct System {
    pub queue: QueueState,
    pub in_flight: nat,
    pub replayed: nat,
}

impl System {
    /// A new queue with no job in any worker's hands.
    pub open spec fn initial() -> System {
        System { queue: QueueState::empty(), in_flight: 0, replayed: 0 }
    }

    /// Whether the step may be taken: only a job that a worker holds can be
    /// reported.
    pub open spec fn admits(self, step: Step) -> bool {
        step is Settle ==> self.in_flight > 0
    }

    /// The system after one step.
    pub open spec fn after(self, step: Step) -> System {
        match step {
            Step::Enqueue(job) => System { queue: self.queue.enqueued(job), ..self },
            Step::Claim(now) => System {
                queue: self.queue.dequeued(now),
                in_flight: if self.queue.store.claim_index(now) is Some {
                    self.in_flight + 1
                } else {
                    self.in_flight
                },
                ..self
            },
            Step::Settle(job, outcome, now) => System {
                queue: self.queue.settled(job, outcome, now),
                in_flight: (self.in_flight - 1) as nat,
                ..self
            },
            Step::Replay(id) => System {
                queue: self.queue.replayed(id),
                replayed: if self.queue.store.dead_index(id) is Some {
                    self.replayed + 1
                } else {
                    self.replayed
                },
                ..self
            },
        }
    }

    /// The system after a history of steps.
    pub open spec fn after_all(self, steps: Seq<Step>) -> System
        decreases steps.len(),
    {
        if steps.len() == 0 {
            self
        } else {
            self.after_all(steps.drop_last()).after(steps.last())
        }
    }

    /// Whether every step of a history may be taken when its turn comes.
    pub open spec fn admits_all(self, steps: Seq<Step>) -> bool
        decreases steps.len(),
    {
        steps.len() > 0 ==> {
            &&& self.admits_all(steps.drop_last())
            &&& self.after_all(steps.drop_last()).admits(steps.last())
        }
    }

    /// The number of records that the queue or a worker holds: pending,
    /// running or dead-lettered.
    pub open spec fn held(self) -> nat {
        self.queue.store.pending.len() + self.in_flight + self.queue.store.dead_letter.len()
    }
}

/// No step of the history hands a job back for a retry.
pub open spec fn no_retries(steps: Seq<Step>) -> bool {
    forall|i: int|
        0 <= i < steps.len() ==> (#[trigger] steps[i] matches Step::Settle(job, outcome, now)
            ==> disposition(job, outcome, now) != Disposition::Retried)
}

/// No step of the history replays a dead-lettered job.
pub open spec fn no_replays(steps: Seq<Step>) -> bool {
    forall|i: int| 0 <= i < steps.len() ==> !(#[trigger] steps[i] is Replay)
}

/// What the counters count: every job that entered the pool, by an
/// enqueue, a retry or a replay, is still there, is in a worker's hands, or
/// was reported as processed or failed.
pub open spec fn counters_add_up(system: System, steps: nat) -> bool {
    let stats = system.queue.stats;
    &&& stats.total_processed + stats.total_failed + system.in_flight
        + system.queue.store.pending.len() == stats.total_enqueued + stats.total_retried
        + system.replayed
    &&& stats.total_enqueued <= steps
    &&& stats.total_processed <= steps
    &&& stats.total_failed <= steps
    &&& stats.total_retried <= steps
    &&& stats.pending_count <= steps
    &&& stats.running_count <= steps
    &&& stats.dead_letter_count <= steps
}

/// What the gauges show after a history without retries and replays: the
/// number of jobs in each state.
pub open spec fn gauges_match(system: System) -> bool {
    let stats = system.queue.stats;
    &&& stats.pending_count == system.queue.store.pending.len()
    &&& stats.running_count == system.in_flight
    &&& stats.dead_letter_count == system.queue.store.dead_letter.len()
}

proof fn lemma_step_keeps_count(system: System, step: Step, steps: nat)
    requires
        counters_add_up(system, steps),
        system.admits(step),
        steps < u64::MAX,
    ensures
        counters_add_up(system.after(step), steps + 1),
        !(step is Replay) ==> system.after(step).replayed == system.replayed,
        gauges_match(system) && !(step is Replay) && !(step matches Step::Settle(
            job,
            outcome,
            now,
        ) && disposition(job, outcome, now) == Disposition::Retried) ==> gauges_match(
            system.after(step),
        ),
{
    let store = system.queue.store;
    match step {
        Step::Enqueue(job) => {
            lemma_insert_position_bounds(store, job);
        },
        Step::Claim(now) => {
            lemma_first_index_is_first(store.pending, eligible(now));
        },
        Step::Settle(job, outcome, now) => {
            let record = match outcome {
                RunOutcome::Succeeded => job,
                RunOutcome::Failed(error) => job.failed_with(error),
            };
            lemma_insert_position_bounds(store, record.rescheduled(now));
            if outcome is Failed {
                lemma_insert_position_bounds(store, retry_record(job, outcome->Failed_0, now));
            }
        },
        Step::Replay(id) => {
            lemma_first_index_is_first(store.dead_letter, has_id(id));
            if let Some(i) = store.dead_index(id) {
                let taken = Store { dead_letter: store.dead_letter.remove(i), ..store };
                lemma_insert_position_bounds(taken, store.dead_letter[i].revived());
            }
        },
    }
}

/// The statistics reflect the queue at every point between operations.
///
/// After any history in which workers report only jobs they hold, the runs
/// reported as processed or failed, the jobs in workers' hands and the
/// pending jobs are together as many as the jobs enqueued, retried and
/// replayed. So the runs reported are no more than the jobs enqueued or
/// retried as long as every replayed job is still pending or in a worker's
/// hands, and always where nothing was replayed. Where moreover no job is
/// retried, the three gauges show the number of pending, running and
/// dead-lettered jobs, so their sum is the number of records still held.
pub proof fn lemma_stats_reflect_history(steps: Seq<Step>)
    requires
        System::initial().admits_all(steps),
        steps.len() < u64::MAX,
    ensures
        ({
            let end = System::initial().after_all(steps);
            let stats = end.queue.stats;
            &&& counters_add_up(end, steps.len())
            &&& stats.total_processed + stats.total_failed + end.in_flight
                + end.queue.store.pending.len() == stats.total_enqueued + stats.total_retried
                + end.replayed
            &&& end.replayed <= end.in_flight + end.queue.store.pending.len()
                ==> stats.total_processed + stats.total_failed <= stats.total_enqueued
                + stats.total_retried
            &&& no_replays(steps) ==> end.replayed == 0 && stats.total_processed
                + stats.total_failed <= stats.total_enqueued + stats.total_retried
            &&& no_retries(steps) && no_replays(steps) ==> gauges_match(end)
                && stats.pending_count + stats.running_count + stats.dead_letter_count
                == end.held()
        }),
    decreases steps.len(),
{
    if steps.len() > 0 {
        let earlier = steps.drop_last();
        lemma_stats_reflect_history(earlier);
        let before = System::initial().after_all(earlier);
        assert(steps.last() == steps[steps.len() - 1]);
        lemma_step_keeps_count(before, steps.last(), earlier.len());
        if no_replays(steps) {
            assert forall|i: int| 0 <= i < earlier.len() implies !(
            #[trigger] earlier[i] is Replay) by {
                assert(earlier[i] == steps[i]);
            }
        }
        if no_retries(steps) {
            assert forall|i: int| 0 <= i < earlier.len() implies (
            #[trigger] earlier[i] matches Step::Settle(job, outcome, now) ==> disposition(
                job,
                outcome,
                now,
            ) != Disposition::Retried) by {
                assert(earlier[i] == steps[i]);
            }
        }
    }
}

/// The jobs that the producers of a history enqueue, in order.
pub open spec fn enqueued_along(steps: Seq<Step>) -> Seq<JobWrapper>
    decreases steps.len(),
{
    if steps.len() == 0 {
        Seq::empty()
    } else {
        match steps.last() {
            Step::Enqueue(job) => enqueued_along(steps.drop_last()).push(job),
            _ => enqueued_along(steps.drop_last()),
        }
    }
}

/// The jobs that the workers of a history are handed, in order.
pub open spec fn claimed_along(steps: Seq<Step>) -> Seq<JobWrapper>
    decreases steps.len(),
{
    if steps.len() == 0 {
        Seq::empty()
    } else {
        let before = System::initial().after_all(steps.drop_last()).queue.store;
        match steps.last() {
            Step::Claim(now) => match before.claimed_job(now) {
                Some(job) => claimed_along(steps.drop_last()).push(job),
                None => claimed_along(steps.drop_last()),
            },
            _ => claimed_along(steps.drop_last()),
        }
    }
}

/// Every step of the history enqueues a job or asks for one.
pub open spec fn enqueues_and_claims(steps: Seq<Step>) -> bool {
    forall|i: int| 0 <= i < steps.len() ==> #[trigger] steps[i] is Enqueue || steps[i] is Claim
}

/// The id of the job at position `k` of `jobs` is the id of one of the
/// jobs in `among`.
pub open spec fn id_occurs(jobs: Seq<JobWrapper>, k: int, among: Seq<JobWrapper>) -> bool {
    exists|e: int| 0 <= e < among.len() && (#[trigger] among[e]).id@ == jobs[k].id@
}

/// What holds of the pool and of the jobs handed out so far, taken
/// together: their ids are distinct, each is the id of an enqueued job, and
/// there are as many of them as jobs were enqueued.
spec fn accounted(pool: Seq<JobWrapper>, out: Seq<JobWrapper>, enqueued: Seq<JobWrapper>) -> bool {
    &&& distinct_ids(pool + out)
    &&& forall|k: int| 0 <= k < (pool + out).len() ==> #[trigger] id_occurs(pool + out, k, enqueued)
    &&& pool.len() + out.len() == enqueued.len()
}

proof fn lemma_enqueue_keeps_account(
    store: Store,
    out: Seq<JobWrapper>,
    enqueued: Seq<JobWrapper>,
    job: JobWrapper,
)
    requires
        accounted(store.pending, out, enqueued),
        distinct_ids(enqueued.push(job)),
    ensures
        accounted(store.inserted(job).pending, out, enqueued.push(job)),
{
    lemma_insert_position_bounds(store, job);
    let p = store.insert_position(job);
    let before = store.pending + out;
    let after = store.inserted(job).pending + out;
    let all = enqueued.push(job);
    // where an entry of `after` stood in `before`; the new entry stands at `p`
    let origin = |a: int| if a < p { a } else { a - 1 };
    assert forall|a: int| 0 <= a < after.len() && a != p implies (#[trigger] after[a]).id@
        == before[origin(a)].id@ by {}
    assert(after[p].id@ == job.id@);
    assert(all[enqueued.len() as int] == job);
    assert forall|k: int| 0 <= k < before.len() implies (#[trigger] before[k]).id@ != job.id@ by {
        assert(id_occurs(before, k, enqueued));
        let e = choose|e: int| 0 <= e < enqueued.len() && (#[trigger] enqueued[e]).id@ == before[k].id@;
        assert(all[e] == enqueued[e]);
    }
    assert forall|a: int, b: int| 0 <= a < b < after.len() implies (#[trigger] after[a]).id@ != (
    #[trigger] after[b]).id@ by {
        if a != p && b != p {
            assert(after[a].id@ == before[origin(a)].id@);
            assert(after[b].id@ == before[origin(b)].id@);
        } else if a == p {
            assert(after[b].id@ == before[origin(b)].id@);
        } else {
            assert(after[a].id@ == before[origin(a)].id@);
        }
    }
    assert forall|k: int| 0 <= k < after.len() implies #[trigger] id_occurs(after, k, all) by {
        if k == p {
            assert(all[enqueued.len() as int].id@ == after[k].id@);
        } else {
            assert(after[k].id@ == before[origin(k)].id@);
            assert(id_occurs(before, origin(k), enqueued));
            let e = choose|e: int|
                0 <= e < enqueued.len() && (#[trigger] enqueued[e]).id@ == before[origin(k)].id@;
            assert(all[e] == enqueued[e]);
        }
    }
}

proof fn lemma_claim_keeps_account(
    store: Store,
    out: Seq<JobWrapper>,
    enqueued: Seq<JobWrapper>,
    now: i64,
)
    requires
        accounted(store.pending, out, enqueued),
        store.claim_index(now) is Some,
    ensures
        accounted(store.after_claim(now).pending, out.push(store.claimed_job(now)->0), enqueued),
{
    lemma_first_index_is_first(store.pending, eligible(now));
    let i = store.claim_index(now)->0;
    let n = store.pending.len() as int;
    let before = store.pending + out;
    let after = store.after_claim(now).pending + out.push(store.claimed_job(now)->0);
    // where an entry of `after` stood in `before`
    let origin = |a: int|
        if a < i {
            a
        } else if a < after.len() - 1 {
            a + 1
        } else {
            i
        };
    assert forall|a: int| 0 <= a < after.len() implies (#[trigger] after[a]).id@ == before[origin(
        a,
    )].id@ && 0 <= origin(a) < before.len() by {}
    assert forall|a: int, b: int| 0 <= a < b < after.len() implies (#[trigger] after[a]).id@ != (
    #[trigger] after[b]).id@ by {
        assert(after[a].id@ == before[origin(a)].id@);
        assert(after[b].id@ == before[origin(b)].id@);
        assert(origin(a) != origin(b));
        if origin(a) < origin(b) {
            assert(before[origin(a)].id@ != before[origin(b)].id@);
        } else {
            assert(before[origin(b)].id@ != before[origin(a)].id@);
        }
    }
    assert forall|k: int| 0 <= k < after.len() implies #[trigger] id_occurs(after, k, enqueued) by {
        assert(after[k].id@ == before[origin(k)].id@);
        assert(id_occurs(before, origin(k), enqueued));
    }
}

/// No job is handed out twice, however the claims of the workers and the
/// calls of the producers interleave.
///
/// Along any history of enqueues and claims in which the producers give
/// every job an id of its own, the jobs handed to workers carry distinct
/// ids, every one of them was enqueued, and the jobs handed out and the jobs
/// still pending are together as many as were enqueued.
pub proof fn lemma_claims_never_repeat(steps: Seq<Step>)
    requires
        enqueues_and_claims(steps),
        distinct_ids(enqueued_along(steps)),
    ensures
        distinct_ids(claimed_along(steps)),
        forall|k: int|
            0 <= k < claimed_along(steps).len() ==> #[trigger] id_occurs(
                claimed_along(steps),
                k,
                enqueued_along(steps),
            ),
        claimed_along(steps).len() + System::initial().after_all(steps).queue.store.pending.len()
            == enqueued_along(steps).len(),
{
    lemma_history_is_accounted(steps);
    let pool = System::initial().after_all(steps).queue.store.pending;
    let out = claimed_along(steps);
    let all = pool + out;
    assert forall|a: int, b: int| 0 <= a < b < out.len() implies (#[trigger] out[a]).id@ != (
    #[trigger] out[b]).id@ by {
        assert(all[pool.len() + a] == out[a] && all[pool.len() + b] == out[b]);
    }
    assert forall|k: int| 0 <= k < out.len() implies #[trigger] id_occurs(
        out,
        k,
        enqueued_along(steps),
    ) by {
        assert(all[pool.len() + k] == out[k]);
        assert(id_occurs(all, pool.len() + k, enqueued_along(steps)));
    }
}

proof fn lemma_history_is_accounted(steps: Seq<Step>)
    requires
        enqueues_and_claims(steps),
        distinct_ids(enqueued_along(steps)),
    ensures
        accounted(
            System::initial().after_all(steps).queue.store.pending,
            claimed_along(steps),
            enqueued_along(steps),
        ),
    decreases steps.len(),
{
    if steps.len() == 0 {
        assert(Seq::<JobWrapper>::empty() + Seq::<JobWrapper>::empty() =~= Seq::<JobWrapper>::empty());
    } else {
        let earlier = steps.drop_last();
        assert forall|i: int| 0 <= i < earlier.len() implies #[trigger] earlier[i] is Enqueue
            || earlier[i] is Claim by {
            assert(earlier[i] == steps[i]);
        }
        assert(steps.last() == steps[steps.len() - 1]);
        let so_far = enqueued_along(earlier);
        assert(distinct_ids(so_far)) by {
            if steps.last() is Enqueue {
                let all = enqueued_along(steps);
                assert forall|a: int, b: int| 0 <= a < b < so_far.len() implies (
                #[trigger] so_far[a]).id@ != (#[trigger] so_far[b]).id@ by {
                    assert(all[a] == so_far[a] && all[b] == so_far[b]);
                }
            }
        }
        lemma_history_is_accounted(earlier);
        let before = System::initial().after_all(earlier).queue.store;
        match steps.last() {
            Step::Enqueue(job) => {
                lemma_enqueue_keeps_account(before, claimed_along(earlier), so_far, job);
            },
            Step::Claim(now) => {
                if before.claim_index(now) is Some {
                    lemma_claim_keeps_account(before, claimed_along(earlier), so_far, now);
                }
            },
            _ => {},
        }
    }
}

} // verus!

//! The decisions of a worker: what to do next, and what becomes of a job
//! once its run has ended. The loop that runs the jobs lives with the
//! caller; it performs the action it is given and reports back.

use crate::error::QueueError;
use crate::job::{
    backoff_secs, backoff_seconds, lemma_backoff_bounds, JobStatus, JobWrapper,
    BACKOFF_MAX_ATTEMPTS,
};
use crate::queue::{dequeue_outcome, Queue, QueueBackend, QueueState};
use vstd::prelude::*;

verus! {

/// How the run of a job ended.
#[derive(Debug)]
pub enum RunOutcome {
    /// The job's logic returned normally.
    Succeeded,
    /// The job's logic failed, with this message.
    Failed(String),
}

/// What became of a job after its run was reported.
#[derive(Debug, Clone, Copy, PartialEq, Eq, Structural)]
pub enum Disposition {
    /// The job is done and has left the queue.
    Completed,
    /// A recurring job is back in the pool, due at its next occurrence.
    Rescheduled,
    /// A recurring job has no next occurrence and has left the queue.
    Inert,
    /// The job is back in the pool, due once its backoff has passed.
    Retried,
    /// The job has used up its attempts and was dead-lettered.
    DeadLettered,
}

/// What a worker does next.
#[derive(Debug)]
pub enum WorkerAction {
    /// Run this job, then report how it ended.
    Run(JobWrapper),
    /// Nothing is eligible: wait a while, then ask again.
    Wait,
    /// A stop was requested: leave the loop.
    Stop,
}

/// The time at which a retry of `job` becomes due when the failure was
/// reported at `now`.
pub open spec fn retry_due(job: JobWrapper, now: i64) -> int {
    now + backoff_secs(job.attempts)
}

/// Whether the retry time of `job` can be represented.
pub open spec fn retry_representable(job: JobWrapper, now: i64) -> bool {
    job.attempts <= BACKOFF_MAX_ATTEMPTS && retry_due(job, now) <= i64::MAX
}

/// Whether the retry time of `job` can be represented when a failure is
/// reported at `now`.
pub fn retry_fits(job: &JobWrapper, now: i64) -> (fits: bool)
    ensures
        fits == retry_representable(*job, now),
{
    if job.attempts > BACKOFF_MAX_ATTEMPTS {
        return false;
    }
    proof {
        lemma_backoff_bounds(job.attempts);
    }
    now.checked_add_unsigned(backoff_seconds(job.attempts)).is_some()
}

/// The record of a job as it is retried after a failure reported at `now`.
pub open spec fn retry_record(job: JobWrapper, error: String, now: i64) -> JobWrapper {
    JobWrapper {
        status: JobStatus::Retrying,
        error: Some(error),
        scheduled_at: Some(retry_due(job, now) as i64),
        ..job
    }
}

/// What becomes of a recurring job after a run that ended at `now`.
pub open spec fn recurrence(job: JobWrapper, now: i64) -> Disposition {
    if job.rescheduled(now).scheduled_at is Some {
        Disposition::Rescheduled
    } else {
        Disposition::Inert
    }
}

/// What becomes of a claimed job whose run ended as `outcome` at `now`.
///
/// A job that succeeded is done, unless it recurs. A job that failed is
/// retried while it has attempts left; after that a recurring job waits for
/// its next occurrence and any other job is dead-lettered.
pub open spec fn disposition(job: JobWrapper, outcome: RunOutcome, now: i64) -> Disposition {
    match outcome {
        RunOutcome::Succeeded => if job.cron_schedule is Some {
            recurrence(job, now)
        } else {
            Disposition::Completed
        },
        RunOutcome::Failed(error) => if job.attempts < job.max_retries {
            Disposition::Retried
        } else if job.cron_schedule is Some {
            recurrence(job.failed_with(error), now)
        } else {
            Disposition::DeadLettered
        },
    }
}

impl QueueState {
    /// The state after the run of the claimed job with the given id was
    /// reported.
    pub open spec fn reported(self, id: Seq<char>, outcome: RunOutcome) -> QueueState {
        match outcome {
            RunOutcome::Succeeded => self.completed(),
            RunOutcome::Failed(reason) => self.failed(id, reason@),
        }
    }

    /// The state after the run of `job` ended as `outcome` at `now` and the
    /// job was disposed of.
    pub open spec fn settled(self, job: JobWrapper, outcome: RunOutcome, now: i64) -> QueueState {
        let record = match outcome {
            RunOutcome::Succeeded => job,
            RunOutcome::Failed(error) => job.failed_with(error),
        };
        match disposition(job, outcome, now) {
            Disposition::Completed => self.reported(job.id@, outcome),
            Disposition::Inert => self.reported(job.id@, outcome),
            Disposition::Rescheduled => self.reported(job.id@, outcome).enqueued(record.rescheduled(now)),
            Disposition::Retried => self.reported(job.id@, outcome).retried(
                retry_record(job, outcome->Failed_0, now),
            ),
            Disposition::DeadLettered => self.reported(job.id@, outcome).dead_lettered(record),
        }
    }
}

/// Decides what a worker does next, at time `now`. A requested stop is
/// honoured before anything is claimed, so a job that was handed out is
/// always run and reported.
pub fn next_action<B: QueueBackend>(queue: &mut Queue<B>, stop_requested: bool, now: i64) -> (action:
    Result<WorkerAction, QueueError>)
    requires
        old(queue).wf(),
        old(queue)@.stats.running_count < u64::MAX,
    ensures
        final(queue).wf(),
        final(queue).infallible() == old(queue).infallible(),
        old(queue).infallible() ==> action is Ok,
        stop_requested ==> {
            &&& action matches Ok(WorkerAction::Stop)
            &&& final(queue)@ == old(queue)@
        },
        !stop_requested ==> match action {
            Ok(WorkerAction::Run(job)) => dequeue_outcome(
                old(queue)@,
                now,
                Ok(Some(job)),
                final(queue)@,
            ),
            Ok(WorkerAction::Wait) => dequeue_outcome(old(queue)@, now, Ok(None), final(queue)@),
            Ok(WorkerAction::Stop) => false,
            Err(error) => error is BackendUnavailable && final(queue)@ == old(queue)@,
        },
{
    if stop_requested {
        return Ok(WorkerAction::Stop);
    }
    match queue.dequeue_at(now) {
        Ok(Some(job)) => Ok(WorkerAction::Run(job)),
        Ok(None) => Ok(WorkerAction::Wait),
        Err(error) => Err(error),
    }
}

/// Puts a recurring job back for its next occurrence after `now`, or lets
/// it go where there is none.
fn recur<B: QueueBackend>(queue: &mut Queue<B>, job: JobWrapper, now: i64) -> (done: Result<
    Disposition,
    QueueError,
>)
    requires
        old(queue).wf(),
        job.cron_schedule is Some,
        old(queue)@.stats.total_enqueued < u64::MAX,
        old(queue)@.stats.pending_count < u64::MAX,
    ensures
        final(queue).wf(),
        final(queue).infallible() == old(queue).infallible(),
        old(queue).infallible() ==> done is Ok,
        match done {
            Ok(what) => what == recurrence(job, now) && final(queue)@ == (if what
                == Disposition::Rescheduled {
                old(queue)@.enqueued(job.rescheduled(now))
            } else {
                old(queue)@
            }),
            Err(error) => error is BackendUnavailable && final(queue)@ == old(queue)@,
        },
{
    let mut job = job;
    job.reschedule_at(now);
    if job.scheduled_at.is_some() {
        match queue.enqueue(job) {
            Ok(_) => Ok(Disposition::Rescheduled),
            Err(error) => Err(error),
        }
    } else {
        Ok(Disposition::Inert)
    }
}

/// Reports how the run of a claimed job ended at `now` and disposes of the
/// job: a successful job is completed, a failed one is retried after its
/// backoff while it has attempts left and dead-lettered after that, and a
/// recurring job that would otherwise leave the queue is put back for its
/// next occurrence.
///
/// Where the backend becomes unavailable, the error is handed on; the
/// report itself may or may not have been recorded by then, and the job has
/// not re-entered the queue.
pub fn settle<B: QueueBackend>(
    queue: &mut Queue<B>,
    job: JobWrapper,
    outcome: RunOutcome,
    now: i64,
) -> (done: Result<Disposition, QueueError>)
    requires
        old(queue).wf(),
        old(queue)@.stats.total_enqueued < u64::MAX,
        old(queue)@.stats.pending_count < u64::MAX,
        old(queue)@.stats.total_processed < u64::MAX,
        old(queue)@.stats.total_failed < u64::MAX,
        old(queue)@.stats.total_retried < u64::MAX,
        old(queue)@.stats.dead_letter_count < u64::MAX,
        disposition(job, outcome, now) == Disposition::Retried ==> retry_representable(job, now),
    ensures
        final(queue).wf(),
        final(queue).infallible() == old(queue).infallible(),
        old(queue).infallible() ==> done is Ok,
        match done {
            Ok(what) => {
                &&& what == disposition(job, outcome, now)
                &&& final(queue)@ == old(queue)@.settled(job, outcome, now)
            },
            Err(error) => {
                &&& error is BackendUnavailable
                &&& final(queue)@ == old(queue)@ || final(queue)@ == old(queue)@.reported(
                    job.id@,
                    outcome,
                )
            },
        },
{
    let mut job = job;
    match outcome {
        RunOutcome::Succeeded => {
            match queue.complete(job.id.as_str()) {
                Ok(_) => {},
                Err(error) => {
                    return Err(error);
                },
            }
            if job.cron_schedule.is_some() {
                recur(queue, job, now)
            } else {
                Ok(Disposition::Completed)
            }
        },
        RunOutcome::Failed(error) => {
            job.status = JobStatus::Failed;
            job.error = Some(error.clone());
            match queue.fail(job.id.as_str(), error) {
                Ok(_) => {},
                Err(error) => {
                    return Err(error);
                },
            }
            if job.should_retry() {
                let delay: u64 = backoff_seconds(job.attempts);
                job.status = JobStatus::Retrying;
                job.scheduled_at = now.checked_add_unsigned(delay);
                match queue.retry(job) {
                    Ok(_) => Ok(Disposition::Retried),
                    Err(error) => Err(error),
                }
            } else if job.cron_schedule.is_some() {
                recur(queue, job, now)
            } else {
                match queue.move_to_dead_letter(job) {
                    Ok(_) => Ok(Disposition::DeadLettered),
                    Err(error) => Err(error),
                }
            }
        },
    }
}

} // verus!

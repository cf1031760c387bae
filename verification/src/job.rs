//! Job records and the policy attached to them.

use crate::error::{JobResult, QueueError};
use crate::external::{
    clone_payload, cron_next_after, cron_parse, current_timestamp, duration_as_secs,
    duration_from_secs, encode_payload, fresh_id, is_clock_reading,
    json_error_text, parse_schedule, schedule_next_after, CALENDAR_MIN, CLOCK_MAX,
};
use std::time::Duration;
use vstd::arithmetic::power2::{lemma_pow2_strictly_increases, lemma_pow2_unfold, pow2};
use vstd::prelude::*;

verus! {

/// The delay before the first retry, in seconds.
pub const BACKOFF_BASE_SECS: u64 = 60;

/// The largest attempt count whose backoff still fits in 64 bits of seconds.
pub const BACKOFF_MAX_ATTEMPTS: u32 = 58;

/// The retry delay after `attempts` attempts, in seconds: the base delay
/// doubled once per attempt.
pub open spec fn backoff_secs(attempts: u32) -> nat {
    BACKOFF_BASE_SECS as nat * pow2(attempts as nat)
}

/// Backoff delays grow with the attempt count, and up to
/// [`BACKOFF_MAX_ATTEMPTS`] they fit in a `u64`.
pub proof fn lemma_backoff_bounds(attempts: u32)
    ensures
        backoff_secs(attempts) >= BACKOFF_BASE_SECS,
        attempts <= BACKOFF_MAX_ATTEMPTS ==> backoff_secs(attempts) <= u64::MAX,
{
    vstd::arithmetic::power2::lemma2_to64();
    vstd::arithmetic::power2::lemma2_to64_rest();
    if attempts > 0 {
        lemma_pow2_strictly_increases(0, attempts as nat);
    }
    if attempts < 58 {
        lemma_pow2_strictly_increases(attempts as nat, 58);
    }
}

/// Computes the retry delay after `attempts` attempts, in seconds.
pub fn backoff_seconds(attempts: u32) -> (secs: u64)
    requires
        attempts <= BACKOFF_MAX_ATTEMPTS,
    ensures
        secs == backoff_secs(attempts),
{
    let mut secs: u64 = BACKOFF_BASE_SECS;
    let mut doubled: u32 = 0;
    proof {
        vstd::arithmetic::power2::lemma2_to64();
    }
    while doubled < attempts
        invariant
            doubled <= attempts <= BACKOFF_MAX_ATTEMPTS,
            secs == backoff_secs(doubled),
        decreases attempts - doubled,
    {
        proof {
            lemma_pow2_unfold((doubled + 1) as nat);
            lemma_backoff_bounds((doubled + 1) as u32);
            assert(backoff_secs((doubled + 1) as u32) == 2 * backoff_secs(doubled)) by (nonlinear_arith)
                requires
                    pow2((doubled + 1) as nat) == 2 * pow2(doubled as nat),
                    backoff_secs((doubled + 1) as u32) == 60 * pow2((doubled + 1) as nat),
                    backoff_secs(doubled) == 60 * pow2(doubled as nat),
            ;
        }
        secs = secs * 2;
        doubled = doubled + 1;
    }
    secs
}

/// Where a job stands in its lifecycle.
#[derive(Debug, Clone, Copy, PartialEq, Eq, Structural)]
pub enum JobStatus {
    Pending,
    Running,
    Completed,
    Failed,
    Retrying,
    /// Permanently failed after the retry budget was used up.
    DeadLetter,
}

/// A unit of background work, as its author describes it: what to do and
/// under which policy.
pub trait Job {
    /// Does the work.
    fn perform(&self) -> JobResult;

    /// How many attempts the job is allowed before it is given up.
    fn max_retries(&self) -> (limit: u32)
        default_ensures
            limit == 3,
    {
        3
    }

    /// How long to wait before retrying after `attempt` attempts.
    fn backoff(&self, attempt: u32) -> (delay: Duration)
        requires
            attempt <= BACKOFF_MAX_ATTEMPTS,
        default_ensures
            delay == duration_from_secs(backoff_secs(attempt) as u64),
    {
        Duration::from_secs(backoff_seconds(attempt))
    }

    /// The job's priority; higher values are claimed first.
    fn priority(&self) -> (level: i32)
        default_ensures
            level == 0,
    {
        0
    }

    /// A name for the kind of job, used in listings and diagnostics.
    fn name(&self) -> &'static str;
}

/// A job as the queue stores it: the encoded work together with its
/// scheduling and execution state.
#[derive(Debug)]
pub struct JobWrapper {
    /// Unique identifier, assigned at creation.
    pub id: String,
    /// The kind of job, for listings and diagnostics.
    pub name: String,
    /// The encoded job; the queue never looks inside.
    pub payload: serde_json::Value,
    pub status: JobStatus,
    /// How often the job has been claimed for execution.
    pub attempts: u32,
    /// The attempt budget set by the job's policy.
    pub max_retries: u32,
    /// Creation time, in seconds since the Unix epoch.
    pub created_at: i64,
    /// The job is not claimed before this time; `None` means at once.
    pub scheduled_at: Option<i64>,
    /// Higher values are claimed first.
    pub priority: i32,
    /// Recurrence expression of a recurring job.
    pub cron_schedule: Option<String>,
    /// When the job was last rescheduled after a run.
    pub last_run_at: Option<i64>,
    /// The message of the last failure.
    pub error: Option<String>,
}

/// What a listing shows of a job.
#[derive(Debug)]
pub struct JobSummary {
    pub id: String,
    pub name: String,
    pub attempts: u32,
    /// The message of the last failure, or `Unknown` where none was
    /// recorded.
    pub last_error: String,
}

/// The instant from which the occurrences after `now` are looked for:
/// `now` itself, or one second earlier where `now` is the last instant that
/// can be represented, from which no search can start.
pub open spec fn search_start(now: i64) -> i64 {
    if now >= CLOCK_MAX {
        (CLOCK_MAX - 1) as i64
    } else {
        now
    }
}

/// The next time a recurrence expression fires after `now`: the first
/// occurrence that the expression's schedule has from the search start on,
/// where that occurrence lies after `now`. It is `None` where the
/// expression is malformed, where it has no later occurrence, or where `now`
/// lies before the year 0 or beyond the last instant that can be
/// represented.
pub open spec fn spec_next_cron_run(cron_expr: Seq<char>, now: i64) -> Option<i64> {
    if CALENDAR_MIN <= now <= CLOCK_MAX {
        match cron_parse(cron_expr) {
            Some(schedule) => match cron_next_after(schedule, search_start(now)) {
                Some(next) => if next > now {
                    Some(next)
                } else {
                    None
                },
                None => None,
            },
            None => None,
        }
    } else {
        None
    }
}

/// Computes the next time a recurrence expression fires after `now`. The
/// time it gives lies after `now`.
pub fn next_cron_run(cron_expr: &str, now: i64) -> (next: Option<i64>)
    ensures
        next == spec_next_cron_run(cron_expr@, now),
        next matches Some(at) ==> at > now,
{
    if now < CALENDAR_MIN || now > CLOCK_MAX {
        return None;
    }
    let start: i64 = if now == CLOCK_MAX {
        now - 1
    } else {
        now
    };
    match parse_schedule(cron_expr) {
        Some(schedule) => match schedule_next_after(&schedule, start) {
            Some(at) => if at > now {
                Some(at)
            } else {
                None
            },
            None => None,
        },
        None => None,
    }
}

fn clone_text(text: &Option<String>) -> (copy: Option<String>)
    ensures
        copy == *text,
{
    match text {
        Some(s) => Some(s.clone()),
        None => None,
    }
}

impl Clone for JobWrapper {
    fn clone(&self) -> (copy: Self)
        ensures
            copy == *self,
    {
        JobWrapper {
            id: self.id.clone(),
            name: self.name.clone(),
            payload: clone_payload(&self.payload),
            status: self.status,
            attempts: self.attempts,
            max_retries: self.max_retries,
            created_at: self.created_at,
            scheduled_at: self.scheduled_at,
            priority: self.priority,
            cron_schedule: clone_text(&self.cron_schedule),
            last_run_at: self.last_run_at,
            error: clone_text(&self.error),
        }
    }
}

impl JobWrapper {
    /// A record as it is at creation: pending, never attempted, eligible at
    /// once, not recurring, without a recorded run or failure.
    pub open spec fn is_fresh(self) -> bool {
        &&& self.status == JobStatus::Pending
        &&& self.attempts == 0
        &&& self.scheduled_at is None
        &&& self.cron_schedule is None
        &&& self.last_run_at is None
        &&& self.error is None
    }

    /// Builds the record of a newly created job from its parts.
    pub fn assemble(
        id: String,
        name: String,
        payload: serde_json::Value,
        max_retries: u32,
        priority: i32,
        created_at: i64,
    ) -> (record: JobWrapper)
        ensures
            record == (JobWrapper {
                id,
                name,
                payload,
                status: JobStatus::Pending,
                attempts: 0,
                max_retries,
                created_at,
                scheduled_at: None,
                priority,
                cron_schedule: None,
                last_run_at: None,
                error: None,
            }),
    {
        JobWrapper {
            id,
            name,
            payload,
            status: JobStatus::Pending,
            attempts: 0,
            max_retries,
            created_at,
            scheduled_at: None,
            priority,
            cron_schedule: None,
            last_run_at: None,
            error: None,
        }
    }

    /// Creates the record for a job: encodes it as the payload, draws a new
    /// id, stamps the current time and copies the job's policy.
    ///
    /// Fails with [`QueueError::SerializationError`] exactly when the job
    /// cannot be encoded; no record is produced then.
    pub fn new<J: Job + serde::Serialize>(job: &J) -> (made: Result<JobWrapper, QueueError>)
        ensures
            match made {
                Ok(record) => {
                    &&& record.is_fresh()
                    &&& record.id@.len() == 36
                    &&& call_ensures(J::max_retries, (job,), record.max_retries)
                    &&& call_ensures(J::priority, (job,), record.priority)
                    &&& exists|name: &'static str| #[trigger]
                        call_ensures(J::name, (job,), name) && record.name@ == name@
                },
                Err(error) => error is SerializationError,
            },
    {
        let payload = match encode_payload(job) {
            Ok(value) => value,
            Err(error) => {
                return Err(QueueError::SerializationError(json_error_text(&error)));
            },
        };
        let now: i64 = current_timestamp();
        let name = job.name();
        Ok(
            JobWrapper::assemble(
                fresh_id(),
                name.to_owned(),
                payload,
                job.max_retries(),
                job.priority(),
                now,
            ),
        )
    }

    /// This record, not to be claimed before `secs` seconds after `now`.
    pub open spec fn delayed(self, secs: u64, now: i64) -> JobWrapper {
        JobWrapper { scheduled_at: Some((now + secs) as i64), ..self }
    }

    /// Delays the job by `delay`, counted from `now`.
    pub fn with_delay_from(self, delay: Duration, now: i64) -> (job: JobWrapper)
        requires
            now + duration_as_secs(delay) <= i64::MAX,
        ensures
            job == self.delayed(duration_as_secs(delay), now),
    {
        let secs: u64 = delay.as_secs();
        let scheduled_time: Option<i64> = now.checked_add_unsigned(secs);
        let mut job = self;
        job.scheduled_at = scheduled_time;
        job
    }

    /// Delays the job by `delay`, counted from the current time. Where the
    /// resulting time cannot be represented, the job is returned as it was.
    pub fn with_delay(self, delay: Duration) -> (job: JobWrapper)
        ensures
            exists|now: i64|
                is_clock_reading(now) && job == #[trigger] self.delayed_where_possible(
                    duration_as_secs(delay),
                    now,
                ),
            duration_as_secs(delay) <= i64::MAX - CLOCK_MAX ==> job.scheduled_at is Some,
    {
        let now: i64 = current_timestamp();
        let secs: u64 = delay.as_secs();
        if now.checked_add_unsigned(secs).is_some() {
            let job = self.with_delay_from(delay, now);
            assert(job == self.delayed_where_possible(secs, now));
            job
        } else {
            assert(self == self.delayed_where_possible(secs, now));
            self
        }
    }

    /// This record delayed by `secs` seconds from `now`, or as it is where
    /// that time lies beyond the last one that can be represented.
    pub open spec fn delayed_where_possible(self, secs: u64, now: i64) -> JobWrapper {
        if now + secs <= i64::MAX {
            self.delayed(secs, now)
        } else {
            self
        }
    }

    /// This record made recurring under `cron_expr`, first due at the
    /// expression's next occurrence after `now`.
    pub open spec fn recurring(self, cron_expr: String, now: i64) -> JobWrapper {
        JobWrapper {
            scheduled_at: spec_next_cron_run(cron_expr@, now),
            cron_schedule: Some(cron_expr),
            ..self
        }
    }

    /// Makes the job recurring under a cron expression such as
    /// `"0 0 * * * *"` (hourly), counting from `now`.
    pub fn with_cron_from(self, cron_expr: String, now: i64) -> (job: JobWrapper)
        ensures
            job == self.recurring(cron_expr, now),
    {
        let mut job = self;
        job.scheduled_at = next_cron_run(cron_expr.as_str(), now);
        job.cron_schedule = Some(cron_expr);
        job
    }

    /// Makes the job recurring under a cron expression, counting from the
    /// current time.
    pub fn with_cron(self, cron_expr: String) -> (job: JobWrapper)
        ensures
            exists|now: i64| is_clock_reading(now) && job == #[trigger] self.recurring(cron_expr, now),
    {
        let now: i64 = current_timestamp();
        self.with_cron_from(cron_expr, now)
    }

    /// This record after a run that ended at `now`. A recurring job is made
    /// pending again for its next occurrence, with a new attempt budget.
    /// Where its expression has no next occurrence the job has ended: it
    /// carries no scheduled time and is not pending, so that no claim takes
    /// it; a failed job stays failed, any other is completed. A job that does
    /// not recur is left as it is.
    pub open spec fn rescheduled(self, now: i64) -> JobWrapper {
        match self.cron_schedule {
            Some(cron_expr) => {
                let next = spec_next_cron_run(cron_expr@, now);
                JobWrapper {
                    scheduled_at: next,
                    status: if next is Some {
                        JobStatus::Pending
                    } else if self.status == JobStatus::Failed {
                        JobStatus::Failed
                    } else {
                        JobStatus::Completed
                    },
                    attempts: 0,
                    last_run_at: Some(now),
                    ..self
                }
            },
            None => self,
        }
    }

    /// Prepares a recurring job for its next run after `now`, or ends it
    /// where there is none.
    pub fn reschedule_at(&mut self, now: i64)
        ensures
            *final(self) == old(self).rescheduled(now),
            old(self).cron_schedule is Some && final(self).scheduled_at is None
                ==> final(self).status != JobStatus::Pending,
    {
        if let Some(cron_expr) = &self.cron_schedule {
            let next: Option<i64> = next_cron_run(cron_expr.as_str(), now);
            self.scheduled_at = next;
            if next.is_some() {
                self.status = JobStatus::Pending;
            } else if self.status != JobStatus::Failed {
                self.status = JobStatus::Completed;
            }
            self.attempts = 0;
            self.last_run_at = Some(now);
        }
    }

    /// Prepares a recurring job for its next run after the current time, or
    /// ends it where there is none.
    pub fn reschedule(&mut self)
        ensures
            exists|now: i64|
                is_clock_reading(now) && *final(self) == #[trigger] old(self).rescheduled(now),
            old(self).cron_schedule is Some && final(self).scheduled_at is None
                ==> final(self).status != JobStatus::Pending,
    {
        let now: i64 = current_timestamp();
        self.reschedule_at(now);
    }

    /// Whether the job may be claimed at `now`: it is pending and its
    /// scheduled time, if it has one, has come.
    pub open spec fn eligible_at(self, now: i64) -> bool {
        &&& self.status == JobStatus::Pending
        &&& self.scheduled_at matches Some(due) ==> due <= now
    }

    /// Whether the job may be claimed at `now`.
    pub fn is_eligible(&self, now: i64) -> (eligible: bool)
        ensures
            eligible == self.eligible_at(now),
    {
        self.status == JobStatus::Pending && match self.scheduled_at {
            Some(due) => due <= now,
            None => true,
        }
    }

    /// This record with another status.
    pub open spec fn with_status(self, status: JobStatus) -> JobWrapper {
        JobWrapper { status, ..self }
    }

    /// This record as a worker receives it: running, with one more attempt
    /// counted.
    pub open spec fn claimed(self) -> JobWrapper {
        JobWrapper { status: JobStatus::Running, attempts: (self.attempts + 1) as u32, ..self }
    }

    /// This record after a failed run: failed, with the failure's message.
    pub open spec fn failed_with(self, error: String) -> JobWrapper {
        JobWrapper { status: JobStatus::Failed, error: Some(error), ..self }
    }

    /// This record as it leaves the dead-letter store: pending, with a new
    /// attempt budget and no recorded failure.
    pub open spec fn revived(self) -> JobWrapper {
        JobWrapper { status: JobStatus::Pending, attempts: 0, error: None, ..self }
    }

    /// What a listing shows of this job.
    pub fn summary(&self) -> (summary: JobSummary)
        ensures
            summary.id == self.id,
            summary.name == self.name,
            summary.attempts == self.attempts,
            summary.last_error@ == (match self.error {
                Some(error) => error@,
                None => "Unknown"@,
            }),
    {
        JobSummary {
            id: self.id.clone(),
            name: self.name.clone(),
            attempts: self.attempts,
            last_error: match &self.error {
                Some(error) => error.clone(),
                None => "Unknown".to_owned(),
            },
        }
    }

    /// Whether a failed job has attempts left.
    pub open spec fn spec_should_retry(self) -> bool {
        self.status == JobStatus::Failed && self.attempts < self.max_retries
    }

    /// Whether the job should be retried: it has failed and has attempts
    /// left.
    pub fn should_retry(&self) -> (retry: bool)
        ensures
            retry == self.spec_should_retry(),
    {
        self.status == JobStatus::Failed && self.attempts < self.max_retries
    }

    /// The delay before the job's next retry: the base delay doubled once
    /// per attempt made so far.
    pub fn calculate_backoff(&self) -> (delay: Duration)
        requires
            self.attempts <= BACKOFF_MAX_ATTEMPTS,
        ensures
            delay == duration_from_secs(backoff_secs(self.attempts) as u64),
            duration_as_secs(delay) == backoff_secs(self.attempts),
    {
        Duration::from_secs(backoff_seconds(self.attempts))
    }
}

} // verus!

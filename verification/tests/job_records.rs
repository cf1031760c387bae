use oxidite::error::{JobResult, QueueError};
use oxidite::external::{CALENDAR_MIN, CLOCK_MAX};
use oxidite::job::{
    backoff_seconds, next_cron_run, Job, JobStatus, JobWrapper, BACKOFF_BASE_SECS,
    BACKOFF_MAX_ATTEMPTS,
};
use std::time::Duration;

struct Plain;

impl serde::Serialize for Plain {
    fn serialize<S: serde::Serializer>(&self, serializer: S) -> Result<S::Ok, S::Error> {
        serializer.serialize_str("plain")
    }
}

impl Job for Plain {
    fn perform(&self) -> JobResult {
        Ok(())
    }

    fn name(&self) -> &'static str {
        "Plain"
    }
}

struct Urgent;

impl serde::Serialize for Urgent {
    fn serialize<S: serde::Serializer>(&self, serializer: S) -> Result<S::Ok, S::Error> {
        serializer.serialize_u8(7)
    }
}

impl Job for Urgent {
    fn perform(&self) -> JobResult {
        Err(QueueError::ExecutionError("no".to_string()))
    }

    fn max_retries(&self) -> u32 {
        9
    }

    fn backoff(&self, attempt: u32) -> Duration {
        Duration::from_secs(u64::from(attempt))
    }

    fn priority(&self) -> i32 {
        -4
    }

    fn name(&self) -> &'static str {
        "Urgent"
    }
}

struct Unencodable;

impl serde::Serialize for Unencodable {
    fn serialize<S: serde::Serializer>(&self, _serializer: S) -> Result<S::Ok, S::Error> {
        Err(serde::ser::Error::custom("cannot be encoded"))
    }
}

impl Job for Unencodable {
    fn perform(&self) -> JobResult {
        Ok(())
    }

    fn name(&self) -> &'static str {
        "Unencodable"
    }
}

fn record() -> JobWrapper {
    JobWrapper::assemble(
        "id-1".to_string(),
        "job".to_string(),
        serde_json::Value::Bool(true),
        3,
        2,
        1_000,
    )
}

#[test]
fn new_record_copies_the_default_policy() {
    let job = JobWrapper::new(&Plain).unwrap();
    assert_eq!(job.name, "Plain");
    assert_eq!(job.payload, serde_json::Value::String("plain".to_string()));
    assert_eq!(job.status, JobStatus::Pending);
    assert_eq!(job.attempts, 0);
    assert_eq!(job.max_retries, 3);
    assert_eq!(job.priority, 0);
    assert_eq!(job.scheduled_at, None);
    assert_eq!(job.cron_schedule, None);
    assert_eq!(job.last_run_at, None);
    assert_eq!(job.error, None);
    assert!(job.created_at > 1_600_000_000);
}

#[test]
fn new_record_copies_an_overridden_policy() {
    let job = JobWrapper::new(&Urgent).unwrap();
    assert_eq!(job.name, "Urgent");
    assert_eq!(job.payload, serde_json::Value::from(7));
    assert_eq!(job.max_retries, 9);
    assert_eq!(job.priority, -4);
}

#[test]
fn new_records_get_distinct_hyphenated_ids() {
    let a = JobWrapper::new(&Plain).unwrap();
    let b = JobWrapper::new(&Plain).unwrap();
    assert_ne!(a.id, b.id);
    assert_eq!(a.id.len(), 36);
    assert_eq!(a.id.chars().filter(|c| *c == '-').count(), 4);
}

#[test]
fn unencodable_job_is_rejected() {
    let outcome = JobWrapper::new(&Unencodable);
    match outcome {
        Err(QueueError::SerializationError(text)) => assert!(text.contains("cannot be encoded")),
        other => panic!("unexpected outcome: {:?}", other),
    }
}

#[test]
fn assemble_builds_a_fresh_record() {
    let job = record();
    assert_eq!(job.id, "id-1");
    assert_eq!(job.name, "job");
    assert_eq!(job.payload, serde_json::Value::Bool(true));
    assert_eq!(job.status, JobStatus::Pending);
    assert_eq!(job.attempts, 0);
    assert_eq!(job.max_retries, 3);
    assert_eq!(job.priority, 2);
    assert_eq!(job.created_at, 1_000);
    assert_eq!(job.scheduled_at, None);
}

#[test]
fn clone_keeps_every_field() {
    let mut job = record();
    job.error = Some("e".to_string());
    job.cron_schedule = Some("0 0 * * * *".to_string());
    job.last_run_at = Some(5);
    job.scheduled_at = Some(6);
    job.attempts = 2;
    job.status = JobStatus::Retrying;
    let copy = job.clone();
    assert_eq!(format!("{:?}", copy), format!("{:?}", job));
}

#[test]
fn default_backoff_of_the_trait_doubles() {
    assert_eq!(Plain.backoff(0), Duration::from_secs(60));
    assert_eq!(Plain.backoff(1), Duration::from_secs(120));
    assert_eq!(Plain.backoff(4), Duration::from_secs(960));
    assert_eq!(Urgent.backoff(4), Duration::from_secs(4));
}

#[test]
fn backoff_is_base_times_two_to_the_attempts() {
    assert_eq!(BACKOFF_BASE_SECS, 60);
    assert_eq!(backoff_seconds(0), 60);
    assert_eq!(backoff_seconds(1), 120);
    assert_eq!(backoff_seconds(2), 240);
    assert_eq!(backoff_seconds(3), 480);
    assert_eq!(backoff_seconds(10), 61_440);
    assert_eq!(backoff_seconds(BACKOFF_MAX_ATTEMPTS), 60 * (1u64 << 58));
    for attempts in 0..BACKOFF_MAX_ATTEMPTS {
        assert_eq!(backoff_seconds(attempts + 1), 2 * backoff_seconds(attempts));
    }
}

#[test]
fn calculate_backoff_uses_the_attempts_made() {
    let mut job = record();
    assert_eq!(job.calculate_backoff(), Duration::from_secs(60));
    job.attempts = 3;
    assert_eq!(job.calculate_backoff(), Duration::from_secs(480));
}

#[test]
fn should_retry_needs_failure_and_attempts_left() {
    let mut job = record();
    job.attempts = 1;
    assert!(!job.should_retry());
    job.status = JobStatus::Failed;
    assert!(job.should_retry());
    job.attempts = 2;
    assert!(job.should_retry());
    job.attempts = 3;
    assert!(!job.should_retry());
    job.attempts = 4;
    assert!(!job.should_retry());
    job.max_retries = 0;
    job.attempts = 0;
    assert!(!job.should_retry());
}

#[test]
fn eligibility_depends_on_status_and_schedule() {
    let mut job = record();
    assert!(job.is_eligible(i64::MIN));
    job.scheduled_at = Some(10);
    assert!(!job.is_eligible(9));
    assert!(job.is_eligible(10));
    assert!(job.is_eligible(11));
    job.status = JobStatus::Running;
    assert!(!job.is_eligible(11));
    job.status = JobStatus::DeadLetter;
    assert!(!job.is_eligible(i64::MAX));
}

#[test]
fn with_delay_from_adds_whole_seconds() {
    let job = record().with_delay_from(Duration::from_millis(90_999), 1_000);
    assert_eq!(job.scheduled_at, Some(1_090));
    let job = record().with_delay_from(Duration::from_secs(0), -5);
    assert_eq!(job.scheduled_at, Some(-5));
    let job = record().with_delay_from(Duration::from_secs(7), i64::MAX - 7);
    assert_eq!(job.scheduled_at, Some(i64::MAX));
    assert_eq!(job.id, "id-1");
    assert_eq!(job.status, JobStatus::Pending);
}

#[test]
fn with_delay_counts_from_the_clock() {
    let before = chrono::Utc::now().timestamp();
    let job = record().with_delay(Duration::from_secs(3_600));
    let after = chrono::Utc::now().timestamp();
    let due = job.scheduled_at.unwrap();
    assert!(before + 3_600 <= due && due <= after + 3_600);
}

#[test]
fn with_delay_that_cannot_be_represented_changes_nothing() {
    let job = record().with_delay(Duration::from_secs(u64::MAX));
    assert_eq!(job.scheduled_at, None);
}

#[test]
fn next_cron_run_finds_the_next_hour() {
    assert_eq!(next_cron_run("0 0 * * * *", 0), Some(3_600));
    assert_eq!(next_cron_run("0 0 * * * *", 3_599), Some(3_600));
    assert_eq!(next_cron_run("0 0 * * * *", 3_600), Some(7_200));
    assert_eq!(next_cron_run("0 30 9 * * *", 1_700_000_000), Some(1_700_040_600));
}

#[test]
fn next_cron_run_rejects_malformed_expressions() {
    assert_eq!(next_cron_run("", 0), None);
    assert_eq!(next_cron_run("not a schedule", 0), None);
    assert_eq!(next_cron_run("61 * * * * *", 0), None);
}

#[test]
fn next_cron_run_of_an_exhausted_schedule_is_none() {
    assert_eq!(next_cron_run("0 0 0 1 1 * 2000", 0), Some(946_684_800));
    assert_eq!(next_cron_run("0 0 0 1 1 * 2000", 946_684_800), None);
}

#[test]
fn next_cron_run_outside_the_calendar_is_none() {
    assert_eq!(next_cron_run("* * * * * *", i64::MAX), None);
    assert_eq!(next_cron_run("* * * * * *", i64::MIN), None);
    assert_eq!(next_cron_run("* * * * * *", 253_402_300_800), None);
    assert_eq!(next_cron_run("* * * * * *", -62_167_219_201), None);
    assert_eq!(next_cron_run("* * * * * *", 253_402_300_799), None);
    assert_eq!(next_cron_run("* * * * * *", -62_167_219_200), Some(0));
}

#[test]
fn with_cron_from_schedules_the_first_run() {
    let job = record().with_cron_from("0 0 * * * *".to_string(), 10);
    assert_eq!(job.cron_schedule.as_deref(), Some("0 0 * * * *"));
    assert_eq!(job.scheduled_at, Some(3_600));
    assert_eq!(job.status, JobStatus::Pending);
}

#[test]
fn with_cron_from_keeps_a_malformed_expression_without_a_time() {
    let mut job = record();
    job.scheduled_at = Some(5);
    let job = job.with_cron_from("bogus".to_string(), 10);
    assert_eq!(job.cron_schedule.as_deref(), Some("bogus"));
    assert_eq!(job.scheduled_at, None);
}

#[test]
fn with_cron_counts_from_the_clock() {
    let before = chrono::Utc::now().timestamp();
    let job = record().with_cron("* * * * * *".to_string());
    let due = job.scheduled_at.unwrap();
    assert!(due > before && due <= before + 5);
}

#[test]
fn reschedule_at_prepares_the_next_run() {
    let mut job = record().with_cron_from("0 0 * * * *".to_string(), 0);
    job.status = JobStatus::Running;
    job.attempts = 2;
    job.error = Some("kept".to_string());
    job.reschedule_at(4_000);
    assert_eq!(job.scheduled_at, Some(7_200));
    assert_eq!(job.status, JobStatus::Pending);
    assert_eq!(job.attempts, 0);
    assert_eq!(job.last_run_at, Some(4_000));
    assert_eq!(job.error.as_deref(), Some("kept"));
}

#[test]
fn reschedule_at_leaves_a_one_off_job_alone() {
    let mut job = record();
    job.status = JobStatus::Running;
    job.attempts = 2;
    job.scheduled_at = Some(3);
    job.reschedule_at(4_000);
    assert_eq!(job.status, JobStatus::Running);
    assert_eq!(job.attempts, 2);
    assert_eq!(job.scheduled_at, Some(3));
    assert_eq!(job.last_run_at, None);
}

#[test]
fn reschedule_at_of_an_exhausted_schedule_leaves_no_time() {
    let mut job = record().with_cron_from("0 0 0 1 1 * 2000".to_string(), 0);
    assert_eq!(job.scheduled_at, Some(946_684_800));
    job.reschedule_at(946_684_800);
    assert_eq!(job.scheduled_at, None);
    assert_eq!(job.status, JobStatus::Completed);
    assert_eq!(job.attempts, 0);
    assert_eq!(job.last_run_at, Some(946_684_800));
    assert!(!job.is_eligible(i64::MIN));
    assert!(!job.is_eligible(946_684_801));
    assert!(!job.is_eligible(i64::MAX));
}

#[test]
fn reschedule_at_without_a_next_run_ends_the_job() {
    for status in [
        JobStatus::Pending,
        JobStatus::Running,
        JobStatus::Completed,
        JobStatus::Retrying,
        JobStatus::DeadLetter,
    ] {
        let mut job = record();
        job.cron_schedule = Some("not a cron".to_string());
        job.scheduled_at = Some(5);
        job.status = status;
        job.reschedule_at(100);
        assert_eq!(job.status, JobStatus::Completed);
        assert_eq!(job.scheduled_at, None);
        assert!(!job.is_eligible(i64::MAX));
    }
    let mut job = record();
    job.cron_schedule = Some("not a cron".to_string());
    job.status = JobStatus::Failed;
    job.error = Some("boom".to_string());
    job.reschedule_at(100);
    assert_eq!(job.status, JobStatus::Failed);
    assert_eq!(job.scheduled_at, None);
    assert_eq!(job.error.as_deref(), Some("boom"));
    assert!(!job.is_eligible(i64::MAX));
}

#[test]
fn reschedule_with_a_next_run_makes_a_failed_job_pending() {
    let mut job = record().with_cron_from("0 0 * * * *".to_string(), 0);
    job.status = JobStatus::Failed;
    job.reschedule_at(10);
    assert_eq!(job.status, JobStatus::Pending);
    assert_eq!(job.scheduled_at, Some(3_600));
}

#[test]
fn reschedule_of_a_malformed_expression_ends_the_job() {
    let mut job = record();
    job.cron_schedule = Some("not a cron".to_string());
    job.status = JobStatus::Running;
    job.reschedule();
    assert_eq!(job.scheduled_at, None);
    assert_eq!(job.status, JobStatus::Completed);
    assert!(job.last_run_at.unwrap() > 1_600_000_000);
}

#[test]
fn clock_range_is_the_range_of_chrono() {
    assert_eq!(chrono::DateTime::<chrono::Utc>::MAX_UTC.timestamp(), CLOCK_MAX);
    assert!(chrono::DateTime::from_timestamp(CLOCK_MAX, 0).is_some());
    assert!(chrono::DateTime::from_timestamp(CLOCK_MAX + 1, 0).is_none());
    assert_eq!(chrono::DateTime::from_timestamp(CALENDAR_MIN, 0).unwrap().to_rfc3339(), "0000-01-01T00:00:00+00:00");
    let now = chrono::Utc::now().timestamp();
    assert!(0 <= now && now <= CLOCK_MAX);
}

#[test]
fn next_cron_run_covers_the_whole_clock_range() {
    assert_eq!(next_cron_run("* * * * * *", 0), Some(1));
    assert_eq!(next_cron_run("* * * * * *", 4_102_444_800), Some(4_102_444_801));
    assert_eq!(next_cron_run("* * * * * *", 4_133_980_799), None);
    assert_eq!(next_cron_run("* * * * * *", 253_402_300_800), None);
    assert_eq!(next_cron_run("* * * * * *", CLOCK_MAX - 86_400), None);
    assert_eq!(next_cron_run("* * * * * *", CLOCK_MAX - 1), None);
    assert_eq!(next_cron_run("* * * * * *", CLOCK_MAX), None);
    assert_eq!(next_cron_run("* * * * * *", CALENDAR_MIN - 1), None);
}

#[test]
fn delay_by_the_backoff_is_the_time_plus_sixty_times_two_to_the_attempts() {
    let mut job = record();
    for (attempts, delay) in [(0u32, 60i64), (2, 240), (10, 61_440), (57, 60 * (1i64 << 57))] {
        job.attempts = attempts;
        let backoff = job.calculate_backoff();
        for now in [0i64, 1_700_000_000, CLOCK_MAX] {
            let delayed = job.clone().with_delay_from(backoff, now);
            assert_eq!(delayed.scheduled_at, Some(now + delay));
            assert_eq!(delayed.attempts, attempts);
            assert_eq!(delayed.id, job.id);
        }
        let before = chrono::Utc::now().timestamp();
        let delayed = job.clone().with_delay(backoff);
        let after = chrono::Utc::now().timestamp();
        let due = delayed.scheduled_at.unwrap();
        assert!(before + delay <= due && due <= after + delay);
    }
}

#[test]
fn reschedule_counts_from_the_clock() {
    let mut job = record().with_cron_from("* * * * * *".to_string(), 0);
    let before = chrono::Utc::now().timestamp();
    job.reschedule();
    assert!(job.last_run_at.unwrap() >= before);
    assert!(job.scheduled_at.unwrap() > before);
}

#[test]
fn error_messages_name_the_kind() {
    assert_eq!(QueueError::NotFound.message(), "job not found");
    assert_eq!(
        QueueError::SerializationError("x".to_string()).message(),
        "serialization error: x"
    );
    assert_eq!(
        QueueError::BackendUnavailable("y".to_string()).message(),
        "backend unavailable: y"
    );
    assert_eq!(QueueError::ExecutionError("z".to_string()).message(), "execution error: z");
}

#[test]
fn failing_job_logic_is_an_execution_error() {
    match Urgent.perform() {
        Err(QueueError::ExecutionError(text)) => assert_eq!(text, "no"),
        other => panic!("unexpected outcome: {:?}", other),
    }
    assert!(Plain.perform().is_ok());
}

use oxidite::error::{JobResult, QueueError};
use oxidite::job::{Job, JobStatus, JobWrapper};
use oxidite::queue::{MemoryBackend, Queue, QueueBackend};
use oxidite::stats::QueueStats;
use serde::ser::SerializeStruct;

struct TestJob {
    value: i32,
}

impl serde::Serialize for TestJob {
    fn serialize<S: serde::Serializer>(&self, serializer: S) -> Result<S::Ok, S::Error> {
        let mut state = serializer.serialize_struct("TestJob", 1)?;
        state.serialize_field("value", &self.value)?;
        state.end()
    }
}

impl Job for TestJob {
    fn perform(&self) -> JobResult {
        Ok(())
    }

    fn name(&self) -> &'static str {
        "TestJob"
    }
}

fn record(id: &str, priority: i32, created_at: i64) -> JobWrapper {
    JobWrapper {
        id: id.to_string(),
        name: "job".to_string(),
        payload: serde_json::Value::Null,
        status: JobStatus::Pending,
        attempts: 0,
        max_retries: 3,
        created_at,
        scheduled_at: None,
        priority,
        cron_schedule: None,
        last_run_at: None,
        error: None,
    }
}

fn claim(queue: &mut Queue<MemoryBackend>, now: i64) -> Option<JobWrapper> {
    queue.dequeue_at(now).unwrap()
}

#[test]
fn test_enqueue_dequeue() {
    let mut queue = Queue::memory();
    let job = JobWrapper::new(&TestJob { value: 42 }).unwrap();

    queue.enqueue(job).unwrap();
    let dequeued = queue.dequeue().unwrap();

    assert!(dequeued.is_some());
}

#[test]
fn dequeued_job_is_running_with_one_attempt() {
    let mut queue = Queue::memory();
    let job = JobWrapper::new(&TestJob { value: 42 }).unwrap();
    let id = queue.enqueue(job.clone()).unwrap();
    assert_eq!(id, job.id);

    let claimed = queue.dequeue().unwrap().unwrap();
    assert_eq!(claimed.id, id);
    assert_eq!(claimed.status, JobStatus::Running);
    assert_eq!(claimed.attempts, 1);
    assert_eq!(claimed.payload["value"], 42);
    assert!(queue.dequeue().unwrap().is_none());
}

#[test]
fn enqueue_returns_the_job_id() {
    let mut queue = Queue::memory();
    assert_eq!(queue.enqueue(record("abc", 0, 1)).unwrap(), "abc");
}

#[test]
fn dequeue_on_empty_queue_returns_nothing() {
    let mut queue = Queue::memory();
    assert!(claim(&mut queue, 0).is_none());
    assert_eq!(queue.get_stats(), QueueStats::default());
}

#[test]
fn higher_priority_is_claimed_first() {
    let mut queue = Queue::memory();
    queue.enqueue(record("a", 5, 100)).unwrap();
    queue.enqueue(record("b", 10, 100)).unwrap();
    queue.enqueue(record("c", 10, 200)).unwrap();

    assert_eq!(claim(&mut queue, 1000).unwrap().id, "b");
    assert_eq!(claim(&mut queue, 1000).unwrap().id, "c");
    assert_eq!(claim(&mut queue, 1000).unwrap().id, "a");
    assert!(claim(&mut queue, 1000).is_none());
}

#[test]
fn equal_priority_is_claimed_in_creation_order() {
    let mut queue = Queue::memory();
    queue.enqueue(record("late", 1, 300)).unwrap();
    queue.enqueue(record("early", 1, 100)).unwrap();
    queue.enqueue(record("middle", 1, 200)).unwrap();

    assert_eq!(claim(&mut queue, 1000).unwrap().id, "early");
    assert_eq!(claim(&mut queue, 1000).unwrap().id, "middle");
    assert_eq!(claim(&mut queue, 1000).unwrap().id, "late");
}

#[test]
fn full_ties_are_claimed_in_enqueue_order() {
    let mut queue = Queue::memory();
    for id in ["first", "second", "third"] {
        queue.enqueue(record(id, 7, 100)).unwrap();
    }
    assert_eq!(claim(&mut queue, 100).unwrap().id, "first");
    assert_eq!(claim(&mut queue, 100).unwrap().id, "second");
    assert_eq!(claim(&mut queue, 100).unwrap().id, "third");
}

#[test]
fn negative_priorities_order_below_zero() {
    let mut queue = Queue::memory();
    queue.enqueue(record("low", i32::MIN, 1)).unwrap();
    queue.enqueue(record("zero", 0, 2)).unwrap();
    queue.enqueue(record("high", i32::MAX, 3)).unwrap();
    assert_eq!(claim(&mut queue, 10).unwrap().id, "high");
    assert_eq!(claim(&mut queue, 10).unwrap().id, "zero");
    assert_eq!(claim(&mut queue, 10).unwrap().id, "low");
}

#[test]
fn scheduled_job_waits_for_its_time() {
    let mut queue = Queue::memory();
    let mut later = record("later", 10, 1);
    later.scheduled_at = Some(500);
    queue.enqueue(later).unwrap();
    queue.enqueue(record("now", 1, 2)).unwrap();

    assert_eq!(claim(&mut queue, 499).unwrap().id, "now");
    assert!(claim(&mut queue, 499).is_none());
    let job = claim(&mut queue, 500).unwrap();
    assert_eq!(job.id, "later");
    assert_eq!(job.scheduled_at, Some(500));
}

#[test]
fn absent_schedule_differs_from_time_zero() {
    let mut queue = Queue::memory();
    let mut at_zero = record("zero", 0, 1);
    at_zero.scheduled_at = Some(0);
    queue.enqueue(at_zero).unwrap();
    queue.enqueue(record("none", 0, 2)).unwrap();

    let job = claim(&mut queue, -1).unwrap();
    assert_eq!(job.id, "none");
    assert_eq!(job.scheduled_at, None);
    assert!(claim(&mut queue, -1).is_none());
    assert_eq!(claim(&mut queue, 0).unwrap().scheduled_at, Some(0));
}

#[test]
fn enqueue_makes_the_job_pending() {
    let mut queue = Queue::memory();
    let mut job = record("x", 0, 1);
    job.status = JobStatus::Failed;
    queue.enqueue(job).unwrap();
    let claimed = claim(&mut queue, 5).unwrap();
    assert_eq!(claimed.status, JobStatus::Running);
}

#[test]
fn stats_follow_the_operations() {
    let mut queue = Queue::memory();
    queue.enqueue(record("a", 0, 1)).unwrap();
    queue.enqueue(record("b", 0, 2)).unwrap();
    let stats = queue.get_stats();
    assert_eq!(stats.total_enqueued, 2);
    assert_eq!(stats.pending_count, 2);

    let a = claim(&mut queue, 10).unwrap();
    let b = claim(&mut queue, 10).unwrap();
    let stats = queue.get_stats();
    assert_eq!(stats.pending_count, 0);
    assert_eq!(stats.running_count, 2);

    queue.complete(&a.id).unwrap();
    queue.fail(&b.id, "boom".to_string()).unwrap();
    let stats = queue.get_stats();
    assert_eq!(stats.total_processed, 1);
    assert_eq!(stats.total_failed, 1);
    assert_eq!(stats.running_count, 0);

    queue.retry(b).unwrap();
    assert_eq!(queue.get_stats().total_retried, 1);
    assert_eq!(queue.get_stats().pending_count, 0);

    let b = claim(&mut queue, 10).unwrap();
    assert_eq!(b.attempts, 2);
    queue.fail(&b.id, "boom".to_string()).unwrap();
    queue.move_to_dead_letter(b).unwrap();
    let stats = queue.get_stats();
    assert_eq!(stats.dead_letter_count, 1);
    assert_eq!(stats.total_failed, 2);
    assert_eq!(
        stats,
        QueueStats {
            total_enqueued: 2,
            total_processed: 1,
            total_failed: 2,
            total_retried: 1,
            pending_count: 0,
            running_count: 0,
            dead_letter_count: 1,
        }
    );
}

#[test]
fn gauges_do_not_fall_below_zero() {
    let mut queue = Queue::memory();
    queue.complete("nobody").unwrap();
    queue.fail("nobody", "x".to_string()).unwrap();
    let stats = queue.get_stats();
    assert_eq!(stats.running_count, 0);
    assert_eq!(stats.total_processed, 1);
    assert_eq!(stats.total_failed, 1);
}

#[test]
fn failing_three_times_lands_in_dead_letter() {
    let mut queue = Queue::memory();
    let mut job = record("doomed", 0, 1);
    job.max_retries = 2;
    queue.enqueue(job).unwrap();

    for round in 1..=3u32 {
        let mut claimed = claim(&mut queue, 10).unwrap();
        assert_eq!(claimed.attempts, round);
        claimed.status = JobStatus::Failed;
        claimed.error = Some("boom".to_string());
        queue.fail(&claimed.id, "boom".to_string()).unwrap();
        if claimed.attempts > claimed.max_retries {
            queue.move_to_dead_letter(claimed).unwrap();
        } else {
            queue.retry(claimed).unwrap();
        }
    }

    assert!(claim(&mut queue, 10).is_none());
    let dead = queue.list_dead_letter().unwrap();
    assert_eq!(dead.len(), 1);
    assert_eq!(dead[0].attempts, 3);
    assert_eq!(dead[0].status, JobStatus::DeadLetter);
    assert_eq!(dead[0].error.as_deref(), Some("boom"));
}

#[test]
fn dead_letters_are_listed_in_arrival_order() {
    let mut queue = Queue::memory();
    for id in ["x", "y", "z"] {
        queue.move_to_dead_letter(record(id, 0, 1)).unwrap();
    }
    let ids: Vec<String> = queue.list_dead_letter().unwrap().into_iter().map(|j| j.id).collect();
    assert_eq!(ids, vec!["x".to_string(), "y".to_string(), "z".to_string()]);
    assert!(claim(&mut queue, i64::MAX).is_none());
}

#[test]
fn replay_resets_the_job_and_makes_it_eligible() {
    let mut queue = Queue::memory();
    let mut job = record("again", 4, 9);
    job.attempts = 3;
    job.error = Some("boom".to_string());
    queue.move_to_dead_letter(job).unwrap();
    queue.move_to_dead_letter(record("other", 0, 1)).unwrap();

    let before = queue.get_stats();
    queue.retry_from_dead_letter("again").unwrap();
    assert_eq!(queue.get_stats(), before);

    let dead = queue.list_dead_letter().unwrap();
    assert_eq!(dead.len(), 1);
    assert_eq!(dead[0].id, "other");
    let claimed = claim(&mut queue, 10).unwrap();
    assert_eq!(claimed.id, "again");
    assert_eq!(claimed.attempts, 1);
    assert_eq!(claimed.error, None);
    assert_eq!(claimed.priority, 4);
    assert_eq!(claimed.created_at, 9);
}

#[test]
fn replay_of_unknown_id_reports_not_found() {
    let mut queue = Queue::memory();
    queue.move_to_dead_letter(record("known", 0, 1)).unwrap();
    queue.enqueue(record("pending", 0, 1)).unwrap();
    let before = queue.get_stats();

    let outcome = queue.retry_from_dead_letter("unknown");
    assert!(matches!(outcome, Err(QueueError::NotFound)));
    let outcome = queue.retry_from_dead_letter("pending");
    assert!(matches!(outcome, Err(QueueError::NotFound)));

    assert_eq!(queue.get_stats(), before);
    assert_eq!(queue.list_dead_letter().unwrap().len(), 1);
    assert_eq!(claim(&mut queue, 10).unwrap().id, "pending");
    assert!(claim(&mut queue, 10).is_none());
}

#[test]
fn replay_takes_the_oldest_of_equal_ids() {
    let mut queue = Queue::memory();
    let mut first = record("dup", 0, 1);
    first.attempts = 1;
    let mut second = record("dup", 0, 2);
    second.attempts = 2;
    queue.move_to_dead_letter(first).unwrap();
    queue.move_to_dead_letter(second).unwrap();
    queue.retry_from_dead_letter("dup").unwrap();
    let dead = queue.list_dead_letter().unwrap();
    assert_eq!(dead.len(), 1);
    assert_eq!(dead[0].created_at, 2);
}

#[test]
fn interleaved_workers_never_share_a_job() {
    let mut queue = Queue::memory();
    let jobs: usize = 50;
    for n in 0..jobs {
        queue.enqueue(record(&format!("job-{n}"), (n % 5) as i32, n as i64)).unwrap();
    }
    let workers: usize = 4;
    let mut seen: Vec<String> = Vec::new();
    let mut idle: usize = 0;
    let mut turn: usize = 0;
    while idle < workers {
        match claim(&mut queue, 1000) {
            Some(job) => {
                assert!(!seen.contains(&job.id), "worker {} got {} again", turn % workers, job.id);
                seen.push(job.id);
                idle = 0;
            }
            None => idle += 1,
        }
        turn += 1;
    }
    assert_eq!(seen.len(), jobs);
}

#[test]
fn memory_backend_works_on_its_own() {
    let mut backend = MemoryBackend::new();
    backend.enqueue(record("a", 1, 1)).unwrap();
    backend.retry(record("b", 2, 2)).unwrap();
    backend.complete("a").unwrap();
    backend.fail("a", "x".to_string()).unwrap();
    let first = backend.dequeue_at(5).unwrap().unwrap();
    assert_eq!(first.id, "b");
    let second = backend.dequeue().unwrap().unwrap();
    assert_eq!(second.id, "a");
    backend.move_to_dead_letter(second).unwrap();
    assert_eq!(backend.list_dead_letter().unwrap().len(), 1);
    backend.retry_from_dead_letter("a").unwrap();
    assert!(backend.list_dead_letter().unwrap().is_empty());
    let again = MemoryBackend::default().dequeue_at(0).unwrap();
    assert!(again.is_none());
}

#[test]
fn queue_on_a_given_backend_starts_with_its_jobs() {
    let mut backend = MemoryBackend::new();
    backend.enqueue(record("kept", 0, 1)).unwrap();
    let mut queue = Queue::new(backend);
    assert_eq!(queue.get_stats(), QueueStats::default());
    assert_eq!(claim(&mut queue, 5).unwrap().id, "kept");
}

#[test]
fn fail_records_the_last_reason_for_the_job() {
    let mut queue = Queue::memory();
    queue.enqueue(record("a", 0, 1)).unwrap();
    queue.enqueue(record("b", 0, 2)).unwrap();
    let a = claim(&mut queue, 10).unwrap();
    let b = claim(&mut queue, 10).unwrap();
    assert_eq!(queue.last_failure("a").unwrap(), None);

    queue.fail(&a.id, "disk full".to_string()).unwrap();
    assert_eq!(queue.last_failure("a").unwrap().as_deref(), Some("disk full"));
    assert_eq!(queue.last_failure("b").unwrap(), None);
    assert!(claim(&mut queue, 10).is_none());
    assert!(queue.list_dead_letter().unwrap().is_empty());

    queue.fail(&b.id, "timeout".to_string()).unwrap();
    queue.fail(&a.id, "disk still full".to_string()).unwrap();
    assert_eq!(queue.last_failure("a").unwrap().as_deref(), Some("disk still full"));
    assert_eq!(queue.last_failure("b").unwrap().as_deref(), Some("timeout"));
    assert_eq!(queue.last_failure("").unwrap(), None);
    assert_eq!(queue.get_stats().total_failed, 3);
}

#[test]
fn backend_keeps_failure_reasons_apart_from_its_jobs() {
    let mut backend = MemoryBackend::new();
    backend.enqueue(record("a", 0, 1)).unwrap();
    backend.fail("a", "first".to_string()).unwrap();
    backend.fail("a", "second".to_string()).unwrap();
    assert_eq!(backend.last_failure("a").unwrap().as_deref(), Some("second"));
    let job = backend.dequeue_at(5).unwrap().unwrap();
    assert_eq!(job.error, None);
    backend.complete("a").unwrap();
    assert_eq!(backend.last_failure("a").unwrap().as_deref(), Some("second"));
}

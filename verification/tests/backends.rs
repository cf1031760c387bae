use oxidite::error::QueueError;
use oxidite::job::{JobStatus, JobWrapper};
use oxidite::queue::{MemoryBackend, Queue, QueueBackend};
use oxidite::stats::QueueStats;

fn record(id: String, priority: i32) -> JobWrapper {
    JobWrapper {
        id,
        name: "job".to_string(),
        payload: serde_json::Value::Null,
        status: JobStatus::Pending,
        attempts: 0,
        max_retries: 3,
        created_at: 0,
        scheduled_at: None,
        priority,
        cron_schedule: None,
        last_run_at: None,
        error: None,
    }
}

/// A backend whose storage cannot be reached.
struct Unreachable;

fn down<T>() -> Result<T, QueueError> {
    Err(QueueError::BackendUnavailable("storage is down".to_string()))
}

impl QueueBackend for Unreachable {
    fn enqueue(&mut self, _job: JobWrapper) -> Result<(), QueueError> {
        down()
    }

    fn dequeue_at(&mut self, _now: i64) -> Result<Option<JobWrapper>, QueueError> {
        down()
    }

    fn complete(&mut self, _job_id: &str) -> Result<(), QueueError> {
        down()
    }

    fn fail(&mut self, _job_id: &str, _error: String) -> Result<(), QueueError> {
        down()
    }

    fn last_failure(&self, _job_id: &str) -> Result<Option<String>, QueueError> {
        down()
    }

    fn retry(&mut self, _job: JobWrapper) -> Result<(), QueueError> {
        down()
    }

    fn move_to_dead_letter(&mut self, _job: JobWrapper) -> Result<(), QueueError> {
        down()
    }

    fn list_dead_letter(&self) -> Result<Vec<JobWrapper>, QueueError> {
        down()
    }

    fn retry_from_dead_letter(&mut self, _job_id: &str) -> Result<(), QueueError> {
        down()
    }
}

fn is_unavailable<T>(outcome: Result<T, QueueError>) -> bool {
    matches!(outcome, Err(QueueError::BackendUnavailable(_)))
}

#[test]
fn unavailable_backend_is_reported_and_leaves_the_statistics_alone() {
    let mut queue = Queue::new(Unreachable);
    assert!(is_unavailable(queue.enqueue(record("a".to_string(), 0))));
    assert!(is_unavailable(queue.dequeue_at(0)));
    assert!(is_unavailable(queue.dequeue()));
    assert!(is_unavailable(queue.complete("a")));
    assert!(is_unavailable(queue.fail("a", "x".to_string())));
    assert!(is_unavailable(queue.last_failure("a")));
    assert!(is_unavailable(queue.retry(record("a".to_string(), 0))));
    assert!(is_unavailable(queue.move_to_dead_letter(record("a".to_string(), 0))));
    assert!(is_unavailable(queue.list_dead_letter()));
    assert!(is_unavailable(queue.retry_from_dead_letter("a")));
    assert_eq!(queue.get_stats(), QueueStats::default());
    match queue.enqueue(record("a".to_string(), 0)) {
        Err(error) => assert_eq!(error.message(), "backend unavailable: storage is down"),
        Ok(_) => panic!("the backend is down"),
    }
}

#[test]
fn memory_backend_is_always_available() {
    let mut backend = MemoryBackend::new();
    for n in 0..100 {
        assert!(backend.enqueue(record(format!("{n}"), n)).is_ok());
    }
    for _ in 0..100 {
        assert!(backend.dequeue_at(0).unwrap().is_some());
    }
    assert!(backend.dequeue_at(0).unwrap().is_none());
}

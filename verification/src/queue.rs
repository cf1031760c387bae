//! The storage interface of the queue, its in-memory implementation, and the
//! facade through which producers and workers use a queue.

use crate::error::QueueError;
use crate::external::{current_timestamp, is_clock_reading};
use crate::job::{JobStatus, JobWrapper};
use crate::pool::{
    eligible, first_index, follows, has_id, in_claim_order, lemma_after_claim_wf,
    lemma_buried_wf, lemma_first_index_absent, lemma_first_index_found, lemma_inserted_wf,
    lemma_noted, lemma_replayed_wf, noted_for, Store,
};
use crate::text::pairs_view;
use crate::stats::{QueueStats, StatsTracker};
use std::collections::VecDeque;
use vstd::prelude::*;

verus! {

/// What a claim at `now` on a store `before` may report: on success the
/// job that the model names together with the store it leaves behind, on
/// failure an unavailable backend and an untouched store.
pub open spec fn claim_outcome(
    before: Store,
    now: i64,
    outcome: Result<Option<JobWrapper>, QueueError>,
    after: Store,
) -> bool {
    match outcome {
        Ok(claimed) => claimed == before.claimed_job(now) && after == before.after_claim(now),
        Err(error) => error is BackendUnavailable && after == before,
    }
}

/// What a store offers to the queue. All operations answer at once; none
/// waits for a job to become available.
///
/// A backend that cannot reach its storage reports
/// [`QueueError::BackendUnavailable`] and leaves its contents as they were.
pub trait QueueBackend {
    /// The contents of the backend. A backend that does not say what it
    /// holds is taken to hold something unknown.
    open spec fn store(&self) -> Store {
        arbitrary()
    }

    /// Whether the backend completes every operation, as one that keeps its
    /// contents in memory does. A backend that does not say so may fail.
    open spec fn infallible(&self) -> bool {
        false
    }

    /// Adds a job to the pool as a pending job, at its place in the claim
    /// order.
    fn enqueue(&mut self, job: JobWrapper) -> (outcome: Result<(), QueueError>)
        requires
            old(self).store().wf(),
            job.attempts < u32::MAX,
        ensures
            final(self).store().wf(),
            final(self).infallible() == old(self).infallible(),
            old(self).infallible() ==> outcome is Ok,
            match outcome {
                Ok(_) => final(self).store() == old(self).store().inserted(job),
                Err(error) => error is BackendUnavailable && final(self).store() == old(
                    self,
                ).store(),
            },
    ;

    /// Claims the first job of the pool that is eligible at `now`: takes it
    /// out of the pool and hands it over as running, with one more attempt
    /// counted. Hands over nothing where no job is eligible.
    fn dequeue_at(&mut self, now: i64) -> (outcome: Result<Option<JobWrapper>, QueueError>)
        requires
            old(self).store().wf(),
        ensures
            final(self).store().wf(),
            final(self).infallible() == old(self).infallible(),
            old(self).infallible() ==> outcome is Ok,
            claim_outcome(old(self).store(), now, outcome, final(self).store()),
    ;

    /// Claims the first job of the pool that is eligible at the current
    /// time.
    fn dequeue(&mut self) -> (outcome: Result<Option<JobWrapper>, QueueError>)
        requires
            old(self).store().wf(),
        ensures
            final(self).store().wf(),
            final(self).infallible() == old(self).infallible(),
            old(self).infallible() ==> outcome is Ok,
            exists|now: i64|
                is_clock_reading(now) && #[trigger] claim_outcome(
                    old(self).store(),
                    now,
                    outcome,
                    final(self).store(),
                ),
    {
        let now: i64 = current_timestamp();
        self.dequeue_at(now)
    }

    /// Takes note that a claimed job ran to completion. The job left the
    /// pool when it was claimed, so the contents stay as they are.
    fn complete(&mut self, job_id: &str) -> (outcome: Result<(), QueueError>)
        ensures
            final(self).store() == old(self).store(),
            final(self).infallible() == old(self).infallible(),
            old(self).infallible() ==> outcome is Ok,
            outcome matches Err(error) ==> error is BackendUnavailable,
    ;

    /// Records that a claimed job failed, and why: the reason becomes the
    /// last one noted for the job's id. Whether the job is retried or given
    /// up is not decided here, so pool and dead-letter store stay as they
    /// are.
    fn fail(&mut self, job_id: &str, error: String) -> (outcome: Result<(), QueueError>)
        ensures
            old(self).store().wf() ==> final(self).store().wf(),
            final(self).infallible() == old(self).infallible(),
            old(self).infallible() ==> outcome is Ok,
            match outcome {
                Ok(_) => final(self).store() == old(self).store().noted(job_id@, error@),
                Err(error) => error is BackendUnavailable && final(self).store() == old(
                    self,
                ).store(),
            },
    ;

    /// The reason of the last failure that was recorded for the job with the
    /// given id, if any was.
    fn last_failure(&self, job_id: &str) -> (outcome: Result<Option<String>, QueueError>)
        ensures
            self.infallible() ==> outcome is Ok,
            match outcome {
                Ok(Some(reason)) => self.store().last_failure(job_id@) == Some(reason@),
                Ok(None) => self.store().last_failure(job_id@) is None,
                Err(error) => error is BackendUnavailable,
            },
    ;

    /// Returns a job to the pool for another attempt, as a pending job at
    /// its place in the claim order.
    fn retry(&mut self, job: JobWrapper) -> (outcome: Result<(), QueueError>)
        requires
            old(self).store().wf(),
            job.attempts < u32::MAX,
        ensures
            final(self).store().wf(),
            final(self).infallible() == old(self).infallible(),
            old(self).infallible() ==> outcome is Ok,
            match outcome {
                Ok(_) => final(self).store() == old(self).store().inserted(job),
                Err(error) => error is BackendUnavailable && final(self).store() == old(
                    self,
                ).store(),
            },
    ;

    /// Appends a job to the dead-letter store, marked as dead-lettered.
    fn move_to_dead_letter(&mut self, job: JobWrapper) -> (outcome: Result<(), QueueError>)
        requires
            old(self).store().wf(),
        ensures
            final(self).store().wf(),
            final(self).infallible() == old(self).infallible(),
            old(self).infallible() ==> outcome is Ok,
            match outcome {
                Ok(_) => final(self).store() == old(self).store().buried(job),
                Err(error) => error is BackendUnavailable && final(self).store() == old(
                    self,
                ).store(),
            },
    ;

    /// The dead-lettered jobs, oldest first.
    fn list_dead_letter(&self) -> (outcome: Result<Vec<JobWrapper>, QueueError>)
        ensures
            self.infallible() ==> outcome is Ok,
            match outcome {
                Ok(jobs) => jobs@ == self.store().dead_letter,
                Err(error) => error is BackendUnavailable,
            },
    ;

    /// Replays the dead-lettered job with the given id: takes it out of the
    /// dead-letter store and returns it to the pool as a pending job with a
    /// new attempt budget and no recorded failure.
    ///
    /// Reports [`QueueError::NotFound`] where the dead-letter store holds no
    /// job with that id. Nothing changes on an error.
    fn retry_from_dead_letter(&mut self, job_id: &str) -> (outcome: Result<(), QueueError>)
        requires
            old(self).store().wf(),
        ensures
            final(self).store().wf(),
            final(self).infallible() == old(self).infallible(),
            match outcome {
                Ok(_) => old(self).store().dead_index(job_id@) is Some && final(self).store()
                    == old(self).store().replayed(job_id@),
                Err(error) => {
                    &&& final(self).store() == old(self).store()
                    &&& error is NotFound || error is BackendUnavailable
                    &&& error is NotFound <==> old(self).store().dead_index(job_id@) is None
                },
            },
            old(self).infallible() ==> (outcome is Ok <==> old(self).store().dead_index(job_id@)
                is Some),
    ;
}

/// A backend that keeps its jobs in memory. It completes every operation.
pub struct MemoryBackend {
    queue: VecDeque<JobWrapper>,
    dead_letter: Vec<JobWrapper>,
    failures: Vec<(String, String)>,
}

impl MemoryBackend {
    /// An empty backend.
    pub fn new() -> (backend: MemoryBackend)
        ensures
            backend.store() == Store::empty(),
            backend.store().wf(),
            backend.infallible(),
    {
        let backend = MemoryBackend {
            queue: VecDeque::new(),
            dead_letter: Vec::new(),
            failures: Vec::new(),
        };
        assert(backend.store().failures =~= Store::empty().failures);
        backend
    }
}

impl Default for MemoryBackend {
    fn default() -> (backend: MemoryBackend)
        ensures
            backend.store() == Store::empty(),
            backend.store().wf(),
            backend.infallible(),
    {
        MemoryBackend::new()
    }
}

impl QueueBackend for MemoryBackend {
    closed spec fn store(&self) -> Store {
        Store {
            pending: self.queue@,
            dead_letter: self.dead_letter@,
            failures: pairs_view(self.failures@),
        }
    }

    open spec fn infallible(&self) -> bool {
        true
    }

    fn enqueue(&mut self, job: JobWrapper) -> (outcome: Result<(), QueueError>) {
        self.insert_pending(job);
        Ok(())
    }

    fn dequeue_at(&mut self, now: i64) -> (outcome: Result<Option<JobWrapper>, QueueError>) {
        let ghost before = self.store();
        let len: usize = self.queue.len();
        let mut pos: usize = 0;
        while pos < len && !self.queue[pos].is_eligible(now)
            invariant
                len == self.queue@.len(),
                self.store() == before,
                pos <= len,
                forall|k: int| 0 <= k < pos ==> !eligible(now)(#[trigger] before.pending[k]),
            decreases len - pos,
        {
            pos = pos + 1;
        }
        proof {
            lemma_after_claim_wf(before, now);
        }
        if pos < len {
            proof {
                lemma_first_index_found(before.pending, eligible(now), pos as int);
            }
            match self.queue.remove(pos) {
                Some(job) => {
                    let mut job = job;
                    job.status = JobStatus::Running;
                    job.attempts = job.attempts + 1;
                    Ok(Some(job))
                },
                None => Ok(None),
            }
        } else {
            proof {
                lemma_first_index_absent(before.pending, eligible(now));
            }
            Ok(None)
        }
    }

    fn complete(&mut self, job_id: &str) -> (outcome: Result<(), QueueError>) {
        Ok(())
    }

    fn fail(&mut self, job_id: &str, error: String) -> (outcome: Result<(), QueueError>) {
        let ghost before = self.store();
        let wanted: String = job_id.to_owned();
        let pos: usize = self.note_position(job_id);
        proof {
            lemma_noted(before, job_id@, error@, job_id@);
        }
        if pos < self.failures.len() {
            self.failures.set(pos, (wanted, error));
            assert(pairs_view(self.failures@) =~= before.failures.update(
                pos as int,
                (job_id@, error@),
            ));
        } else {
            self.failures.push((wanted, error));
            assert(pairs_view(self.failures@) =~= before.failures.push((job_id@, error@)));
        }
        Ok(())
    }

    fn last_failure(&self, job_id: &str) -> (outcome: Result<Option<String>, QueueError>) {
        let pos: usize = self.note_position(job_id);
        if pos < self.failures.len() {
            Ok(Some(self.failures[pos].1.clone()))
        } else {
            Ok(None)
        }
    }

    fn retry(&mut self, job: JobWrapper) -> (outcome: Result<(), QueueError>) {
        self.enqueue(job)
    }

    fn move_to_dead_letter(&mut self, job: JobWrapper) -> (outcome: Result<(), QueueError>) {
        let mut job = job;
        job.status = JobStatus::DeadLetter;
        proof {
            lemma_buried_wf(self.store(), job);
        }
        self.dead_letter.push(job);
        Ok(())
    }

    fn list_dead_letter(&self) -> (outcome: Result<Vec<JobWrapper>, QueueError>) {
        let mut jobs: Vec<JobWrapper> = Vec::new();
        let len: usize = self.dead_letter.len();
        let mut i: usize = 0;
        while i < len
            invariant
                len == self.dead_letter@.len(),
                i <= len,
                jobs@ == self.dead_letter@.take(i as int),
            decreases len - i,
        {
            jobs.push(self.dead_letter[i].clone());
            assert(self.dead_letter@.take(i + 1) == self.dead_letter@.take(i as int).push(
                self.dead_letter@[i as int],
            ));
            i = i + 1;
        }
        assert(self.dead_letter@.take(len as int) == self.dead_letter@);
        Ok(jobs)
    }

    fn retry_from_dead_letter(&mut self, job_id: &str) -> (outcome: Result<(), QueueError>) {
        let ghost before = self.store();
        let wanted: String = job_id.to_owned();
        let len: usize = self.dead_letter.len();
        let mut pos: usize = 0;
        while pos < len && self.dead_letter[pos].id != wanted
            invariant
                len == self.dead_letter@.len(),
                self.store() == before,
                wanted@ == job_id@,
                pos <= len,
                forall|k: int| 0 <= k < pos ==> !has_id(job_id@)(#[trigger] before.dead_letter[k]),
            decreases len - pos,
        {
            pos = pos + 1;
        }
        proof {
            lemma_replayed_wf(before, job_id@);
        }
        if pos < len {
            proof {
                lemma_first_index_found(before.dead_letter, has_id(job_id@), pos as int);
            }
            let mut job = self.dead_letter.remove(pos);
            job.status = JobStatus::Pending;
            job.attempts = 0;
            job.error = None;
            self.insert_pending(job);
            Ok(())
        } else {
            proof {
                lemma_first_index_absent(before.dead_letter, has_id(job_id@));
            }
            Err(QueueError::NotFound)
        }
    }
}

impl MemoryBackend {
    /// The position of the failure note for the given id, or the number of
    /// notes where none concerns the id.
    fn note_position(&self, job_id: &str) -> (pos: usize)
        ensures
            pos <= self.failures@.len(),
            pos < self.failures@.len() ==> first_index(
                self.store().failures,
                noted_for(job_id@),
            ) == Some(pos as int),
            pos == self.failures@.len() ==> first_index(
                self.store().failures,
                noted_for(job_id@),
            ) is None,
    {
        let ghost notes = self.store().failures;
        let wanted: String = job_id.to_owned();
        let len: usize = self.failures.len();
        let mut pos: usize = 0;
        while pos < len && self.failures[pos].0 != wanted
            invariant
                len == self.failures@.len(),
                notes == pairs_view(self.failures@),
                wanted@ == job_id@,
                pos <= len,
                forall|k: int| 0 <= k < pos ==> !noted_for(job_id@)(#[trigger] notes[k]),
            decreases len - pos,
        {
            pos = pos + 1;
        }
        proof {
            if pos < len {
                lemma_first_index_found(notes, noted_for(job_id@), pos as int);
            } else {
                lemma_first_index_absent(notes, noted_for(job_id@));
            }
        }
        pos
    }

    /// Whether `other` may not be claimed before `job`: it has the lower
    /// priority, or the same priority and was created later.
    fn must_follow(other: &JobWrapper, job: &JobWrapper) -> (must: bool)
        ensures
            must == follows(*job)(*other),
    {
        other.priority < job.priority || (other.priority == job.priority && other.created_at
            > job.created_at)
    }

    /// Places a job in the pool as a pending job: before the first job that
    /// may not be claimed before it, or at the end.
    fn insert_pending(&mut self, job: JobWrapper)
        requires
            in_claim_order(old(self).queue@),
        ensures
            final(self).store() == old(self).store().inserted(job),
            job.attempts < u32::MAX && old(self).store().wf() ==> final(self).store().wf(),
    {
        let ghost before = self.store();
        let len: usize = self.queue.len();
        let mut pos: usize = 0;
        while pos < len && !Self::must_follow(&self.queue[pos], &job)
            invariant
                len == self.queue@.len(),
                self.store() == before,
                pos <= len,
                forall|k: int| 0 <= k < pos ==> !follows(job)(#[trigger] before.pending[k]),
            decreases len - pos,
        {
            pos = pos + 1;
        }
        proof {
            if pos < len {
                lemma_first_index_found(before.pending, follows(job), pos as int);
            } else {
                lemma_first_index_absent(before.pending, follows(job));
            }
            if job.attempts < u32::MAX && before.wf() {
                lemma_inserted_wf(before, job);
            }
        }
        let mut job = job;
        job.status = JobStatus::Pending;
        self.queue.insert(pos, job);
    }
}

/// The state of a queue: the contents of its backend and its statistics.
pub struct QueueState {
    /// The contents of the backend.
    pub store: Store,
    /// The statistics kept beside it.
    pub stats: QueueStats,
}

impl QueueState {
    /// The state of a queue that has seen nothing yet.
    pub open spec fn empty() -> QueueState {
        QueueState { store: Store::empty(), stats: QueueStats::zero() }
    }

    /// The state after `job` was enqueued.
    pub open spec fn enqueued(self, job: JobWrapper) -> QueueState {
        QueueState { store: self.store.inserted(job), stats: self.stats.after_enqueue() }
    }

    /// The state after a claim at `now`. The statistics move only where a
    /// job was handed out.
    pub open spec fn dequeued(self, now: i64) -> QueueState {
        match self.store.claim_index(now) {
            Some(_) => QueueState {
                store: self.store.after_claim(now),
                stats: self.stats.after_claim(),
            },
            None => self,
        }
    }

    /// The state after a run was reported as completed.
    pub open spec fn completed(self) -> QueueState {
        QueueState { stats: self.stats.after_processed(), ..self }
    }

    /// The state after a run of the job with the given id was reported as
    /// failed for the given reason.
    pub open spec fn failed(self, id: Seq<char>, reason: Seq<char>) -> QueueState {
        QueueState { store: self.store.noted(id, reason), stats: self.stats.after_failed() }
    }

    /// The state after `job` was handed back for another attempt.
    pub open spec fn retried(self, job: JobWrapper) -> QueueState {
        QueueState { store: self.store.inserted(job), stats: self.stats.after_retried() }
    }

    /// The state after `job` was dead-lettered.
    pub open spec fn dead_lettered(self, job: JobWrapper) -> QueueState {
        QueueState { store: self.store.buried(job), stats: self.stats.after_dead_letter() }
    }

    /// The state after the dead-lettered job with the given id was replayed.
    /// The statistics stay as they are.
    pub open spec fn replayed(self, id: Seq<char>) -> QueueState {
        QueueState { store: self.store.replayed(id), ..self }
    }
}

/// What a claim at `now` on a queue in state `before` may report: on
/// success the job that the model names together with the state it leaves
/// behind, on failure an unavailable backend and an untouched state.
pub open spec fn dequeue_outcome(
    before: QueueState,
    now: i64,
    outcome: Result<Option<JobWrapper>, QueueError>,
    after: QueueState,
) -> bool {
    match outcome {
        Ok(claimed) => claimed == before.store.claimed_job(now) && after == before.dequeued(now),
        Err(error) => error is BackendUnavailable && after == before,
    }
}

/// The queue: the one handle through which producers enqueue jobs and
/// workers claim them and report back. Every operation goes to the backend
/// first and updates the statistics only once the backend has accepted it.
pub struct Queue<B: QueueBackend> {
    backend: B,
    stats: StatsTracker,
}

impl<B: QueueBackend> View for Queue<B> {
    type V = QueueState;

    closed spec fn view(&self) -> QueueState {
        QueueState { store: self.backend.store(), stats: self.stats@ }
    }
}

impl Queue<MemoryBackend> {
    /// A queue that keeps its jobs in memory.
    pub fn memory() -> (queue: Queue<MemoryBackend>)
        ensures
            queue@ == QueueState::empty(),
            queue.wf(),
            queue.infallible(),
    {
        Queue::new(MemoryBackend::new())
    }
}

impl<B: QueueBackend> Queue<B> {
    /// Whether the queue's backend completes every operation.
    pub closed spec fn infallible(&self) -> bool {
        self.backend.infallible()
    }

    /// The invariant of a queue: its store is well formed.
    pub open spec fn wf(&self) -> bool {
        self@.store.wf()
    }

    /// A queue on the given backend, with its statistics at zero.
    pub fn new(backend: B) -> (queue: Queue<B>)
        ensures
            queue@ == (QueueState { store: backend.store(), stats: QueueStats::zero() }),
            queue.infallible() == backend.infallible(),
    {
        Queue { backend, stats: StatsTracker::new() }
    }

    /// Adds a job to the queue and returns its id.
    pub fn enqueue(&mut self, job: JobWrapper) -> (outcome: Result<String, QueueError>)
        requires
            old(self).wf(),
            job.attempts < u32::MAX,
            old(self)@.stats.total_enqueued < u64::MAX,
            old(self)@.stats.pending_count < u64::MAX,
        ensures
            final(self).wf(),
            final(self).infallible() == old(self).infallible(),
            old(self).infallible() ==> outcome is Ok,
            match outcome {
                Ok(id) => id == job.id && final(self)@ == old(self)@.enqueued(job),
                Err(error) => error is BackendUnavailable && final(self)@ == old(self)@,
            },
    {
        let job_id = job.id.clone();
        match self.backend.enqueue(job) {
            Ok(_) => {
                self.stats.increment_enqueued();
                Ok(job_id)
            },
            Err(error) => Err(error),
        }
    }

    /// Claims the first job that is eligible at `now`, if there is one, and
    /// hands it over as running.
    pub fn dequeue_at(&mut self, now: i64) -> (outcome: Result<Option<JobWrapper>, QueueError>)
        requires
            old(self).wf(),
            old(self)@.stats.running_count < u64::MAX,
        ensures
            final(self).wf(),
            final(self).infallible() == old(self).infallible(),
            old(self).infallible() ==> outcome is Ok,
            dequeue_outcome(old(self)@, now, outcome, final(self)@),
    {
        match self.backend.dequeue_at(now) {
            Ok(claimed) => {
                if claimed.is_some() {
                    self.stats.mark_running();
                }
                Ok(claimed)
            },
            Err(error) => Err(error),
        }
    }

    /// Claims the first job that is eligible at the current time, if there
    /// is one, and hands it over as running.
    pub fn dequeue(&mut self) -> (outcome: Result<Option<JobWrapper>, QueueError>)
        requires
            old(self).wf(),
            old(self)@.stats.running_count < u64::MAX,
        ensures
            final(self).wf(),
            final(self).infallible() == old(self).infallible(),
            old(self).infallible() ==> outcome is Ok,
            exists|now: i64|
                is_clock_reading(now) && #[trigger] dequeue_outcome(
                    old(self)@,
                    now,
                    outcome,
                    final(self)@,
                ),
    {
        let now: i64 = current_timestamp();
        self.dequeue_at(now)
    }

    /// Reports that the claimed job with the given id ran to completion.
    pub fn complete(&mut self, job_id: &str) -> (outcome: Result<(), QueueError>)
        requires
            old(self)@.stats.total_processed < u64::MAX,
        ensures
            final(self).infallible() == old(self).infallible(),
            old(self).infallible() ==> outcome is Ok,
            match outcome {
                Ok(_) => final(self)@ == old(self)@.completed(),
                Err(error) => error is BackendUnavailable && final(self)@ == old(self)@,
            },
    {
        match self.backend.complete(job_id) {
            Ok(_) => {
                self.stats.increment_processed();
                Ok(())
            },
            Err(error) => Err(error),
        }
    }

    /// Reports that the claimed job with the given id failed, and why; the
    /// reason is kept as the last one for that id. Whether the job is
    /// retried or given up is for the caller to decide.
    pub fn fail(&mut self, job_id: &str, error: String) -> (outcome: Result<(), QueueError>)
        requires
            old(self)@.stats.total_failed < u64::MAX,
        ensures
            old(self).wf() ==> final(self).wf(),
            final(self).infallible() == old(self).infallible(),
            old(self).infallible() ==> outcome is Ok,
            match outcome {
                Ok(_) => final(self)@ == old(self)@.failed(job_id@, error@),
                Err(error) => error is BackendUnavailable && final(self)@ == old(self)@,
            },
    {
        match self.backend.fail(job_id, error) {
            Ok(_) => {
                self.stats.increment_failed();
                Ok(())
            },
            Err(error) => Err(error),
        }
    }

    /// The reason of the last failure that was reported for the job with the
    /// given id, if any was.
    pub fn last_failure(&self, job_id: &str) -> (outcome: Result<Option<String>, QueueError>)
        ensures
            self.infallible() ==> outcome is Ok,
            match outcome {
                Ok(Some(reason)) => self@.store.last_failure(job_id@) == Some(reason@),
                Ok(None) => self@.store.last_failure(job_id@) is None,
                Err(error) => error is BackendUnavailable,
            },
    {
        self.backend.last_failure(job_id)
    }

    /// Returns a job to the pool for another attempt.
    pub fn retry(&mut self, job: JobWrapper) -> (outcome: Result<(), QueueError>)
        requires
            old(self).wf(),
            job.attempts < u32::MAX,
            old(self)@.stats.total_retried < u64::MAX,
        ensures
            final(self).wf(),
            final(self).infallible() == old(self).infallible(),
            old(self).infallible() ==> outcome is Ok,
            match outcome {
                Ok(_) => final(self)@ == old(self)@.retried(job),
                Err(error) => error is BackendUnavailable && final(self)@ == old(self)@,
            },
    {
        match self.backend.retry(job) {
            Ok(_) => {
                self.stats.increment_retried();
                Ok(())
            },
            Err(error) => Err(error),
        }
    }

    /// Gives a job up: moves it to the dead-letter store.
    pub fn move_to_dead_letter(&mut self, job: JobWrapper) -> (outcome: Result<(), QueueError>)
        requires
            old(self).wf(),
            old(self)@.stats.dead_letter_count < u64::MAX,
        ensures
            final(self).wf(),
            final(self).infallible() == old(self).infallible(),
            old(self).infallible() ==> outcome is Ok,
            match outcome {
                Ok(_) => final(self)@ == old(self)@.dead_lettered(job),
                Err(error) => error is BackendUnavailable && final(self)@ == old(self)@,
            },
    {
        match self.backend.move_to_dead_letter(job) {
            Ok(_) => {
                self.stats.increment_dead_letter();
                Ok(())
            },
            Err(error) => Err(error),
        }
    }

    /// The dead-lettered jobs, oldest first.
    pub fn list_dead_letter(&self) -> (outcome: Result<Vec<JobWrapper>, QueueError>)
        ensures
            self.infallible() ==> outcome is Ok,
            match outcome {
                Ok(jobs) => jobs@ == self@.store.dead_letter,
                Err(error) => error is BackendUnavailable,
            },
    {
        self.backend.list_dead_letter()
    }

    /// Replays the dead-lettered job with the given id: returns it to the
    /// pool as a pending job with a new attempt budget and no recorded
    /// failure.
    ///
    /// Reports [`QueueError::NotFound`] where no job with that id is
    /// dead-lettered. Nothing changes on an error.
    pub fn retry_from_dead_letter(&mut self, job_id: &str) -> (outcome: Result<(), QueueError>)
        requires
            old(self).wf(),
        ensures
            final(self).wf(),
            final(self).infallible() == old(self).infallible(),
            match outcome {
                Ok(_) => old(self)@.store.dead_index(job_id@) is Some && final(self)@ == old(
                    self,
                )@.replayed(job_id@),
                Err(error) => {
                    &&& final(self)@ == old(self)@
                    &&& error is NotFound || error is BackendUnavailable
                    &&& error is NotFound <==> old(self)@.store.dead_index(job_id@) is None
                },
            },
            old(self).infallible() ==> (outcome is Ok <==> old(self)@.store.dead_index(job_id@)
                is Some),
    {
        self.backend.retry_from_dead_letter(job_id)
    }

    /// The current statistics.
    pub fn get_stats(&self) -> (stats: QueueStats)
        ensures
            stats == self@.stats,
    {
        self.stats.get_stats()
    }
}

} // verus!

//! The mathematical model of a job store: the pool of jobs waiting to be
//! claimed, kept in claim order, and the dead-letter store, kept in arrival
//! order. The executable backends are specified against this model.

use crate::job::{JobStatus, JobWrapper};
use vstd::prelude::*;

verus! {

/// `i` is the first position of `s` whose element satisfies `pred`.
pub open spec fn is_first_index<T>(s: Seq<T>, pred: spec_fn(T) -> bool, i: int) -> bool {
    &&& 0 <= i < s.len()
    &&& pred(s[i])
    &&& forall|k: int| 0 <= k < i ==> !pred(#[trigger] s[k])
}

/// The first position of `s` whose element satisfies `pred`, if there is
/// one.
pub open spec fn first_index<T>(s: Seq<T>, pred: spec_fn(T) -> bool) -> Option<int> {
    if exists|i: int| is_first_index(s, pred, i) {
        Some(choose|i: int| is_first_index(s, pred, i))
    } else {
        None
    }
}

/// A position that is first is the one `first_index` names.
pub proof fn lemma_first_index_found<T>(s: Seq<T>, pred: spec_fn(T) -> bool, i: int)
    requires
        is_first_index(s, pred, i),
    ensures
        first_index(s, pred) == Some(i),
{
    let j = choose|j: int| is_first_index(s, pred, j);
    assert(is_first_index(s, pred, j));
    if j < i {
        assert(!pred(s[j]));
    }
    if i < j {
        assert(!pred(s[i]));
    }
}

/// Where no element satisfies `pred`, `first_index` names none.
pub proof fn lemma_first_index_absent<T>(s: Seq<T>, pred: spec_fn(T) -> bool)
    requires
        forall|k: int| 0 <= k < s.len() ==> !pred(#[trigger] s[k]),
    ensures
        first_index(s, pred) is None,
{
}

/// Where some element satisfies `pred`, `first_index` names the first such
/// position, which is at or before any other.
pub proof fn lemma_first_index_exists<T>(s: Seq<T>, pred: spec_fn(T) -> bool, k: int)
    requires
        0 <= k < s.len(),
        pred(s[k]),
    ensures
        first_index(s, pred) matches Some(i) && is_first_index(s, pred, i) && i <= k,
    decreases k,
{
    if exists|j: int| 0 <= j < k && pred(s[j]) {
        let j = choose|j: int| 0 <= j < k && pred(s[j]);
        lemma_first_index_exists(s, pred, j);
    } else {
        assert(is_first_index(s, pred, k));
        lemma_first_index_found(s, pred, k);
    }
}

/// What `first_index` names is a first position.
pub proof fn lemma_first_index_is_first<T>(s: Seq<T>, pred: spec_fn(T) -> bool)
    ensures
        first_index(s, pred) matches Some(i) ==> is_first_index(s, pred, i),
        first_index(s, pred) is None ==> forall|k: int|
            0 <= k < s.len() ==> !pred(#[trigger] s[k]),
{
    if first_index(s, pred) is None {
        assert forall|k: int| 0 <= k < s.len() implies !pred(#[trigger] s[k]) by {
            if pred(s[k]) {
                lemma_first_index_exists(s, pred, k);
            }
        }
    }
}

/// The claim order: `a` may be claimed before `b` when it has the higher
/// priority, or the same priority and was created no later.
pub open spec fn claim_order(a: JobWrapper, b: JobWrapper) -> bool {
    a.priority > b.priority || (a.priority == b.priority && a.created_at <= b.created_at)
}

/// The jobs that must follow `job` in the pool: those that may not be
/// claimed before it.
pub open spec fn follows(job: JobWrapper) -> spec_fn(JobWrapper) -> bool {
    |other: JobWrapper| !claim_order(other, job)
}

/// The jobs that may be claimed at `now`.
pub open spec fn eligible(now: i64) -> spec_fn(JobWrapper) -> bool {
    |job: JobWrapper| job.eligible_at(now)
}

/// No two of the jobs share an id.
pub open spec fn distinct_ids(jobs: Seq<JobWrapper>) -> bool {
    forall|i: int, j: int|
        0 <= i < j < jobs.len() ==> (#[trigger] jobs[i]).id@ != (#[trigger] jobs[j]).id@
}

/// The jobs with the given id.
pub open spec fn has_id(id: Seq<char>) -> spec_fn(JobWrapper) -> bool {
    |job: JobWrapper| job.id@ == id
}

/// The failure notes that concern the job with the given id.
pub open spec fn noted_for(id: Seq<char>) -> spec_fn((Seq<char>, Seq<char>)) -> bool {
    |note: (Seq<char>, Seq<char>)| note.0 == id
}

/// A pool is in claim order when every job may be claimed before all that
/// follow it.
pub open spec fn in_claim_order(pool: Seq<JobWrapper>) -> bool {
    forall|i: int, j: int| 0 <= i < j < pool.len() ==> claim_order(#[trigger] pool[i], #[trigger] pool[j])
}

/// The contents of a job store.
pub struct Store {
    /// The jobs waiting to be claimed, in claim order.
    pub pending: Seq<JobWrapper>,
    /// The dead-lettered jobs, oldest first.
    pub dead_letter: Seq<JobWrapper>,
    /// The failure notes: for each job id that a failure was reported for,
    /// the id and the reason of the last such failure.
    pub failures: Seq<(Seq<char>, Seq<char>)>,
}

impl Store {
    /// The store that holds nothing.
    pub open spec fn empty() -> Store {
        Store { pending: Seq::empty(), dead_letter: Seq::empty(), failures: Seq::empty() }
    }

    /// The invariant of a store: the pool is in claim order and holds only
    /// pending jobs whose attempt count can still grow, and the dead-letter
    /// store holds only dead-lettered jobs.
    pub open spec fn wf(self) -> bool {
        &&& in_claim_order(self.pending)
        &&& forall|i: int|
            0 <= i < self.pending.len() ==> {
                &&& (#[trigger] self.pending[i]).status == JobStatus::Pending
                &&& self.pending[i].attempts < u32::MAX
            }
        &&& forall|i: int|
            0 <= i < self.dead_letter.len() ==> (#[trigger] self.dead_letter[i]).status
                == JobStatus::DeadLetter
    }

    /// Where a job enters the pool: before the first job that may not be
    /// claimed before it, or at the end.
    pub open spec fn insert_position(self, job: JobWrapper) -> int {
        match first_index(self.pending, follows(job)) {
            Some(i) => i,
            None => self.pending.len() as int,
        }
    }

    /// The store after `job` entered the pool as a pending job.
    pub open spec fn inserted(self, job: JobWrapper) -> Store {
        Store {
            pending: self.pending.insert(
                self.insert_position(job),
                job.with_status(JobStatus::Pending),
            ),
            ..self
        }
    }

    /// The position of the job that a claim at `now` takes: the first one in
    /// the pool that is eligible.
    pub open spec fn claim_index(self, now: i64) -> Option<int> {
        first_index(self.pending, eligible(now))
    }

    /// The job that a claim at `now` hands out, marked as running.
    pub open spec fn claimed_job(self, now: i64) -> Option<JobWrapper> {
        match self.claim_index(now) {
            Some(i) => Some(self.pending[i].claimed()),
            None => None,
        }
    }

    /// The store after a claim at `now`: the claimed job has left the pool.
    pub open spec fn after_claim(self, now: i64) -> Store {
        match self.claim_index(now) {
            Some(i) => Store { pending: self.pending.remove(i), ..self },
            None => self,
        }
    }

    /// The store after the given jobs entered the pool one after the other.
    pub open spec fn inserted_all(self, jobs: Seq<JobWrapper>) -> Store
        decreases jobs.len(),
    {
        if jobs.len() == 0 {
            self
        } else {
            self.inserted_all(jobs.drop_last()).inserted(jobs.last())
        }
    }

    /// The jobs handed out by claiming at `now` until nothing is eligible,
    /// in the order in which they are handed out.
    pub open spec fn drained(self, now: i64) -> Seq<JobWrapper>
        decreases self.pending.len(),
    {
        match self.claim_index(now) {
            Some(i) => {
                if 0 <= i < self.pending.len() {
                    seq![self.pending[i].claimed()] + self.after_claim(now).drained(now)
                } else {
                    Seq::empty()
                }
            },
            None => Seq::empty(),
        }
    }

    /// The store after `job` was dead-lettered.
    pub open spec fn buried(self, job: JobWrapper) -> Store {
        Store { dead_letter: self.dead_letter.push(job.with_status(JobStatus::DeadLetter)), ..self }
    }

    /// The reason of the last failure that was reported for the job with the
    /// given id, if any was.
    pub open spec fn last_failure(self, id: Seq<char>) -> Option<Seq<char>> {
        match first_index(self.failures, noted_for(id)) {
            Some(i) => Some(self.failures[i].1),
            None => None,
        }
    }

    /// The store after a failure of the job with the given id was reported:
    /// the reason takes the place of the one noted for the id before, or is
    /// added to the notes. Pool and dead-letter store stay as they are.
    pub open spec fn noted(self, id: Seq<char>, reason: Seq<char>) -> Store {
        Store {
            failures: match first_index(self.failures, noted_for(id)) {
                Some(i) => self.failures.update(i, (id, reason)),
                None => self.failures.push((id, reason)),
            },
            ..self
        }
    }

    /// The position of the first dead-lettered job with the given id.
    pub open spec fn dead_index(self, id: Seq<char>) -> Option<int> {
        first_index(self.dead_letter, has_id(id))
    }

    /// The store after the dead-lettered job with the given id was replayed:
    /// it has left the dead-letter store and entered the pool with a new
    /// attempt budget. A store that holds no such job is unchanged.
    pub open spec fn replayed(self, id: Seq<char>) -> Store {
        match self.dead_index(id) {
            Some(i) => Store { dead_letter: self.dead_letter.remove(i), ..self }.inserted(
                self.dead_letter[i].revived(),
            ),
            None => self,
        }
    }
}

/// The insert position lies within the pool or at its end, so an insertion
/// lengthens the pool by one and leaves the dead-letter store alone.
pub proof fn lemma_insert_position_bounds(store: Store, job: JobWrapper)
    ensures
        0 <= store.insert_position(job) <= store.pending.len(),
        store.inserted(job).pending.len() == store.pending.len() + 1,
        store.inserted(job).dead_letter == store.dead_letter,
{
    lemma_first_index_is_first(store.pending, follows(job));
}

/// Every job before the insert position may be claimed before the new job,
/// and the new job may be claimed before every job from there on, none of
/// which may be claimed before it.
pub proof fn lemma_insert_position(store: Store, job: JobWrapper)
    requires
        in_claim_order(store.pending),
    ensures
        0 <= store.insert_position(job) <= store.pending.len(),
        forall|k: int|
            0 <= k < store.insert_position(job) ==> claim_order(#[trigger] store.pending[k], job),
        forall|k: int|
            store.insert_position(job) <= k < store.pending.len() ==> claim_order(
                job,
                #[trigger] store.pending[k],
            ) && !claim_order(store.pending[k], job),
{
    lemma_first_index_is_first(store.pending, follows(job));
    let p = store.insert_position(job);
    assert forall|k: int| p <= k < store.pending.len() implies claim_order(
        job,
        #[trigger] store.pending[k],
    ) && !claim_order(store.pending[k], job) by {
        assert(follows(job)(store.pending[p]));
        if p < k {
            assert(claim_order(store.pending[p], store.pending[k]));
        }
    }
    assert forall|k: int| 0 <= k < p implies claim_order(#[trigger] store.pending[k], job) by {
        assert(!follows(job)(store.pending[k]));
    }
}

/// Inserting a job whose attempt count can still grow keeps a store well
/// formed, and lengthens the pool by one.
pub proof fn lemma_inserted_wf(store: Store, job: JobWrapper)
    requires
        store.wf(),
        job.attempts < u32::MAX,
    ensures
        store.inserted(job).wf(),
        store.inserted(job).pending.len() == store.pending.len() + 1,
        store.inserted(job).dead_letter == store.dead_letter,
{
    lemma_insert_position(store, job);
    let p = store.insert_position(job);
    let entry = job.with_status(JobStatus::Pending);
    let after = store.inserted(job).pending;
    assert forall|i: int, j: int| 0 <= i < j < after.len() implies claim_order(
        #[trigger] after[i],
        #[trigger] after[j],
    ) by {
        if j < p {
            assert(after[i] == store.pending[i] && after[j] == store.pending[j]);
        } else if j == p {
            assert(after[i] == store.pending[i]);
        } else if i < p {
            assert(after[i] == store.pending[i] && after[j] == store.pending[j - 1]);
        } else if i == p {
            assert(after[j] == store.pending[j - 1]);
        } else {
            assert(after[i] == store.pending[i - 1] && after[j] == store.pending[j - 1]);
        }
    }
    assert forall|i: int| 0 <= i < after.len() implies (#[trigger] after[i]).status
        == JobStatus::Pending && after[i].attempts < u32::MAX by {
        if i < p {
            assert(after[i] == store.pending[i]);
        } else if i > p {
            assert(after[i] == store.pending[i - 1]);
        }
    }
}

/// A claim keeps a store well formed. Where it hands out a job, that job
/// was eligible, no job ahead of it in the pool was, and the pool is shorter
/// by one.
pub proof fn lemma_after_claim_wf(store: Store, now: i64)
    requires
        store.wf(),
    ensures
        store.after_claim(now).wf(),
        store.after_claim(now).dead_letter == store.dead_letter,
        store.claim_index(now) matches Some(i) ==> {
            &&& is_first_index(store.pending, eligible(now), i)
            &&& store.after_claim(now).pending.len() == store.pending.len() - 1
        },
        store.claim_index(now) is None ==> store.after_claim(now) == store,
{
    lemma_first_index_is_first(store.pending, eligible(now));
    if let Some(i) = store.claim_index(now) {
        let after = store.after_claim(now).pending;
        assert forall|a: int, b: int| 0 <= a < b < after.len() implies claim_order(
            #[trigger] after[a],
            #[trigger] after[b],
        ) by {
            let a0 = if a < i { a } else { a + 1 };
            let b0 = if b < i { b } else { b + 1 };
            assert(after[a] == store.pending[a0] && after[b] == store.pending[b0]);
        }
        assert forall|a: int| 0 <= a < after.len() implies (#[trigger] after[a]).status
            == JobStatus::Pending && after[a].attempts < u32::MAX by {
            let a0 = if a < i { a } else { a + 1 };
            assert(after[a] == store.pending[a0]);
        }
    }
}

/// Dead-lettering a job keeps a store well formed and appends to the
/// dead-letter store.
pub proof fn lemma_buried_wf(store: Store, job: JobWrapper)
    requires
        store.wf(),
    ensures
        store.buried(job).wf(),
        store.buried(job).pending == store.pending,
        store.buried(job).dead_letter.len() == store.dead_letter.len() + 1,
{
    let after = store.buried(job).dead_letter;
    assert forall|i: int| 0 <= i < after.len() implies (#[trigger] after[i]).status
        == JobStatus::DeadLetter by {
        if i < store.dead_letter.len() {
            assert(after[i] == store.dead_letter[i]);
        }
    }
}

/// A replay keeps a store well formed. Where the store holds the id, one
/// job moves from the dead-letter store to the pool.
pub proof fn lemma_replayed_wf(store: Store, id: Seq<char>)
    requires
        store.wf(),
    ensures
        store.replayed(id).wf(),
        store.dead_index(id) matches Some(i) ==> {
            &&& is_first_index(store.dead_letter, has_id(id), i)
            &&& store.replayed(id).dead_letter == store.dead_letter.remove(i)
            &&& store.replayed(id).pending.len() == store.pending.len() + 1
        },
        store.dead_index(id) is None ==> store.replayed(id) == store,
{
    lemma_first_index_is_first(store.dead_letter, has_id(id));
    if let Some(i) = store.dead_index(id) {
        let taken = Store { dead_letter: store.dead_letter.remove(i), ..store };
        assert forall|a: int| 0 <= a < taken.dead_letter.len() implies (
        #[trigger] taken.dead_letter[a]).status == JobStatus::DeadLetter by {
            let a0 = if a < i { a } else { a + 1 };
            assert(taken.dead_letter[a] == store.dead_letter[a0]);
        }
        lemma_inserted_wf(taken, store.dead_letter[i].revived());
    }
}

/// Noting a failure records its reason as the last one for the job and
/// leaves everything else as it is: the notes for other jobs, the pool and
/// the dead-letter store.
pub proof fn lemma_noted(store: Store, id: Seq<char>, reason: Seq<char>, other: Seq<char>)
    ensures
        store.noted(id, reason).last_failure(id) == Some(reason),
        other != id ==> store.noted(id, reason).last_failure(other) == store.last_failure(other),
        store.noted(id, reason).pending == store.pending,
        store.noted(id, reason).dead_letter == store.dead_letter,
        store.wf() ==> store.noted(id, reason).wf(),
{
    let notes = store.failures;
    let after = store.noted(id, reason).failures;
    lemma_first_index_is_first(notes, noted_for(id));
    let at = match first_index(notes, noted_for(id)) {
        Some(i) => i,
        None => notes.len() as int,
    };
    assert(after[at] == (id, reason));
    assert forall|k: int| 0 <= k < after.len() && k != at implies #[trigger] after[k]
        == notes[k] by {}
    assert(is_first_index(after, noted_for(id), at)) by {
        assert(noted_for(id)(after[at]));
        assert forall|k: int| 0 <= k < at implies !noted_for(id)(#[trigger] after[k]) by {
            assert(after[k] == notes[k]);
        }
    }
    lemma_first_index_found(after, noted_for(id), at);
    if other != id {
        lemma_first_index_is_first(notes, noted_for(other));
        assert(!noted_for(other)(after[at]));
        match first_index(notes, noted_for(other)) {
            Some(j) => {
                assert(j != at) by {
                    if at < notes.len() {
                        assert(noted_for(id)(notes[at]));
                    }
                }
                assert(is_first_index(after, noted_for(other), j)) by {
                    assert(after[j] == notes[j]);
                    assert forall|k: int| 0 <= k < j implies !noted_for(other)(
                        #[trigger] after[k],
                    ) by {
                        if k != at {
                            assert(after[k] == notes[k]);
                        }
                    }
                }
                lemma_first_index_found(after, noted_for(other), j);
            },
            None => {
                assert forall|k: int| 0 <= k < after.len() implies !noted_for(other)(
                    #[trigger] after[k],
                ) by {
                    if k != at {
                        assert(after[k] == notes[k]);
                    }
                }
                lemma_first_index_absent(after, noted_for(other));
            },
        }
    }
}

} // verus!

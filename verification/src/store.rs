//! The job tables: the jobs and the dead-letter queue, and every state change
//! that the queue makes to them.
use vstd::prelude::*;
use crate::clock::{now_nanos, shifted, time_in_range, MAX_DELTA_SECS, MAX_TIME_NANOS, MIN_TIME_NANOS, NANOS_PER_SEC, shift_by_secs};
use crate::job::{
    clone_opt_string, job_type_name, new_uuid, priority_rank, DeadLetterJob,
    DeadLetterView, Job, JobStatus, JobView, Priority,
};

verus! {

/// Why a change to the tables was refused.
#[derive(Clone, Copy, Debug, PartialEq, Eq, Structural)]
pub enum StoreError {
    /// A row with the same identifier exists already.
    DuplicateId,
    /// No job has the given identifier.
    JobNotFound,
    /// A computed instant lies outside the range of `chrono::DateTime<Utc>`.
    TimeOutOfRange,
}

/// The tables as mathematical values: the jobs, in the order they were added, and
/// the dead-letter records, likewise.
pub struct JobStoreView {
    pub jobs: Seq<JobView>,
    pub dead_letters: Seq<DeadLetterView>,
}

/// Job identifiers are a primary key.
pub open spec fn job_ids_unique(jobs: Seq<JobView>) -> bool {
    forall|i: int, k: int| 0 <= i < jobs.len() && 0 <= k < jobs.len() && i != k ==> jobs[i].id != jobs[k].id
}

/// Dead-letter identifiers are a primary key.
pub open spec fn letter_ids_unique(letters: Seq<DeadLetterView>) -> bool {
    forall|i: int, k: int|
        0 <= i < letters.len() && 0 <= k < letters.len() && i != k ==> letters[i].id != letters[k].id
}

/// The tables' invariant: both primary keys hold.
pub open spec fn store_wf(s: JobStoreView) -> bool {
    job_ids_unique(s.jobs) && letter_ids_unique(s.dead_letters)
}

pub open spec fn job_views(v: Seq<Job>) -> Seq<JobView> {
    v.map_values(|j: Job| j@)
}

pub open spec fn letter_views(v: Seq<DeadLetterJob>) -> Seq<DeadLetterView> {
    v.map_values(|d: DeadLetterJob| d@)
}

/// Some job has the identifier `id`.
pub open spec fn has_job(jobs: Seq<JobView>, id: Seq<char>) -> bool {
    exists|i: int| 0 <= i < jobs.len() && jobs[i].id == id
}

/// The job with identifier `id`, if there is one.
pub open spec fn find_job(jobs: Seq<JobView>, id: Seq<char>) -> Option<JobView> {
    if has_job(jobs, id) {
        Some(jobs[choose|i: int| 0 <= i < jobs.len() && jobs[i].id == id])
    } else {
        None
    }
}

/// Some dead-letter record has the identifier `id`.
pub open spec fn has_letter_id(letters: Seq<DeadLetterView>, id: Seq<char>) -> bool {
    exists|i: int| 0 <= i < letters.len() && letters[i].id == id
}

/// Some dead-letter record refers to the job `job_id`.
pub open spec fn has_letter_for(letters: Seq<DeadLetterView>, job_id: Seq<char>) -> bool {
    exists|i: int| 0 <= i < letters.len() && letters[i].job_id == job_id
}

/// A job that waits to be run: pending, or retrying after a failure.
pub open spec fn is_waiting(s: JobStatus) -> bool {
    s == JobStatus::Pending || s == JobStatus::Retrying
}

/// A job that a worker may claim at `now`: waiting and due.
pub open spec fn eligible(j: JobView, now: i128) -> bool {
    is_waiting(j.status) && j.run_at <= now
}

/// `a` comes before `b` in the claiming order: higher priority first, and within
/// a priority the older job first.
pub open spec fn outranks(a: JobView, b: JobView) -> bool {
    priority_rank(a.priority) > priority_rank(b.priority) || (priority_rank(a.priority)
        == priority_rank(b.priority) && a.created_at < b.created_at)
}

/// `i` is the job that a claim at `now` takes: an eligible job that no eligible
/// job outranks, and the first such in table order.
pub open spec fn is_claim_index(jobs: Seq<JobView>, now: i128, i: int) -> bool {
    &&& 0 <= i < jobs.len()
    &&& eligible(jobs[i], now)
    &&& forall|k: int|
        0 <= k < jobs.len() && eligible(#[trigger] jobs[k], now) ==> !outranks(jobs[k], jobs[i]) && (k < i
            ==> outranks(jobs[i], jobs[k]))
}

/// The rows that an update touches.
pub enum SelectorView {
    /// The job with this identifier.
    Id(Seq<char>),
    /// Running jobs whose last heartbeat is older than the cutoff.
    Abandoned(i128),
    /// Waiting jobs below High priority created before the cutoff.
    Starving(i128),
}

/// The change an update makes to each row it touches.
pub enum ChangeView {
    /// Claimed by a worker at the instant: running, claimed and heartbeaten then.
    Claim(i128),
    /// Completed at the instant.
    Complete(i128),
    /// Failed with the error, to run again at the second instant; recorded at the third.
    Retry(Seq<char>, i128, i128),
    /// Failed for good with the error, at the instant.
    Kill(Seq<char>, i128),
    /// Heartbeat at the instant.
    Beat(i128),
    /// Handed back to the queue at the instant: pending, unclaimed, no heartbeat.
    Reclaim(i128),
    /// Requeued from the dead-letter queue at the instant: pending, no attempts,
    /// no error, due then.
    Requeue(i128),
    /// Moved up one priority level at the instant.
    Promote(i128),
}

/// A running job whose heartbeat stopped before `cutoff`.
pub open spec fn abandoned(j: JobView, cutoff: i128) -> bool {
    &&& j.status == JobStatus::Running
    &&& j.last_heartbeat is Some
    &&& j.last_heartbeat->0 < cutoff
}

/// A waiting job below High priority that was created before `cutoff`.
pub open spec fn starving(j: JobView, cutoff: i128) -> bool {
    is_waiting(j.status) && priority_rank(j.priority) < 3 && j.created_at < cutoff
}

pub open spec fn selects(sel: SelectorView, j: JobView) -> bool {
    match sel {
        SelectorView::Id(id) => j.id == id,
        SelectorView::Abandoned(cutoff) => abandoned(j, cutoff),
        SelectorView::Starving(cutoff) => starving(j, cutoff),
    }
}

pub open spec fn selector_pred(sel: SelectorView) -> spec_fn(JobView) -> bool {
    |j: JobView| selects(sel, j)
}

/// One priority level up; High stays High.
pub open spec fn promoted(p: Priority) -> Priority {
    match p {
        Priority::Low => Priority::Normal,
        _ => Priority::High,
    }
}

/// The row after a change.
pub open spec fn changed(c: ChangeView, j: JobView) -> JobView {
    match c {
        ChangeView::Claim(now) => JobView {
            status: JobStatus::Running,
            claimed_at: Some(now),
            last_heartbeat: Some(now),
            updated_at: now,
            ..j
        },
        ChangeView::Complete(now) => JobView {
            status: JobStatus::Completed,
            completed_at: Some(now),
            updated_at: now,
            ..j
        },
        ChangeView::Retry(error, run_at, now) => JobView {
            status: JobStatus::Retrying,
            attempt: (j.attempt + 1) as i32,
            error: Some(error),
            run_at,
            updated_at: now,
            ..j
        },
        ChangeView::Kill(error, now) => JobView {
            status: JobStatus::Dead,
            attempt: (j.attempt + 1) as i32,
            error: Some(error),
            updated_at: now,
            ..j
        },
        ChangeView::Beat(now) => JobView { last_heartbeat: Some(now), ..j },
        ChangeView::Reclaim(now) => JobView {
            status: JobStatus::Pending,
            claimed_at: None,
            last_heartbeat: None,
            updated_at: now,
            ..j
        },
        ChangeView::Requeue(now) => JobView {
            status: JobStatus::Pending,
            attempt: 0,
            error: None,
            run_at: now,
            updated_at: now,
            ..j
        },
        ChangeView::Promote(now) => JobView { priority: promoted(j.priority), updated_at: now, ..j },
    }
}

/// The change adds one to the attempt counter.
pub open spec fn counts_attempt(c: ChangeView) -> bool {
    c is Retry || c is Kill
}

/// The jobs after `UPDATE jobs SET <c> WHERE <sel>`.
pub open spec fn update_rows(jobs: Seq<JobView>, sel: SelectorView, c: ChangeView) -> Seq<JobView> {
    jobs.map_values(|j: JobView| if selects(sel, j) { changed(c, j) } else { j })
}

/// The number of rows `WHERE <sel>` touches.
pub open spec fn selected_count(jobs: Seq<JobView>, sel: SelectorView) -> nat {
    jobs.filter(selector_pred(sel)).len()
}

/// No selected row would overflow its attempt counter under the change.
pub open spec fn attempts_fit(jobs: Seq<JobView>, sel: SelectorView, c: ChangeView) -> bool {
    counts_attempt(c) ==> forall|i: int|
        0 <= i < jobs.len() && selects(sel, #[trigger] jobs[i]) ==> jobs[i].attempt < i32::MAX
}

/// The job as `enqueue` stores it: the columns it writes, with the claim, completion,
/// heartbeat and error columns left empty.
pub open spec fn stored_form(j: JobView) -> JobView {
    JobView { claimed_at: None, completed_at: None, last_heartbeat: None, error: None, ..j }
}

/// The dead-letter record written for the (already updated) job `j`.
pub open spec fn letter_for(letter_id: Seq<char>, j: JobView, now: i128) -> DeadLetterView {
    DeadLetterView {
        id: letter_id,
        job_id: j.id,
        job_type: job_type_name(j.job_type),
        payload: j.payload,
        priority: priority_rank(j.priority),
        total_attempts: j.attempt,
        last_error: j.error,
        died_at: now,
    }
}

pub open spec fn not_for_job(job_id: Seq<char>) -> spec_fn(DeadLetterView) -> bool {
    |d: DeadLetterView| d.job_id != job_id
}

/// The rows an update touches, in executable form.
pub(crate) enum Selector {
    Id(String),
    Abandoned(i128),
    Starving(i128),
}

impl View for Selector {
    type V = SelectorView;

    closed spec fn view(&self) -> SelectorView {
        match self {
            Selector::Id(s) => SelectorView::Id(s@),
            Selector::Abandoned(c) => SelectorView::Abandoned(*c),
            Selector::Starving(c) => SelectorView::Starving(*c),
        }
    }
}

/// The change an update makes, in executable form.
pub(crate) enum Change {
    Claim(i128),
    Complete(i128),
    Retry(String, i128, i128),
    Kill(String, i128),
    Beat(i128),
    Reclaim(i128),
    Requeue(i128),
    Promote(i128),
}

impl View for Change {
    type V = ChangeView;

    closed spec fn view(&self) -> ChangeView {
        match self {
            Change::Claim(n) => ChangeView::Claim(*n),
            Change::Complete(n) => ChangeView::Complete(*n),
            Change::Retry(e, r, n) => ChangeView::Retry(e@, *r, *n),
            Change::Kill(e, n) => ChangeView::Kill(e@, *n),
            Change::Beat(n) => ChangeView::Beat(*n),
            Change::Reclaim(n) => ChangeView::Reclaim(*n),
            Change::Requeue(n) => ChangeView::Requeue(*n),
            Change::Promote(n) => ChangeView::Promote(*n),
        }
    }
}

fn select(sel: &Selector, j: &Job) -> (r: bool)
    ensures
        r == selects(sel@, j@),
{
    match sel {
        Selector::Id(id) => j.id == *id,
        Selector::Abandoned(cutoff) => match j.status {
            JobStatus::Running => match j.last_heartbeat {
                Some(h) => h < *cutoff,
                None => false,
            },
            _ => false,
        },
        Selector::Starving(cutoff) => {
            let waiting = match j.status {
                JobStatus::Pending => true,
                JobStatus::Retrying => true,
                _ => false,
            };
            waiting && j.priority.as_i32() < 3 && j.created_at < *cutoff
        },
    }
}

fn apply_change(c: &Change, j: &Job) -> (r: Job)
    requires
        counts_attempt(c@) ==> j.attempt < i32::MAX,
    ensures
        r@ == changed(c@, j@),
{
    let mut r = j.clone();
    match c {
        Change::Claim(now) => {
            r.status = JobStatus::Running;
            r.claimed_at = Some(*now);
            r.last_heartbeat = Some(*now);
            r.updated_at = *now;
        },
        Change::Complete(now) => {
            r.status = JobStatus::Completed;
            r.completed_at = Some(*now);
            r.updated_at = *now;
        },
        Change::Retry(error, run_at, now) => {
            r.status = JobStatus::Retrying;
            r.attempt = j.attempt + 1;
            r.error = Some(error.clone());
            r.run_at = *run_at;
            r.updated_at = *now;
        },
        Change::Kill(error, now) => {
            r.status = JobStatus::Dead;
            r.attempt = j.attempt + 1;
            r.error = Some(error.clone());
            r.updated_at = *now;
        },
        Change::Beat(now) => {
            r.last_heartbeat = Some(*now);
        },
        Change::Reclaim(now) => {
            r.status = JobStatus::Pending;
            r.claimed_at = None;
            r.last_heartbeat = None;
            r.updated_at = *now;
        },
        Change::Requeue(now) => {
            r.status = JobStatus::Pending;
            r.attempt = 0;
            r.error = None;
            r.run_at = *now;
            r.updated_at = *now;
        },
        Change::Promote(now) => {
            r.priority = match j.priority {
                Priority::Low => Priority::Normal,
                _ => Priority::High,
            };
            r.updated_at = *now;
        },
    }
    r
}

/// A change never touches a job's identifier, so the primary key survives any update.
pub proof fn lemma_update_keeps_ids(jobs: Seq<JobView>, sel: SelectorView, c: ChangeView)
    ensures
        update_rows(jobs, sel, c).len() == jobs.len(),
        forall|i: int| 0 <= i < jobs.len() ==> #[trigger] update_rows(jobs, sel, c)[i].id == jobs[i].id,
        job_ids_unique(jobs) ==> job_ids_unique(update_rows(jobs, sel, c)),
{
}

/// With a primary key, the job found for an identifier is the row that has it.
pub proof fn lemma_find_job_at(jobs: Seq<JobView>, k: int)
    requires
        job_ids_unique(jobs),
        0 <= k < jobs.len(),
    ensures
        find_job(jobs, jobs[k].id) == Some(jobs[k]),
{
    let id = jobs[k].id;
    assert(has_job(jobs, id));
    let c = choose|i: int| 0 <= i < jobs.len() && jobs[i].id == id;
    assert(c == k);
}

/// The tables after a job fails for good (`UPDATE ... status = 'dead'`, then the
/// copy into the dead-letter queue under the identifier `letter_id`), with the
/// outcome. The job becomes dead and its record enters the dead-letter queue
/// together, or nothing changes: a missing job, or a clash of dead-letter
/// identifiers, is an error that leaves both tables as they were.
pub open spec fn kill_outcome(
    s: JobStoreView,
    id: Seq<char>,
    error: Seq<char>,
    now: i128,
    letter_id: Seq<char>,
) -> (JobStoreView, Result<(), StoreError>) {
    let jobs = update_rows(s.jobs, SelectorView::Id(id), ChangeView::Kill(error, now));
    if !has_job(s.jobs, id) {
        (s, Err(StoreError::JobNotFound))
    } else if has_letter_id(s.dead_letters, letter_id) {
        (s, Err(StoreError::DuplicateId))
    } else {
        (
            JobStoreView {
                jobs,
                dead_letters: s.dead_letters.push(letter_for(letter_id, find_job(jobs, id)->0, now)),
            },
            Ok(()),
        )
    }
}

/// The tables after `UPDATE jobs SET <c> WHERE <sel>` on the jobs alone.
pub open spec fn updated(s: JobStoreView, sel: SelectorView, c: ChangeView) -> JobStoreView {
    JobStoreView { jobs: update_rows(s.jobs, sel, c), dead_letters: s.dead_letters }
}

/// A sweep that runs from a cutoff `secs` seconds before `now`: `None` where the
/// cutoff cannot be computed (chrono would panic), else the tables after the
/// update and the number of rows it touched.
pub open spec fn sweep_outcome(
    s: JobStoreView,
    now: i128,
    secs: i64,
    abandoned_sweep: bool,
) -> (JobStoreView, Result<u64, StoreError>) {
    match shifted(now as int, -secs) {
        None => (s, Err(StoreError::TimeOutOfRange)),
        Some(cutoff) => {
            let sel = if abandoned_sweep {
                SelectorView::Abandoned(cutoff as i128)
            } else {
                SelectorView::Starving(cutoff as i128)
            };
            let c = if abandoned_sweep {
                ChangeView::Reclaim(now)
            } else {
                ChangeView::Promote(now)
            };
            (updated(s, sel, c), Ok(selected_count(s.jobs, sel) as u64))
        },
    }
}

/// The tables after a dead job is requeued at `now`, if the dead-letter queue holds
/// a record for it: the job is pending again with no attempts and no error, due at
/// `now`, and every record for it leaves the dead-letter queue.
pub open spec fn requeue_outcome(s: JobStoreView, id: Seq<char>, now: i128) -> (JobStoreView, bool) {
    if has_letter_for(s.dead_letters, id) {
        (
            JobStoreView {
                jobs: update_rows(s.jobs, SelectorView::Id(id), ChangeView::Requeue(now)),
                dead_letters: s.dead_letters.filter(not_for_job(id)),
            },
            true,
        )
    } else {
        (s, false)
    }
}

/// Keeping some records of a queue keeps their identifiers distinct.
pub proof fn lemma_filter_keeps_unique(letters: Seq<DeadLetterView>, p: spec_fn(DeadLetterView) -> bool)
    requires
        letter_ids_unique(letters),
    ensures
        letter_ids_unique(letters.filter(p)),
    decreases letters.len(),
{
    reveal(Seq::filter);
    if letters.len() > 0 {
        let rest = letters.drop_last();
        assert(letter_ids_unique(rest));
        lemma_filter_keeps_unique(rest, p);
        if p(letters.last()) {
            let f = rest.filter(p);
            assert forall|i: int| 0 <= i < f.len() implies f[i].id != letters.last().id by {
                rest.lemma_filter_contains_rev(p, f[i]);
                assert(f.contains(f[i]));
                let w = choose|w: int| 0 <= w < rest.len() && rest[w] == f[i];
                assert(letters[w] == rest[w]);
            }
        }
    }
}

pub open spec fn opt_job_view(r: Option<Job>) -> Option<JobView> {
    match r {
        Some(j) => Some(j@),
        None => None,
    }
}

/// What a claim at `now` does: with no eligible job it returns nothing and changes
/// nothing; otherwise it returns the claimed job `i` (see `is_claim_index`) in its
/// new state, and that job alone changes.
pub open spec fn claim_result(s: JobStoreView, now: i128, r: Option<JobView>, s2: JobStoreView) -> bool {
    &&& (r is None <==> !(exists|k: int| 0 <= k < s.jobs.len() && eligible(#[trigger] s.jobs[k], now)))
    &&& (r is None ==> s2 == s)
    &&& (r matches Some(j) ==> exists|i: int| {
        &&& #[trigger] is_claim_index(s.jobs, now, i)
        &&& j == changed(ChangeView::Claim(now), s.jobs[i])
        &&& s2 == updated(s, SelectorView::Id(s.jobs[i].id), ChangeView::Claim(now))
    })
}

/// Jobs ordered by creation instant, latest first.
pub open spec fn newest_first(jobs: Seq<JobView>) -> bool {
    forall|a: int, b: int| 0 <= a < b < jobs.len() ==> jobs[a].created_at >= jobs[b].created_at
}

/// Dead-letter records ordered by instant of death, latest first.
pub open spec fn latest_death_first(letters: Seq<DeadLetterView>) -> bool {
    forall|a: int, b: int| 0 <= a < b < letters.len() ==> letters[a].died_at >= letters[b].died_at
}

/// The jobs and dead-letter queue of the job queue.
pub struct JobStore {
    jobs: Vec<Job>,
    dead_letters: Vec<DeadLetterJob>,
}

impl View for JobStore {
    type V = JobStoreView;

    closed spec fn view(&self) -> JobStoreView {
        JobStoreView { jobs: job_views(self.jobs@), dead_letters: letter_views(self.dead_letters@) }
    }
}

impl JobStore {
    #[verifier::type_invariant]
    pub(crate) open spec fn inv(self) -> bool {
        store_wf(self@)
    }

    /// Empty tables.
    pub fn new() -> (r: JobStore)
        ensures
            r@.jobs == Seq::<JobView>::empty(),
            r@.dead_letters == Seq::<DeadLetterView>::empty(),
            store_wf(r@),
    {
        let r = JobStore { jobs: Vec::new(), dead_letters: Vec::new() };
        assert(r@.jobs =~= Seq::<JobView>::empty());
        assert(r@.dead_letters =~= Seq::<DeadLetterView>::empty());
        r
    }

    /// `UPDATE jobs SET <change> WHERE <sel>`; returns the number of rows touched.
    fn update_where(&mut self, sel: &Selector, c: &Change) -> (count: u64)
        requires
            attempts_fit(old(self)@.jobs, sel@, c@),
        ensures
            final(self)@.jobs == update_rows(old(self)@.jobs, sel@, c@),
            final(self)@.dead_letters == old(self)@.dead_letters,
            count == selected_count(old(self)@.jobs, sel@),
    {
        proof {
            use_type_invariant(&*self);
        }
        let ghost old_jobs = self@.jobs;
        let mut out: Vec<Job> = Vec::new();
        let mut count: u64 = 0;
        let n = self.jobs.len();
        proof {
            reveal(Seq::filter);
            assert(old_jobs.take(0).filter(selector_pred(sel@)) =~= Seq::<JobView>::empty());
        }
        for i in 0..n
            invariant
                n == self.jobs.len(),
                old_jobs == job_views(self.jobs@),
                attempts_fit(old_jobs, sel@, c@),
                job_views(out@) =~= update_rows(old_jobs.take(i as int), sel@, c@),
                count == old_jobs.take(i as int).filter(selector_pred(sel@)).len(),
                count <= i,
        {
            let j = &self.jobs[i];
            assert(old_jobs[i as int] == j@);
            let hit = select(sel, j);
            let ghost prev = out@;
            if hit {
                out.push(apply_change(c, j));
                count = count + 1;
            } else {
                out.push(j.clone());
            }
            proof {
                let p = selector_pred(sel@);
                let t1 = old_jobs.take(i + 1);
                assert(t1.drop_last() =~= old_jobs.take(i as int));
                assert(t1.last() == j@);
                reveal(Seq::filter);
                let fj = if selects(sel@, j@) { changed(c@, j@) } else { j@ };
                assert(out@ == prev.push(out@.last()));
                assert(out@.last()@ == fj);
                assert(job_views(out@) =~= job_views(prev).push(fj));
                assert(update_rows(t1, sel@, c@) =~= update_rows(old_jobs.take(i as int), sel@, c@).push(fj));
            }
        }
        proof {
            assert(old_jobs.take(n as int) =~= old_jobs);
            lemma_update_keeps_ids(old_jobs, sel@, c@);
        }
        self.jobs = out;
        count
    }

    /// The index of the job with identifier `id`, if any.
    fn index_of(&self, id: &String) -> (r: Option<usize>)
        ensures
            r is None <==> !has_job(self@.jobs, id@),
            r matches Some(k) ==> k < self@.jobs.len() && self@.jobs[k as int].id == id@
                && find_job(self@.jobs, id@) == Some(self@.jobs[k as int]),
    {
        proof {
            use_type_invariant(self);
        }
        let n = self.jobs.len();
        for i in 0..n
            invariant
                n == self@.jobs.len(),
                n == self.jobs@.len(),
                store_wf(self@),
                self@.jobs == job_views(self.jobs@),
                forall|k: int| 0 <= k < i ==> self@.jobs[k].id != id@,
        {
            assert(self@.jobs[i as int] == self.jobs@[i as int]@);
            if self.jobs[i].id == *id {
                proof {
                    lemma_find_job_at(self@.jobs, i as int);
                }
                return Some(i);
            }
        }
        None
    }

    /// Whether a dead-letter record has the identifier `id`.
    fn has_letter_id(&self, id: &String) -> (r: bool)
        ensures
            r == has_letter_id(self@.dead_letters, id@),
    {
        proof {
            use_type_invariant(self);
        }
        let m = self.dead_letters.len();
        for i in 0..m
            invariant
                m == self.dead_letters@.len(),
                self@.dead_letters == letter_views(self.dead_letters@),
                forall|q: int| 0 <= q < i ==> self@.dead_letters[q].id != id@,
        {
            assert(self@.dead_letters[i as int] == self.dead_letters@[i as int]@);
            if self.dead_letters[i].id == *id {
                return true;
            }
        }
        false
    }

    /// Adds a job (`INSERT INTO jobs`): its identity, type, payload, status,
    /// priority, attempts and instants are stored, its claim, completion, heartbeat
    /// and error columns start empty. A job whose identifier is taken is refused.
    pub fn enqueue(&mut self, job: &Job) -> (r: Result<(), StoreError>)
        ensures
            store_wf(final(self)@),
            r is Err <==> has_job(old(self)@.jobs, job@.id),
            r is Err ==> r == Err::<(), StoreError>(StoreError::DuplicateId) && final(self)@ == old(self)@,
            r is Ok ==> final(self)@.jobs == old(self)@.jobs.push(stored_form(job@))
                && final(self)@.dead_letters == old(self)@.dead_letters,
    {
        proof {
            use_type_invariant(&*self);
        }
        if self.index_of(&job.id).is_some() {
            return Err(StoreError::DuplicateId);
        }
        let mut row = job.clone();
        row.claimed_at = None;
        row.completed_at = None;
        row.last_heartbeat = None;
        row.error = None;
        let mut jobs: Vec<Job> = Vec::new();
        std::mem::swap(&mut jobs, &mut self.jobs);
        let ghost before = jobs@;
        jobs.push(row);
        proof {
            assert(job_views(jobs@) =~= job_views(before).push(stored_form(job@)));
            assert(!has_job(job_views(before), job@.id));
            assert forall|a: int, b: int| 0 <= a < jobs@.len() && 0 <= b < jobs@.len() && a != b implies job_views(jobs@)[a].id != job_views(jobs@)[b].id by {
                if a == before.len() {
                    assert(job_views(before)[b].id == job_views(jobs@)[b].id);
                } else if b == before.len() {
                    assert(job_views(before)[a].id == job_views(jobs@)[a].id);
                }
            }
        }
        self.jobs = jobs;
        Ok(())
    }

    /// Claims the next job at instant `now`: of the waiting jobs that are due, the
    /// one of highest priority, the oldest within that priority (the first in table
    /// order among equals). It becomes running, claimed and heartbeaten at `now`,
    /// and comes back in its new state. With nothing to claim, nothing changes.
    pub fn claim_next_at(&mut self, now: i128) -> (r: Option<Job>)
        ensures
            store_wf(final(self)@),
            claim_result(old(self)@, now, opt_job_view(r), final(self)@),
    {
        proof {
            use_type_invariant(&*self);
        }
        let n = self.jobs.len();
        let mut best: Option<usize> = None;
        for i in 0..n
            invariant
                n == self.jobs@.len(),
                self@.jobs == job_views(self.jobs@),
                best is None ==> forall|k: int| 0 <= k < i ==> !eligible(#[trigger] self@.jobs[k], now),
                best matches Some(b) ==> {
                    &&& b < i
                    &&& eligible(self@.jobs[b as int], now)
                    &&& forall|k: int| 0 <= k < i && eligible(#[trigger] self@.jobs[k], now)
                        ==> !outranks(self@.jobs[k], self@.jobs[b as int]) && (k < b ==> outranks(self@.jobs[b as int], self@.jobs[k]))
                },
        {
            let j = &self.jobs[i];
            assert(self@.jobs[i as int] == j@);
            let waiting = match j.status {
                JobStatus::Pending => true,
                JobStatus::Retrying => true,
                _ => false,
            };
            if waiting && j.run_at <= now {
                match best {
                    None => {
                        best = Some(i);
                    },
                    Some(b) => {
                        let cur = &self.jobs[b];
                        assert(self@.jobs[b as int] == cur@);
                        let rj = j.priority.as_i32();
                        let rb = cur.priority.as_i32();
                        if rj > rb || (rj == rb && j.created_at < cur.created_at) {
                            best = Some(i);
                        }
                    },
                }
            }
        }
        match best {
            None => None,
            Some(b) => {
                let ghost old_view = self@;
                assert(is_claim_index(old_view.jobs, now, b as int));
                let id = self.jobs[b].id.clone();
                let _ = self.update_where(&Selector::Id(id), &Change::Claim(now));
                proof {
                    lemma_update_keeps_ids(old_view.jobs, SelectorView::Id(old_view.jobs[b as int].id), ChangeView::Claim(now));
                }
                let claimed = self.jobs[b].clone();
                proof {
                    assert(eligible(old_view.jobs[b as int], now));
                    assert(selects(SelectorView::Id(old_view.jobs[b as int].id), old_view.jobs[b as int]));
                    assert(self@.jobs[b as int] == claimed@);
                    assert(claimed@ == changed(ChangeView::Claim(now), old_view.jobs[b as int]));
                }
                Some(claimed)
            },
        }
    }

    /// Claims the next job now (see `claim_next_at`), reading the clock once.
    pub fn claim_next(&mut self) -> (r: Option<Job>)
        ensures
            store_wf(final(self)@),
            exists|now: i128| 0 <= now <= MAX_TIME_NANOS && call_ensures(crate::clock::now_nanos, (), now) && #[trigger] claim_result(old(self)@, now, opt_job_view(r), final(self)@),
    {
        proof {
            use_type_invariant(&*self);
        }
        let now = now_nanos();
        self.claim_next_at(now)
    }

    /// Marks the job `job_id` completed at `now`; a missing job changes nothing.
    pub fn mark_completed_at(&mut self, job_id: &str, now: i128)
        ensures
            store_wf(final(self)@),
            final(self)@ == updated(old(self)@, SelectorView::Id(job_id@), ChangeView::Complete(now)),
    {
        proof {
            use_type_invariant(&*self);
        }
        let ghost old_view = self@;
        let _ = self.update_where(&Selector::Id(job_id.to_owned()), &Change::Complete(now));
        proof {
            lemma_update_keeps_ids(old_view.jobs, SelectorView::Id(job_id@), ChangeView::Complete(now));
        }
    }

    /// Marks the job `job_id` completed now, reading the clock once.
    pub fn mark_completed(&mut self, job_id: &str)
        ensures
            store_wf(final(self)@),
            exists|now: i128| 0 <= now <= MAX_TIME_NANOS && call_ensures(crate::clock::now_nanos, (), now) && final(self)@ == #[trigger] updated(old(self)@, SelectorView::Id(job_id@), ChangeView::Complete(now)),
    {
        proof {
            use_type_invariant(&*self);
        }
        let now = now_nanos();
        self.mark_completed_at(job_id, now);
    }

    /// Records a failure of the job `job_id` at `now` after which it runs again at
    /// `run_at`: it is retrying, its attempts go up by one, and the error is kept.
    pub fn fail_with_retry_at(&mut self, job_id: &str, error: &str, run_at: i128, now: i128)
        requires
            attempts_fit(old(self)@.jobs, SelectorView::Id(job_id@), ChangeView::Retry(error@, run_at, now)),
        ensures
            store_wf(final(self)@),
            final(self)@ == updated(old(self)@, SelectorView::Id(job_id@), ChangeView::Retry(error@, run_at, now)),
    {
        proof {
            use_type_invariant(&*self);
        }
        let ghost old_view = self@;
        let _ = self.update_where(&Selector::Id(job_id.to_owned()), &Change::Retry(error.to_owned(), run_at, now));
        proof {
            lemma_update_keeps_ids(old_view.jobs, SelectorView::Id(job_id@), ChangeView::Retry(error@, run_at, now));
        }
    }

    /// Records a failure of the job `job_id` at `now` after which it does not run
    /// again: it is dead, its attempts go up by one, the error is kept, and a copy
    /// of it enters the dead-letter queue under `letter_id` (see `kill_outcome`).
    pub fn fail_to_dead_letter_at(&mut self, job_id: &str, error: &str, now: i128, letter_id: String) -> (r: Result<(), StoreError>)
        requires
            attempts_fit(old(self)@.jobs, SelectorView::Id(job_id@), ChangeView::Kill(error@, now)),
        ensures
            store_wf(final(self)@),
            (final(self)@, r) == kill_outcome(old(self)@, job_id@, error@, now, letter_id@),
    {
        proof {
            use_type_invariant(&*self);
        }
        let ghost old_view = self@;
        let key = job_id.to_owned();
        let found = self.index_of(&key);
        match found {
            None => Err(StoreError::JobNotFound),
            Some(k) => {
                if self.has_letter_id(&letter_id) {
                    return Err(StoreError::DuplicateId);
                }
                let _ = self.update_where(&Selector::Id(key.clone()), &Change::Kill(error.to_owned(), now));
                proof {
                    lemma_update_keeps_ids(old_view.jobs, SelectorView::Id(job_id@), ChangeView::Kill(error@, now));
                    lemma_find_job_at(self@.jobs, k as int);
                }
                let row = &self.jobs[k];
                assert(self@.jobs[k as int] == row@);
                let letter = DeadLetterJob {
                    id: letter_id,
                    job_id: row.id.clone(),
                    job_type: row.job_type.as_str().to_owned(),
                    payload: row.payload.clone(),
                    priority: row.priority.as_i32(),
                    total_attempts: row.attempt,
                    last_error: clone_opt_string(&row.error),
                    died_at: now,
                };
                let mut letters: Vec<DeadLetterJob> = Vec::new();
                std::mem::swap(&mut letters, &mut self.dead_letters);
                let ghost before = letters@;
                letters.push(letter);
                proof {
                    assert(letter_views(letters@) =~= letter_views(before).push(letter@));
                    assert forall|a: int, b: int| 0 <= a < letters@.len() && 0 <= b < letters@.len() && a != b implies letter_views(letters@)[a].id != letter_views(letters@)[b].id by {
                        if a == before.len() {
                            assert(letter_views(before)[b].id == letter_views(letters@)[b].id);
                        } else if b == before.len() {
                            assert(letter_views(before)[a].id == letter_views(letters@)[a].id);
                        }
                    }
                }
                self.dead_letters = letters;
                Ok(())
            },
        }
    }

    /// Records a failure of the job `job_id` now, reading the clock once. With a
    /// retry instant the job is retrying (see `fail_with_retry_at`); without one it
    /// is dead and copied into the dead-letter queue under a fresh random
    /// identifier (see `fail_to_dead_letter_at`).
    pub fn mark_failed(&mut self, job_id: &str, error: &str, retry_at: Option<i128>) -> (r: Result<(), StoreError>)
        requires
            forall|i: int| 0 <= i < old(self)@.jobs.len() && old(self)@.jobs[i].id == job_id@ ==> old(self)@.jobs[i].attempt < i32::MAX,
        ensures
            store_wf(final(self)@),
            retry_at matches Some(t) ==> r is Ok && exists|now: i128| 0 <= now <= MAX_TIME_NANOS && call_ensures(crate::clock::now_nanos, (), now) && final(self)@ == #[trigger] updated(old(self)@, SelectorView::Id(job_id@), ChangeView::Retry(error@, t, now)),
            retry_at is None ==> exists|now: i128, letter_id: Seq<char>| 0 <= now <= MAX_TIME_NANOS && call_ensures(crate::clock::now_nanos, (), now) && crate::job::is_uuid_v4_text(letter_id)
                && (exists|l: String| #[trigger] call_ensures(crate::job::fresh_id, (), l) && l@ == letter_id)
                && (final(self)@, r) == #[trigger] kill_outcome(old(self)@, job_id@, error@, now, letter_id),
    {
        proof {
            use_type_invariant(&*self);
        }
        let now = now_nanos();
        match retry_at {
            Some(t) => {
                self.fail_with_retry_at(job_id, error, t, now);
                Ok(())
            },
            None => {
                let letter_id = crate::job::fresh_id();
                let ghost lid = letter_id@;
                let r = self.fail_to_dead_letter_at(job_id, error, now, letter_id);
                assert((self@, r) == kill_outcome(old(self)@, job_id@, error@, now, lid));
                r
            },
        }
    }

    /// Records a heartbeat of the job `job_id` at `now`.
    pub fn update_heartbeat_at(&mut self, job_id: &str, now: i128)
        ensures
            store_wf(final(self)@),
            final(self)@ == updated(old(self)@, SelectorView::Id(job_id@), ChangeView::Beat(now)),
    {
        proof {
            use_type_invariant(&*self);
        }
        let ghost old_view = self@;
        let _ = self.update_where(&Selector::Id(job_id.to_owned()), &Change::Beat(now));
        proof {
            lemma_update_keeps_ids(old_view.jobs, SelectorView::Id(job_id@), ChangeView::Beat(now));
        }
    }

    /// Records a heartbeat of the job `job_id` now, reading the clock once.
    pub fn update_heartbeat(&mut self, job_id: &str)
        ensures
            store_wf(final(self)@),
            exists|now: i128| 0 <= now <= MAX_TIME_NANOS && call_ensures(crate::clock::now_nanos, (), now) && final(self)@ == #[trigger] updated(old(self)@, SelectorView::Id(job_id@), ChangeView::Beat(now)),
    {
        proof {
            use_type_invariant(&*self);
        }
        let now = now_nanos();
        self.update_heartbeat_at(job_id, now);
    }

    /// Runs a sweep from the cutoff `secs` seconds before `now`.
    fn sweep_at(&mut self, now: i128, secs: i64, abandoned_sweep: bool) -> (r: Result<u64, StoreError>)
        requires
            time_in_range(now as int),
        ensures
            store_wf(final(self)@),
            (final(self)@, r) == sweep_outcome(old(self)@, now, secs, abandoned_sweep),
    {
        proof {
            use_type_invariant(&*self);
        }
        if secs < -MAX_DELTA_SECS || secs > MAX_DELTA_SECS {
            return Err(StoreError::TimeOutOfRange);
        }
        match shift_by_secs(now, -secs) {
            None => Err(StoreError::TimeOutOfRange),
            Some(cutoff) => {
                let ghost old_view = self@;
                let sel = if abandoned_sweep {
                    Selector::Abandoned(cutoff)
                } else {
                    Selector::Starving(cutoff)
                };
                let c = if abandoned_sweep {
                    Change::Reclaim(now)
                } else {
                    Change::Promote(now)
                };
                let count = self.update_where(&sel, &c);
                proof {
                    lemma_update_keeps_ids(old_view.jobs, sel@, c@);
                }
                Ok(count)
            },
        }
    }

    /// Hands abandoned jobs back to the queue: every running job whose last
    /// heartbeat is older than `timeout_secs` before `now` becomes pending again,
    /// unclaimed and without heartbeat. Returns how many were reclaimed, or
    /// `TimeOutOfRange` (changing nothing) where the cutoff cannot be computed.
    pub fn reclaim_abandoned_at(&mut self, timeout_secs: i64, now: i128) -> (r: Result<u64, StoreError>)
        requires
            time_in_range(now as int),
        ensures
            store_wf(final(self)@),
            (final(self)@, r) == sweep_outcome(old(self)@, now, timeout_secs, true),
    {
        proof {
            use_type_invariant(&*self);
        }
        self.sweep_at(now, timeout_secs, true)
    }

    /// Hands abandoned jobs back to the queue now (see `reclaim_abandoned_at`),
    /// reading the clock once. A timeout between zero and the span of time chrono
    /// can reach back from the epoch always succeeds.
    pub fn reclaim_abandoned(&mut self, timeout_secs: i64) -> (r: Result<u64, StoreError>)
        ensures
            store_wf(final(self)@),
            exists|now: i128| 0 <= now <= MAX_TIME_NANOS && call_ensures(crate::clock::now_nanos, (), now) && (final(self)@, r) == #[trigger] sweep_outcome(old(self)@, now, timeout_secs, true),
            0 <= timeout_secs && timeout_secs * NANOS_PER_SEC <= -MIN_TIME_NANOS ==> r is Ok,
    {
        proof {
            use_type_invariant(&*self);
        }
        let now = now_nanos();
        self.reclaim_abandoned_at(timeout_secs, now)
    }

    /// Promotes starving jobs: every waiting job below High priority created more
    /// than `threshold_secs` before `now` goes up one priority level. Returns how
    /// many were promoted, or `TimeOutOfRange` (changing nothing) where the cutoff
    /// cannot be computed.
    pub fn promote_starving_at(&mut self, threshold_secs: i64, now: i128) -> (r: Result<u64, StoreError>)
        requires
            time_in_range(now as int),
        ensures
            store_wf(final(self)@),
            (final(self)@, r) == sweep_outcome(old(self)@, now, threshold_secs, false),
    {
        proof {
            use_type_invariant(&*self);
        }
        self.sweep_at(now, threshold_secs, false)
    }

    /// Promotes starving jobs now (see `promote_starving_at`), reading the clock once.
    pub fn promote_starving(&mut self, threshold_secs: i64) -> (r: Result<u64, StoreError>)
        ensures
            store_wf(final(self)@),
            exists|now: i128| 0 <= now <= MAX_TIME_NANOS && call_ensures(crate::clock::now_nanos, (), now) && (final(self)@, r) == #[trigger] sweep_outcome(old(self)@, now, threshold_secs, false),
            0 <= threshold_secs && threshold_secs * NANOS_PER_SEC <= -MIN_TIME_NANOS ==> r is Ok,
    {
        proof {
            use_type_invariant(&*self);
        }
        let now = now_nanos();
        self.promote_starving_at(threshold_secs, now)
    }

    /// Requeues a dead job at `now` if the dead-letter queue holds it (see
    /// `requeue_outcome`); returns whether it did.
    pub fn requeue_from_dlq_at(&mut self, job_id: &str, now: i128) -> (r: bool)
        ensures
            store_wf(final(self)@),
            (final(self)@, r) == requeue_outcome(old(self)@, job_id@, now),
    {
        proof {
            use_type_invariant(&*self);
        }
        let key = job_id.to_owned();
        let m = self.dead_letters.len();
        let mut found = false;
        for i in 0..m
            invariant
                m == self.dead_letters@.len(),
                self@.dead_letters == letter_views(self.dead_letters@),
                !found ==> forall|q: int| 0 <= q < i ==> self@.dead_letters[q].job_id != key@,
                found ==> has_letter_for(self@.dead_letters, key@),
        {
            assert(self@.dead_letters[i as int] == self.dead_letters@[i as int]@);
            if self.dead_letters[i].job_id == key {
                found = true;
            }
        }
        if !found {
            return false;
        }
        let ghost old_view = self@;
        let _ = self.update_where(&Selector::Id(key.clone()), &Change::Requeue(now));
        proof {
            lemma_update_keeps_ids(old_view.jobs, SelectorView::Id(job_id@), ChangeView::Requeue(now));
        }
        let mut kept: Vec<DeadLetterJob> = Vec::new();
        let ghost letters = old_view.dead_letters;
        let ghost p = not_for_job(key@);
        proof {
            reveal(Seq::filter);
            assert(letters.take(0).filter(p) =~= Seq::<DeadLetterView>::empty());
        }
        for i in 0..m
            invariant
                m == self.dead_letters@.len(),
                letters == letter_views(self.dead_letters@),
                p == not_for_job(key@),
                letter_views(kept@) =~= letters.take(i as int).filter(p),
                letter_ids_unique(letters),
        {
            let d = &self.dead_letters[i];
            assert(letters[i as int] == d@);
            let ghost prev = kept@;
            if !(d.job_id == key) {
                kept.push(d.clone());
            }
            proof {
                let t1 = letters.take(i + 1);
                assert(t1.drop_last() =~= letters.take(i as int));
                assert(t1.last() == d@);
                reveal(Seq::filter);
                if p(d@) {
                    assert(letter_views(kept@) =~= letter_views(prev).push(d@));
                } else {
                    assert(kept@ == prev);
                }
            }
        }
        proof {
            assert(letters.take(m as int) =~= letters);
        }
        proof {
            lemma_filter_keeps_unique(letters, p);
        }
        self.dead_letters = kept;
        true
    }

    /// Requeues a dead job now (see `requeue_from_dlq_at`), reading the clock once.
    pub fn requeue_from_dlq(&mut self, job_id: &str) -> (r: bool)
        ensures
            store_wf(final(self)@),
            exists|now: i128| 0 <= now <= MAX_TIME_NANOS && call_ensures(crate::clock::now_nanos, (), now) && (final(self)@, r) == #[trigger] requeue_outcome(old(self)@, job_id@, now),
    {
        proof {
            use_type_invariant(&*self);
        }
        let now = now_nanos();
        self.requeue_from_dlq_at(job_id, now)
    }

    /// The job with identifier `job_id`, if there is one.
    pub fn get_job(&self, job_id: &str) -> (r: Option<Job>)
        ensures
            r is None ==> find_job(self@.jobs, job_id@) is None,
            r matches Some(j) ==> find_job(self@.jobs, job_id@) == Some(j@),
    {
        proof {
            use_type_invariant(self);
        }
        let key = job_id.to_owned();
        match self.index_of(&key) {
            None => None,
            Some(k) => {
                let j = self.jobs[k].clone();
                Some(j)
            },
        }
    }

    /// All jobs, newest first (`ORDER BY created_at DESC`): the same jobs as the
    /// table, ordered by creation instant, latest first.
    pub fn get_all_jobs(&self) -> (r: Vec<Job>)
        ensures
            newest_first(job_views(r@)),
            job_views(r@).to_multiset() == self@.jobs.to_multiset(),
    {
        proof {
            use_type_invariant(self);
        }
        let n = self.jobs.len();
        let ghost views = self@.jobs;
        let mut out: Vec<Job> = Vec::new();
        proof {
            assert(views.take(0) =~= Seq::<JobView>::empty());
            assert(job_views(out@) =~= Seq::<JobView>::empty());
        }
        for i in 0..n
            invariant
                n == self.jobs@.len(),
                views == job_views(self.jobs@),
                newest_first(job_views(out@)),
                job_views(out@).to_multiset() == views.take(i as int).to_multiset(),
                out@.len() == i,
        {
            let j = &self.jobs[i];
            assert(views[i as int] == j@);
            let mut p: usize = 0;
            while p < out.len() && out[p].created_at >= j.created_at
                invariant
                    p <= out@.len(),
                    forall|q: int| 0 <= q < p ==> out@[q].created_at >= j.created_at,
                decreases out@.len() - p,
            {
                p = p + 1;
            }
            let ghost prev = out@;
            out.insert(p, j.clone());
            proof {
                let pv = job_views(prev);
                assert(job_views(out@) =~= pv.insert(p as int, j@));
                vstd::seq_lib::to_multiset_insert(pv, p as int, j@);
                assert(views.take(i + 1) =~= views.take(i as int).push(j@));
                vstd::seq_lib::to_multiset_build(views.take(i as int), j@);
                let ov = job_views(out@);
                assert forall|a: int, b: int| 0 <= a < b < ov.len() implies ov[a].created_at >= ov[b].created_at by {
                    if b < p {
                    } else if b == p {
                        assert(ov[a] == pv[a]);
                    } else if a < p {
                        assert(ov[a] == pv[a]);
                        assert(ov[b] == pv[b - 1]);
                        if (p as int) < pv.len() {
                            assert(pv[p as int].created_at < j.created_at);
                            assert(pv[p as int].created_at >= pv[b - 1].created_at);
                        }
                    } else if a == p {
                        assert(ov[b] == pv[b - 1]);
                        assert(pv[p as int].created_at < j.created_at);
                        if b - 1 > p {
                            assert(pv[p as int].created_at >= pv[b - 1].created_at);
                        }
                    } else {
                        assert(ov[a] == pv[a - 1]);
                        assert(ov[b] == pv[b - 1]);
                    }
                }
            }
        }
        proof {
            assert(views.take(n as int) =~= views);
        }
        out
    }

    /// All dead-letter records, most recent death first (`ORDER BY died_at DESC`):
    /// the same records as the table, latest first.
    pub fn get_dead_letter_jobs(&self) -> (r: Vec<DeadLetterJob>)
        ensures
            latest_death_first(letter_views(r@)),
            letter_views(r@).to_multiset() == self@.dead_letters.to_multiset(),
    {
        proof {
            use_type_invariant(self);
        }
        let n = self.dead_letters.len();
        let ghost views = self@.dead_letters;
        let mut out: Vec<DeadLetterJob> = Vec::new();
        proof {
            assert(views.take(0) =~= Seq::<DeadLetterView>::empty());
            assert(letter_views(out@) =~= Seq::<DeadLetterView>::empty());
        }
        for i in 0..n
            invariant
                n == self.dead_letters@.len(),
                views == letter_views(self.dead_letters@),
                latest_death_first(letter_views(out@)),
                letter_views(out@).to_multiset() == views.take(i as int).to_multiset(),
                out@.len() == i,
        {
            let d = &self.dead_letters[i];
            assert(views[i as int] == d@);
            let mut p: usize = 0;
            while p < out.len() && out[p].died_at >= d.died_at
                invariant
                    p <= out@.len(),
                    forall|q: int| 0 <= q < p ==> out@[q].died_at >= d.died_at,
                decreases out@.len() - p,
            {
                p = p + 1;
            }
            let ghost prev = out@;
            out.insert(p, d.clone());
            proof {
                let pv = letter_views(prev);
                assert(letter_views(out@) =~= pv.insert(p as int, d@));
                vstd::seq_lib::to_multiset_insert(pv, p as int, d@);
                assert(views.take(i + 1) =~= views.take(i as int).push(d@));
                vstd::seq_lib::to_multiset_build(views.take(i as int), d@);
                let ov = letter_views(out@);
                assert forall|a: int, b: int| 0 <= a < b < ov.len() implies ov[a].died_at >= ov[b].died_at by {
                    if b < p {
                    } else if b == p {
                        assert(ov[a] == pv[a]);
                    } else if a < p {
                        assert(ov[a] == pv[a]);
                        assert(ov[b] == pv[b - 1]);
                        if (p as int) < pv.len() {
                            assert(pv[p as int].died_at < d.died_at);
                            assert(pv[p as int].died_at >= pv[b - 1].died_at);
                        }
                    } else if a == p {
                        assert(ov[b] == pv[b - 1]);
                        assert(pv[p as int].died_at < d.died_at);
                        if b - 1 > p {
                            assert(pv[p as int].died_at >= pv[b - 1].died_at);
                        }
                    } else {
                        assert(ov[a] == pv[a - 1]);
                        assert(ov[b] == pv[b - 1]);
                    }
                }
            }
        }
        proof {
            assert(views.take(n as int) =~= views);
        }
        out
    }

    /// Tables made from rows read back from storage, in the given order; refused
    /// with `DuplicateId` where two jobs, or two dead-letter records, share an
    /// identifier.
    pub fn restore(jobs: Vec<Job>, dead_letters: Vec<DeadLetterJob>) -> (r: Result<JobStore, StoreError>)
        ensures
            r is Ok <==> job_ids_unique(job_views(jobs@)) && letter_ids_unique(letter_views(dead_letters@)),
            r matches Ok(st) ==> st@ == (JobStoreView { jobs: job_views(jobs@), dead_letters: letter_views(dead_letters@) }),
            r is Err ==> r == Err::<JobStore, StoreError>(StoreError::DuplicateId),
            r matches Ok(st) ==> store_wf(st@),
    {
        let n = jobs.len();
        let ghost jv = job_views(jobs@);
        for i in 0..n
            invariant
                n == jobs@.len(),
                jv == job_views(jobs@),
                forall|a: int, b: int| 0 <= a < i && 0 <= b < n && a != b ==> jv[a].id != jv[b].id,
        {
            for k in 0..n
                invariant
                    n == jobs@.len(),
                    jv == job_views(jobs@),
                    i < n,
                    forall|a: int, b: int| 0 <= a < i && 0 <= b < n && a != b ==> jv[a].id != jv[b].id,
                    forall|b: int| 0 <= b < k && b != i ==> jv[i as int].id != jv[b].id,
            {
                assert(jv[i as int] == jobs@[i as int]@ && jv[k as int] == jobs@[k as int]@);
                if k != i && jobs[i].id == jobs[k].id {
                    return Err(StoreError::DuplicateId);
                }
            }
        }
        let m = dead_letters.len();
        let ghost dv = letter_views(dead_letters@);
        for i in 0..m
            invariant
                m == dead_letters@.len(),
                dv == letter_views(dead_letters@),
                job_ids_unique(jv),
                forall|a: int, b: int| 0 <= a < i && 0 <= b < m && a != b ==> dv[a].id != dv[b].id,
        {
            for k in 0..m
                invariant
                    m == dead_letters@.len(),
                    dv == letter_views(dead_letters@),
                    i < m,
                    forall|a: int, b: int| 0 <= a < i && 0 <= b < m && a != b ==> dv[a].id != dv[b].id,
                    forall|b: int| 0 <= b < k && b != i ==> dv[i as int].id != dv[b].id,
            {
                assert(dv[i as int] == dead_letters@[i as int]@ && dv[k as int] == dead_letters@[k as int]@);
                if k != i && dead_letters[i].id == dead_letters[k].id {
                    return Err(StoreError::DuplicateId);
                }
            }
        }
        Ok(JobStore { jobs, dead_letters })
    }

    /// The jobs table, in table order.
    pub fn jobs(&self) -> (r: &Vec<Job>)
        ensures
            job_views(r@) == self@.jobs,
    {
        proof {
            use_type_invariant(self);
        }
        &self.jobs
    }

    /// The dead-letter table, in table order.
    pub fn dead_letters(&self) -> (r: &Vec<DeadLetterJob>)
        ensures
            letter_views(r@) == self@.dead_letters,
    {
        proof {
            use_type_invariant(self);
        }
        &self.dead_letters
    }
}

} // verus!

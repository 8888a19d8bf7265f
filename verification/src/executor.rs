//! What a worker decides about a job it has run: complete it, schedule a retry
//! with backoff, or send it to the dead-letter queue.
use vstd::prelude::*;
use crate::clock::{now_nanos, shifted, time_in_range, MAX_TIME_NANOS};
use crate::handlers::{JobError, JobErrorView};
use crate::job::{job_type_name, new_uuid, Job, JobView};
use crate::retry::{random_u64, RetryPolicy};
use crate::store::{
    find_job, has_job, kill_outcome, lemma_find_job_at, store_wf, updated, ChangeView, JobStore, JobStoreView, SelectorView, StoreError,
};

verus! {

/// The error recorded for a job whose type has no handler.
pub open spec fn no_handler_message(job_type: Seq<char>) -> Seq<char> {
    "no handler for job type: "@ + job_type
}

pub open spec fn outcome_view(o: Result<(), JobError>) -> Result<(), JobErrorView> {
    match o {
        Ok(()) => Ok(()),
        Err(e) => Err(e@),
    }
}

/// A failed job is tried again: its error is retryable and, counting the run
/// that just failed, it has attempts left, so that a job runs at most
/// `max_attempts` times.
pub open spec fn retries(job: JobView, e: JobErrorView) -> bool {
    e.retryable && job.attempt + 1 < job.max_attempts
}

/// The run that just ended was the job's last allowed one.
pub open spec fn last_attempt(job: JobView) -> bool {
    job.attempt + 1 >= job.max_attempts
}

/// The tables after the worker records how the run of `job` ended, at `now`, with
/// `random` for the jitter and `letter_id` for a dead-letter record:
/// - success: the job is completed;
/// - a retryable failure with attempts left after this run: the job is retrying, due after the
///   backoff for its attempt count (an error, changing nothing, where that instant
///   cannot be represented);
/// - any other failure (a fatal error, or the job's last allowed run): the job is
///   dead and copied into the dead-letter queue.
pub open spec fn finish_outcome(
    policy: RetryPolicy,
    s: JobStoreView,
    job: JobView,
    outcome: Result<(), JobErrorView>,
    now: i128,
    random: u64,
    letter_id: Seq<char>,
) -> (JobStoreView, Result<(), StoreError>) {
    match outcome {
        Ok(()) => (updated(s, SelectorView::Id(job.id), ChangeView::Complete(now)), Ok(())),
        Err(e) => if retries(job, e) {
            match shifted(now as int, policy.delay_for(job.attempt as int, random)) {
                None => (s, Err(StoreError::TimeOutOfRange)),
                Some(t) => (
                    updated(s, SelectorView::Id(job.id), ChangeView::Retry(e.message, t as i128, now)),
                    Ok(()),
                ),
            }
        } else {
            kill_outcome(s, job.id, e.message, now, letter_id)
        },
    }
}

/// The attempt counter of every row of `s` for the job can still go up by one.
pub open spec fn attempts_left_to_count(s: JobStoreView, id: Seq<char>) -> bool {
    forall|i: int| 0 <= i < s.jobs.len() && s.jobs[i].id == id ==> s.jobs[i].attempt < i32::MAX
}

/// Runs jobs: claims them and records how they ended.
pub struct Executor {
    retry_policy: RetryPolicy,
}

impl Executor {
    pub closed spec fn policy(&self) -> RetryPolicy {
        self.retry_policy
    }

    pub fn new(retry_policy: RetryPolicy) -> (r: Executor)
        ensures
            r.policy() == retry_policy,
    {
        Executor { retry_policy }
    }

    /// The backoff for a failed job can be computed when the job is to be retried.
    pub open spec fn can_finish(&self, job: JobView, outcome: Result<(), JobErrorView>) -> bool {
        outcome matches Err(e) && retries(job, e) ==> self.policy().backoff_defined(job.attempt as int)
    }

    /// Whether the end of a run of `job` can be recorded without overflow: for a
    /// failure, the job's attempt counter can go up by one, and the backoff for a
    /// retry can be computed (see `finish`'s requirements).
    pub fn can_record(&self, store: &JobStore, job: &Job, outcome: &Result<(), JobError>) -> (r: bool)
        ensures
            r == ((outcome is Err ==> attempts_left_to_count(store@, job@.id)) && self.can_finish(job@, outcome_view(*outcome))),
    {
        proof {
            use_type_invariant(store);
        }
        let room = match store.get_job(job.id.as_str()) {
            None => true,
            Some(j) => j.attempt < i32::MAX,
        };
        proof {
            let s = store@;
            if has_job(s.jobs, job@.id) {
                let k = choose|i: int| 0 <= i < s.jobs.len() && s.jobs[i].id == job@.id;
                lemma_find_job_at(s.jobs, k);
                assert forall|i: int| 0 <= i < s.jobs.len() && s.jobs[i].id == job@.id implies i == k by {}
            } else {
                assert(find_job(s.jobs, job@.id) is None);
            }
        }
        match outcome {
            Ok(()) => true,
            Err(e) => room && if e.retryable && (job.attempt as i64) + 1 < job.max_attempts as i64 {
                self.retry_policy.backoff_is_defined(job.attempt)
            } else {
                true
            },
        }
    }

    /// Claims the next job to run, now (see `JobStore::claim_next`).
    pub fn claim(&self, store: &mut JobStore) -> (r: Option<Job>)
        ensures
            store_wf(final(store)@),
            exists|now: i128| 0 <= now <= MAX_TIME_NANOS && call_ensures(crate::clock::now_nanos, (), now) && #[trigger] crate::store::claim_result(old(store)@, now, crate::store::opt_job_view(r), final(store)@),
    {
        store.claim_next()
    }

    /// Records, at `now`, how the run of `job` ended (see `finish_outcome`).
    pub fn finish_at(
        &self,
        store: &mut JobStore,
        job: &Job,
        outcome: &Result<(), JobError>,
        now: i128,
        random: u64,
        letter_id: String,
    ) -> (r: Result<(), StoreError>)
        requires
            time_in_range(now as int),
            *outcome is Err ==> attempts_left_to_count(old(store)@, job@.id),
            self.can_finish(job@, outcome_view(*outcome)),
        ensures
            store_wf(final(store)@),
            (final(store)@, r) == finish_outcome(self.policy(), old(store)@, job@, outcome_view(*outcome), now, random, letter_id@),
    {
        proof {
            use_type_invariant(&*store);
        }
        match outcome {
            Ok(()) => {
                store.mark_completed_at(job.id.as_str(), now);
                Ok(())
            },
            Err(e) => {
                if e.retryable && (job.attempt as i64) + 1 < job.max_attempts as i64 {
                    match self.retry_policy.run_at_after(now, job.attempt, random) {
                        None => Err(StoreError::TimeOutOfRange),
                        Some(t) => {
                            store.fail_with_retry_at(job.id.as_str(), e.message.as_str(), t, now);
                            Ok(())
                        },
                    }
                } else {
                    store.fail_to_dead_letter_at(job.id.as_str(), e.message.as_str(), now, letter_id)
                }
            },
        }
    }

    /// Records, now, how the run of `job` ended: reads the clock, draws the jitter
    /// and a dead-letter identifier, then does what `finish_at` does.
    pub fn finish(&self, store: &mut JobStore, job: &Job, outcome: &Result<(), JobError>) -> (r: Result<(), StoreError>)
        requires
            *outcome is Err ==> attempts_left_to_count(old(store)@, job@.id),
            self.can_finish(job@, outcome_view(*outcome)),
        ensures
            store_wf(final(store)@),
            exists|now: i128, random: u64, letter_id: Seq<char>|
                0 <= now <= MAX_TIME_NANOS && call_ensures(crate::clock::now_nanos, (), now) && crate::job::is_uuid_v4_text(letter_id)
                && (exists|l: String| #[trigger] call_ensures(crate::job::fresh_id, (), l) && l@ == letter_id) && (final(store)@, r) == #[trigger] finish_outcome(
                    self.policy(), old(store)@, job@, outcome_view(*outcome), now, random, letter_id),
    {
        let now = now_nanos();
        let random = crate::retry::jitter_draw();
        let letter_id = crate::job::fresh_id();
        let ghost lid = letter_id@;
        let r = self.finish_at(store, job, outcome, now, random, letter_id);
        assert((store@, r) == finish_outcome(self.policy(), old(store)@, job@, outcome_view(*outcome), now, random, lid));
        r
    }

    /// The error text recorded for a job whose type has no handler.
    pub fn no_handler_error(job_type: &str) -> (r: String)
        ensures
            r@ == no_handler_message(job_type@),
    {
        "no handler for job type: ".to_owned().concat(job_type)
    }

    /// Records that no handler exists for the type of `job`: it fails for good and
    /// enters the dead-letter queue, now.
    pub fn fail_unhandled(&self, store: &mut JobStore, job: &Job) -> (r: Result<(), StoreError>)
        requires
            attempts_left_to_count(old(store)@, job@.id),
        ensures
            store_wf(final(store)@),
            exists|now: i128, letter_id: Seq<char>| 0 <= now <= MAX_TIME_NANOS && call_ensures(crate::clock::now_nanos, (), now) && crate::job::is_uuid_v4_text(letter_id)
                && (exists|l: String| #[trigger] call_ensures(crate::job::fresh_id, (), l) && l@ == letter_id)
                && (final(store)@, r) == #[trigger] kill_outcome(old(store)@, job@.id,
                    no_handler_message(job_type_name(job@.job_type)), now, letter_id),
    {
        let message = Executor::no_handler_error(job.job_type.as_str());
        store.mark_failed(job.id.as_str(), message.as_str(), None)
    }
}

} // verus!

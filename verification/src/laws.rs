//! Properties of the queue as a whole, stated over the specifications of the
//! operations and proved.
use vstd::prelude::*;
use crate::clock::{shifted, time_in_range, MIN_TIME_NANOS, NANOS_PER_SEC};
use crate::executor::{finish_outcome, last_attempt, retries};
use crate::handlers::JobErrorView;
use crate::job::{
    exhausted, job_type_from_name, DeadLetterView, job_type_name, priority_from_rank, priority_rank, status_from_name,
    status_name, JobStatus, JobType, JobView, Priority,
};
use crate::retry::RetryPolicy;
use crate::store::{
    abandoned, changed, eligible, find_job, has_job, has_letter_for, has_letter_id, is_claim_index,
    is_waiting, job_ids_unique, kill_outcome, lemma_find_job_at, lemma_update_keeps_ids, not_for_job,
    promoted, requeue_outcome, selects, starving, store_wf, stored_form, sweep_outcome, update_rows, claim_result,
    ChangeView, JobStoreView,
    SelectorView,
};

verus! {

/// Every status is read back as itself from its stored name.
pub proof fn lemma_status_name_round_trip(s: JobStatus)
    ensures
        status_from_name(status_name(s)) == s,
{
    reveal_strlit("pending");
    reveal_strlit("running");
    reveal_strlit("completed");
    reveal_strlit("failed");
    reveal_strlit("retrying");
    reveal_strlit("dead");
    assert("pending"@.len() == 7 && "running"@.len() == 7 && "completed"@.len() == 9);
    assert("failed"@.len() == 6 && "retrying"@.len() == 8 && "dead"@.len() == 4);
    assert("pending"@[0] == 'p' && "running"@[0] == 'r');
}

/// Every priority is read back as itself from its stored number, and the numbers
/// order the priorities: High above Normal above Low.
pub proof fn lemma_priority_rank_round_trip(p: Priority)
    ensures
        priority_from_rank(priority_rank(p)) == p,
        priority_rank(Priority::High) > priority_rank(Priority::Normal) > priority_rank(Priority::Low),
{
}

/// Every job type is read back as itself from its stored name.
pub proof fn lemma_job_type_name_round_trip(t: JobType)
    ensures
        job_type_from_name(job_type_name(t)) == t,
{
    reveal_strlit("order");
    reveal_strlit("payment");
    reveal_strlit("notification");
    assert("order"@.len() == 5 && "payment"@.len() == 7 && "notification"@.len() == 12);
}

/// A job may be retried (`RetryPolicy::should_retry` on its attempts) exactly when
/// it is not exhausted (`Job::is_exhausted`).
pub proof fn lemma_should_retry_iff_not_exhausted(j: JobView)
    ensures
        (j.attempt < j.max_attempts) == !exhausted(j),
{
}

/// The backoff delay is the capped exponential delay plus a jitter below the
/// jitter span (half the capped delay, at least one), and the capped delay never
/// exceeds the cap.
pub proof fn lemma_backoff_bounds(p: RetryPolicy, attempt: int, random: u64)
    requires
        0 <= attempt,
    ensures
        p.capped_delay(attempt) <= p.delay_for(attempt, random) < p.capped_delay(attempt) + p.jitter_span(attempt),
        p.capped_delay(attempt) <= p.max_delay_secs,
        p.capped_delay(attempt) <= p.exp_delay(attempt),
        p.jitter_span(attempt) >= 1,
{
    assert(p.exp_delay(attempt) >= 0) by (nonlinear_arith)
        requires
            p.exp_delay(attempt) == p.base_delay_secs * vstd::arithmetic::power2::pow2(attempt as nat),
    ;
}

/// More attempts never shorten the capped backoff delay.
pub proof fn lemma_backoff_monotone(p: RetryPolicy, a: int, b: int)
    requires
        0 <= a <= b,
    ensures
        p.exp_delay(a) <= p.exp_delay(b),
        p.capped_delay(a) <= p.capped_delay(b),
{
    crate::retry::lemma_two_pow_monotone(a as nat, b as nat);
    let pa = vstd::arithmetic::power2::pow2(a as nat);
    let pb = vstd::arithmetic::power2::pow2(b as nat);
    assert(p.base_delay_secs * pa <= p.base_delay_secs * pb) by (nonlinear_arith)
        requires
            pa <= pb,
    ;
}

/// Below the cap, each further attempt doubles the delay.
pub proof fn lemma_backoff_doubles(p: RetryPolicy, a: int)
    requires
        0 <= a,
    ensures
        p.exp_delay(a + 1) == 2 * p.exp_delay(a),
        p.exp_delay(a + 1) <= p.max_delay_secs ==> p.capped_delay(a + 1) == 2 * p.capped_delay(a),
{
    vstd::arithmetic::power2::lemma_pow2_unfold((a + 1) as nat);
    let pa = vstd::arithmetic::power2::pow2(a as nat);
    assert(p.base_delay_secs * (2 * pa) == 2 * (p.base_delay_secs * pa)) by (nonlinear_arith);
    lemma_backoff_monotone(p, a, a + 1);
}

/// At most one job is the one a claim takes.
pub proof fn lemma_claim_index_unique(jobs: Seq<JobView>, now: i128, i: int, k: int)
    requires
        is_claim_index(jobs, now, i),
        is_claim_index(jobs, now, k),
    ensures
        i == k,
{
    if i < k {
        assert(eligible(jobs[i], now));
    } else if k < i {
        assert(eligible(jobs[k], now));
    }
}

/// The job a claim takes is waiting and due, and no due waiting job has a higher
/// priority, nor the same priority and an earlier creation instant.
pub proof fn lemma_claim_takes_most_urgent(jobs: Seq<JobView>, now: i128, i: int, k: int)
    requires
        is_claim_index(jobs, now, i),
        0 <= k < jobs.len(),
        eligible(jobs[k], now),
    ensures
        is_waiting(jobs[i].status),
        jobs[i].run_at <= now,
        priority_rank(jobs[k].priority) <= priority_rank(jobs[i].priority),
        priority_rank(jobs[k].priority) == priority_rank(jobs[i].priority) ==> jobs[i].created_at <= jobs[k].created_at,
{
}

/// Reading a job back after an update of it by identifier gives the updated row,
/// and other jobs read back as before.
pub proof fn lemma_read_after_update(jobs: Seq<JobView>, id: Seq<char>, c: ChangeView, other: Seq<char>)
    requires
        job_ids_unique(jobs),
    ensures
        find_job(update_rows(jobs, SelectorView::Id(id), c), id) == (match find_job(jobs, id) {
            Some(j) => Some(changed(c, j)),
            None => None::<JobView>,
        }),
        other != id ==> find_job(update_rows(jobs, SelectorView::Id(id), c), other) == find_job(jobs, other),
{
    let sel = SelectorView::Id(id);
    let after = update_rows(jobs, sel, c);
    lemma_update_keeps_ids(jobs, sel, c);
    if has_job(jobs, id) {
        let k = choose|i: int| 0 <= i < jobs.len() && jobs[i].id == id;
        lemma_find_job_at(jobs, k);
        lemma_find_job_at(after, k);
    } else {
        assert(!has_job(after, id));
    }
    if other != id {
        if has_job(jobs, other) {
            let k = choose|i: int| 0 <= i < jobs.len() && jobs[i].id == other;
            lemma_find_job_at(jobs, k);
            lemma_find_job_at(after, k);
        } else {
            assert(!has_job(after, other));
        }
    }
}

/// A job added to the queue reads back as stored: pending with its own fields,
/// the claim, completion, heartbeat and error columns empty.
pub proof fn lemma_enqueue_then_read(jobs: Seq<JobView>, j: JobView)
    requires
        job_ids_unique(jobs),
        !has_job(jobs, j.id),
    ensures
        job_ids_unique(jobs.push(stored_form(j))),
        find_job(jobs.push(stored_form(j)), j.id) == Some(stored_form(j)),
{
    let after = jobs.push(stored_form(j));
    assert(job_ids_unique(after));
    lemma_find_job_at(after, jobs.len() as int);
}

/// A job that is claimed and then completed reads back as completed, claimed at
/// the claim and completed at the completion.
pub proof fn lemma_claim_then_complete(jobs: Seq<JobView>, id: Seq<char>, t1: i128, t2: i128)
    requires
        job_ids_unique(jobs),
        has_job(jobs, id),
    ensures
        ({
            let after = update_rows(
                update_rows(jobs, SelectorView::Id(id), ChangeView::Claim(t1)),
                SelectorView::Id(id),
                ChangeView::Complete(t2),
            );
            &&& find_job(after, id) is Some
            &&& find_job(after, id)->0.status == JobStatus::Completed
            &&& find_job(after, id)->0.claimed_at == Some(t1)
            &&& find_job(after, id)->0.completed_at == Some(t2)
        }),
{
    let mid = update_rows(jobs, SelectorView::Id(id), ChangeView::Claim(t1));
    lemma_read_after_update(jobs, id, ChangeView::Claim(t1), id);
    lemma_update_keeps_ids(jobs, SelectorView::Id(id), ChangeView::Claim(t1));
    let k = choose|i: int| 0 <= i < jobs.len() && jobs[i].id == id;
    lemma_find_job_at(jobs, k);
    lemma_read_after_update(mid, id, ChangeView::Complete(t2), id);
}

/// A job with no dead-letter record that fails for good (`mark_failed` without a
/// retry instant, answered `Ok`) lands in the dead-letter queue with its payload,
/// its attempt count and the error; requeueing it then succeeds, makes it pending
/// with no attempts and no error, due at the instant of the requeue (so a claim
/// then takes it), with its type, payload, priority and attempt limit as before,
/// and gives the dead-letter queue back its former contents.
pub proof fn lemma_dead_letter_then_requeue(
    s: JobStoreView,
    id: Seq<char>,
    error: Seq<char>,
    t1: i128,
    letter_id: Seq<char>,
    t2: i128,
)
    requires
        store_wf(s),
        kill_outcome(s, id, error, t1, letter_id).1 is Ok,
        !has_letter_for(s.dead_letters, id),
    ensures
        ({
            let (s1, r1) = kill_outcome(s, id, error, t1, letter_id);
            let (s2, r2) = requeue_outcome(s1, id, t2);
            &&& has_job(s.jobs, id)
            &&& find_job(s1.jobs, id)->0.status == JobStatus::Dead
            &&& s1.dead_letters.last().job_id == id
            &&& s1.dead_letters.last().last_error == Some(error)
            &&& s1.dead_letters.last().payload == find_job(s.jobs, id)->0.payload
            &&& s1.dead_letters.last().total_attempts == find_job(s1.jobs, id)->0.attempt
            &&& r2
            &&& find_job(s2.jobs, id)->0.status == JobStatus::Pending
            &&& find_job(s2.jobs, id)->0.attempt == 0
            &&& find_job(s2.jobs, id)->0.error is None
            &&& find_job(s2.jobs, id)->0.run_at == t2
            &&& eligible(find_job(s2.jobs, id)->0, t2)
            &&& find_job(s2.jobs, id)->0.job_type == find_job(s.jobs, id)->0.job_type
            &&& find_job(s2.jobs, id)->0.payload == find_job(s.jobs, id)->0.payload
            &&& find_job(s2.jobs, id)->0.priority == find_job(s.jobs, id)->0.priority
            &&& find_job(s2.jobs, id)->0.max_attempts == find_job(s.jobs, id)->0.max_attempts
            &&& find_job(s2.jobs, id)->0.created_at == find_job(s.jobs, id)->0.created_at
            &&& !has_letter_for(s2.dead_letters, id)
            &&& s2.dead_letters == s.dead_letters
        }),
{
    let (s1, r1) = kill_outcome(s, id, error, t1, letter_id);
    let kill = ChangeView::Kill(error, t1);
    lemma_read_after_update(s.jobs, id, kill, id);
    lemma_update_keeps_ids(s.jobs, SelectorView::Id(id), kill);
    let k = choose|i: int| 0 <= i < s.jobs.len() && s.jobs[i].id == id;
    lemma_find_job_at(s.jobs, k);
    let n = s1.dead_letters.len() - 1;
    assert(s1.dead_letters[n].job_id == id);
    assert(has_letter_for(s1.dead_letters, id));
    lemma_read_after_update(s1.jobs, id, ChangeView::Requeue(t2), id);
    let (s2, r2) = requeue_outcome(s1, id, t2);
    let p = not_for_job(id);
    assert forall|i: int| 0 <= i < s2.dead_letters.len() implies s2.dead_letters[i].job_id != id by {
        s1.dead_letters.lemma_filter_pred(p, i);
    }
    assert(s1.dead_letters.drop_last() =~= s.dead_letters);
    reveal(Seq::filter);
    assert(s1.dead_letters.filter(p) == s.dead_letters.filter(p));
    lemma_filter_keeps_all(s.dead_letters, p);
}

/// Keeping the records that all satisfy a predicate keeps them all.
proof fn lemma_filter_keeps_all(letters: Seq<DeadLetterView>, p: spec_fn(DeadLetterView) -> bool)
    requires
        forall|i: int| 0 <= i < letters.len() ==> #[trigger] p(letters[i]),
    ensures
        letters.filter(p) == letters,
    decreases letters.len(),
{
    reveal(Seq::filter);
    if letters.len() > 0 {
        let rest = letters.drop_last();
        assert forall|i: int| 0 <= i < rest.len() implies #[trigger] p(rest[i]) by {
            assert(rest[i] == letters[i]);
        }
        lemma_filter_keeps_all(rest, p);
        assert(p(letters[letters.len() - 1]));
        assert(rest.push(letters.last()) =~= letters);
    }
}

/// A failed run that was the job's last allowed one sends the job to the
/// dead-letter queue, whatever the error (the poison-pill rule: a job runs at most
/// `max_attempts` times); so does a fatal error; a retryable failure with
/// attempts left makes it retrying, due no sooner than the capped backoff delay
/// after the failure.
pub proof fn lemma_failure_outcomes(
    p: RetryPolicy,
    s: JobStoreView,
    job: JobView,
    e: JobErrorView,
    now: i128,
    random: u64,
    letter_id: Seq<char>,
)
    requires
        store_wf(s),
        job_ids_unique(s.jobs),
        find_job(s.jobs, job.id) is Some,
        0 <= job.attempt,
    ensures
        last_attempt(job) ==> finish_outcome(p, s, job, Err(e), now, random, letter_id) == kill_outcome(s, job.id, e.message, now, letter_id),
        !e.retryable ==> finish_outcome(p, s, job, Err(e), now, random, letter_id) == kill_outcome(s, job.id, e.message, now, letter_id),
        retries(job, e) && shifted(now as int, p.delay_for(job.attempt as int, random)) is Some ==> {
            let (s1, r) = finish_outcome(p, s, job, Err(e), now, random, letter_id);
            &&& r is Ok
            &&& find_job(s1.jobs, job.id)->0.status == JobStatus::Retrying
            &&& find_job(s1.jobs, job.id)->0.run_at >= now + p.capped_delay(job.attempt as int) * NANOS_PER_SEC
        },
{
    lemma_backoff_bounds(p, job.attempt as int, random);
    let t = shifted(now as int, p.delay_for(job.attempt as int, random));
    if t is Some {
        lemma_read_after_update(s.jobs, job.id, ChangeView::Retry(e.message, t->0 as i128, now), job.id);
    }
}

/// After a heartbeat sweep no job is abandoned any longer, the sweep counts exactly
/// the jobs it reclaimed, and it leaves every other job as it was.
pub proof fn lemma_reclaim_sweep(jobs: Seq<JobView>, cutoff: i128, now: i128)
    ensures
        ({
            let after = update_rows(jobs, SelectorView::Abandoned(cutoff), ChangeView::Reclaim(now));
            &&& forall|i: int| 0 <= i < after.len() ==> !abandoned(#[trigger] after[i], cutoff)
            &&& forall|i: int| 0 <= i < jobs.len() && !abandoned(jobs[i], cutoff) ==> #[trigger] after[i] == jobs[i]
            &&& forall|i: int| 0 <= i < jobs.len() && abandoned(jobs[i], cutoff) ==> (#[trigger] after[i]).status == JobStatus::Pending
        }),
{
}

/// Promotion lifts a priority by exactly one level and never past High.
pub proof fn lemma_promotion_one_level(p: Priority)
    ensures
        priority_rank(p) < 3 ==> priority_rank(promoted(p)) == priority_rank(p) + 1,
        priority_rank(promoted(p)) <= 3,
        priority_rank(promoted(p)) >= priority_rank(p),
{
}

/// After a starvation sweep every promoted job moved up exactly one level, and the
/// jobs it did not select are as they were.
pub proof fn lemma_starvation_sweep(jobs: Seq<JobView>, cutoff: i128, now: i128)
    ensures
        ({
            let after = update_rows(jobs, SelectorView::Starving(cutoff), ChangeView::Promote(now));
            &&& forall|i: int| 0 <= i < jobs.len() && starving(jobs[i], cutoff)
                ==> priority_rank((#[trigger] after[i]).priority) == priority_rank(jobs[i].priority) + 1
            &&& forall|i: int| 0 <= i < jobs.len() && !starving(jobs[i], cutoff) ==> #[trigger] after[i] == jobs[i]
        }),
{
}

/// The status changes the job state machine allows: a waiting job starts running;
/// a running job completes, is retried, dies, or is handed back to the queue; a
/// dead job is requeued; or the status stays.
pub open spec fn status_step(from: JobStatus, to: JobStatus) -> bool {
    ||| from == to
    ||| is_waiting(from) && to == JobStatus::Running
    ||| from == JobStatus::Running && (to == JobStatus::Completed || to == JobStatus::Retrying || to
        == JobStatus::Dead || to == JobStatus::Pending)
    ||| from == JobStatus::Dead && to == JobStatus::Pending
}

/// The job is in the state a change is made for: a claim takes a waiting job;
/// completion, retry, death and reclaiming concern a running job; a requeue a dead one.
pub open spec fn change_fits(c: ChangeView, j: JobView) -> bool {
    match c {
        ChangeView::Claim(_) => is_waiting(j.status),
        ChangeView::Complete(_) => j.status == JobStatus::Running,
        ChangeView::Retry(_, _, _) => j.status == JobStatus::Running,
        ChangeView::Kill(_, _) => j.status == JobStatus::Running,
        ChangeView::Reclaim(_) => j.status == JobStatus::Running,
        ChangeView::Requeue(_) => j.status == JobStatus::Dead,
        ChangeView::Beat(_) => true,
        ChangeView::Promote(_) => true,
    }
}

/// The job state machine: every update, made to rows in the state it is made for,
/// moves each row only along the allowed status changes (pending/retrying to
/// running; running to completed, retrying, dead or pending; dead to pending), and
/// no update ever makes a job `failed`. The sweeps select only rows they fit
/// (abandoned jobs are running; promotion keeps the status), and a claim selects
/// an eligible, hence waiting, job.
pub proof fn lemma_state_machine(jobs: Seq<JobView>, sel: SelectorView, c: ChangeView)
    requires
        forall|i: int| 0 <= i < jobs.len() && selects(sel, #[trigger] jobs[i]) ==> change_fits(c, jobs[i]),
    ensures
        ({
            let after = update_rows(jobs, sel, c);
            &&& forall|i: int| 0 <= i < jobs.len() ==> status_step(jobs[i].status, #[trigger] after[i].status)
            &&& forall|i: int| 0 <= i < jobs.len() && (#[trigger] after[i]).status == JobStatus::Failed
                ==> jobs[i].status == JobStatus::Failed
        }),
{
}

/// The sweeps fit the rows they select: the heartbeat sweep selects only running
/// jobs, and promotion fits any job.
pub proof fn lemma_sweeps_fit(j: JobView, cutoff: i128, now: i128)
    ensures
        selects(SelectorView::Abandoned(cutoff), j) ==> change_fits(ChangeView::Reclaim(now), j),
        change_fits(ChangeView::Promote(now), j),
        eligible(j, now) ==> change_fits(ChangeView::Claim(now), j),
{
}

/// A run of a running job ends in exactly one state: success completes it; a
/// retryable failure with attempts left makes it retrying; any other failure makes
/// it dead. Where recording fails, nothing changes; other jobs never change.
pub proof fn lemma_run_ends_in_one_state(
    p: RetryPolicy,
    s: JobStoreView,
    job: JobView,
    outcome: Result<(), JobErrorView>,
    now: i128,
    random: u64,
    letter_id: Seq<char>,
    other: Seq<char>,
)
    requires
        store_wf(s),
        find_job(s.jobs, job.id) is Some,
        find_job(s.jobs, job.id)->0.status == JobStatus::Running,
    ensures
        ({
            let (s1, r) = finish_outcome(p, s, job, outcome, now, random, letter_id);
            &&& r is Err ==> s1 == s
            &&& r is Ok && outcome is Ok ==> find_job(s1.jobs, job.id)->0.status == JobStatus::Completed
            &&& r is Ok && outcome is Err && retries(job, outcome->Err_0) ==> find_job(s1.jobs, job.id)->0.status
                == JobStatus::Retrying
            &&& r is Ok && outcome is Err && !retries(job, outcome->Err_0) ==> find_job(s1.jobs, job.id)->0.status
                == JobStatus::Dead
            &&& r is Ok ==> status_step(JobStatus::Running, find_job(s1.jobs, job.id)->0.status)
            &&& other != job.id ==> find_job(s1.jobs, other) == find_job(s.jobs, other)
        }),
{
    match outcome {
        Ok(()) => {
            lemma_read_after_update(s.jobs, job.id, ChangeView::Complete(now), other);
            lemma_read_after_update(s.jobs, job.id, ChangeView::Complete(now), job.id);
        },
        Err(e) => {
            let t = shifted(now as int, p.delay_for(job.attempt as int, random));
            if retries(job, e) {
                if t is Some {
                    lemma_read_after_update(s.jobs, job.id, ChangeView::Retry(e.message, t->0 as i128, now), other);
                    lemma_read_after_update(s.jobs, job.id, ChangeView::Retry(e.message, t->0 as i128, now), job.id);
                }
            } else {
                lemma_read_after_update(s.jobs, job.id, ChangeView::Kill(e.message, now), other);
                lemma_read_after_update(s.jobs, job.id, ChangeView::Kill(e.message, now), job.id);
            }
        },
    }
}

/// A claim at `now` takes only a job that is pending or retrying and due, its
/// `run_at` at or before `now`, and marks it running, claimed, heartbeaten and
/// updated at `now`. A job not yet due is left as it was. With no due pending or
/// retrying job, the claim takes nothing and changes nothing.
pub proof fn lemma_claim_takes_only_due_jobs(s: JobStoreView, now: i128, r: Option<JobView>, s2: JobStoreView)
    requires
        store_wf(s),
        claim_result(s, now, r, s2),
    ensures
        r matches Some(j) ==> {
            &&& has_job(s.jobs, j.id)
            &&& (find_job(s.jobs, j.id)->0.status == JobStatus::Pending
                || find_job(s.jobs, j.id)->0.status == JobStatus::Retrying)
            &&& find_job(s.jobs, j.id)->0.run_at <= now
            &&& j.status == JobStatus::Running
            &&& j.claimed_at == Some(now)
            &&& j.last_heartbeat == Some(now)
            &&& j.updated_at == now
            &&& find_job(s2.jobs, j.id) == Some(j)
        },
        s2.dead_letters == s.dead_letters,
        s2.jobs.len() == s.jobs.len(),
        forall|i: int| 0 <= i < s.jobs.len() && s.jobs[i].run_at > now ==> #[trigger] s2.jobs[i] == s.jobs[i],
        r is None <==> forall|i: int|
            0 <= i < s.jobs.len() ==> !((s.jobs[i].status == JobStatus::Pending || s.jobs[i].status
                == JobStatus::Retrying) && #[trigger] s.jobs[i].run_at <= now),
        r is None ==> s2 == s,
{
    if r is Some {
        let j = r->0;
        let i = choose|i: int| {
            &&& #[trigger] is_claim_index(s.jobs, now, i)
            &&& j == changed(ChangeView::Claim(now), s.jobs[i])
            &&& s2 == crate::store::updated(s, SelectorView::Id(s.jobs[i].id), ChangeView::Claim(now))
        };
        let id = s.jobs[i].id;
        lemma_find_job_at(s.jobs, i);
        lemma_update_keeps_ids(s.jobs, SelectorView::Id(id), ChangeView::Claim(now));
        lemma_find_job_at(s2.jobs, i);
        assert(eligible(s.jobs[i], now));
        assert forall|k: int| 0 <= k < s.jobs.len() && s.jobs[k].run_at > now implies #[trigger] s2.jobs[k] == s.jobs[k] by {
            if s.jobs[k].id == id {
                assert(k == i);
            }
        }
        assert(!(forall|k: int|
            0 <= k < s.jobs.len() ==> !((s.jobs[k].status == JobStatus::Pending || s.jobs[k].status
                == JobStatus::Retrying) && #[trigger] s.jobs[k].run_at <= now)));
    } else {
        assert forall|k: int| 0 <= k < s.jobs.len() implies !((s.jobs[k].status == JobStatus::Pending
            || s.jobs[k].status == JobStatus::Retrying) && #[trigger] s.jobs[k].run_at <= now) by {
            if (s.jobs[k].status == JobStatus::Pending || s.jobs[k].status == JobStatus::Retrying) && s.jobs[k].run_at <= now {
                assert(eligible(s.jobs[k], now));
            }
        }
    }
}

/// The end of a run is recorded at `now`. A success completes the job then. A
/// retry is recorded then and is due no sooner than `now` plus the capped backoff
/// delay. A final failure kills the job then, and its dead-letter record dies then.
pub proof fn lemma_finish_records_at_now(
    p: RetryPolicy,
    s: JobStoreView,
    job: JobView,
    outcome: Result<(), JobErrorView>,
    now: i128,
    random: u64,
    letter_id: Seq<char>,
)
    requires
        store_wf(s),
        find_job(s.jobs, job.id) is Some,
        0 <= job.attempt,
    ensures
        ({
            let (s1, r) = finish_outcome(p, s, job, outcome, now, random, letter_id);
            let after = find_job(s1.jobs, job.id)->0;
            &&& r is Ok && outcome is Ok ==> after.status == JobStatus::Completed && after.completed_at == Some(now)
                && after.updated_at == now
            &&& r is Ok && outcome is Err && retries(job, outcome->Err_0) ==> after.status == JobStatus::Retrying
                && after.updated_at == now && after.run_at >= now + p.capped_delay(job.attempt as int) * NANOS_PER_SEC
            &&& r is Ok && outcome is Err && !retries(job, outcome->Err_0) ==> after.status == JobStatus::Dead
                && after.updated_at == now && s1.dead_letters.len() == s.dead_letters.len() + 1
                && s1.dead_letters.last().died_at == now && s1.dead_letters.last().job_id == job.id
        }),
{
    match outcome {
        Ok(()) => {
            lemma_read_after_update(s.jobs, job.id, ChangeView::Complete(now), job.id);
        },
        Err(e) => {
            lemma_failure_outcomes(p, s, job, e, now, random, letter_id);
            let t = shifted(now as int, p.delay_for(job.attempt as int, random));
            if retries(job, e) {
                if t is Some {
                    lemma_read_after_update(s.jobs, job.id, ChangeView::Retry(e.message, t->0 as i128, now), job.id);
                }
            } else {
                lemma_read_after_update(s.jobs, job.id, ChangeView::Kill(e.message, now), job.id);
            }
        },
    }
}

/// A heartbeat sweep at `now` with a timeout of `secs` seconds hands back to the
/// queue exactly the running jobs whose last heartbeat lies before `now` less
/// `secs` seconds. A running job that beat within the timeout, and every job that
/// is not running, stays as it was. The sweep succeeds whenever the cutoff is an
/// instant after the earliest representable one.
pub proof fn lemma_reclaim_spares_live_jobs(s: JobStoreView, now: i128, secs: i64)
    ensures
        ({
            let (s2, r) = sweep_outcome(s, now, secs, true);
            let cutoff = now - secs * NANOS_PER_SEC;
            &&& s2.jobs.len() == s.jobs.len()
            &&& s2.dead_letters == s.dead_letters
            &&& r is Err ==> s2 == s
            &&& time_in_range(now as int) && 0 <= secs && MIN_TIME_NANOS <= cutoff ==> r is Ok
            &&& forall|i: int| 0 <= i < s.jobs.len() && s.jobs[i].status != JobStatus::Running ==> #[trigger] s2.jobs[i] == s.jobs[i]
            &&& forall|i: int| 0 <= i < s.jobs.len() && (s.jobs[i].last_heartbeat matches Some(h) && h >= cutoff)
                ==> #[trigger] s2.jobs[i] == s.jobs[i]
            &&& forall|i: int| 0 <= i < s.jobs.len() && s.jobs[i].last_heartbeat is None ==> #[trigger] s2.jobs[i] == s.jobs[i]
            &&& r is Ok ==> forall|i: int| 0 <= i < s.jobs.len() && s.jobs[i].status == JobStatus::Running
                && (s.jobs[i].last_heartbeat matches Some(h) && h < cutoff) ==> {
                    &&& (#[trigger] s2.jobs[i]).status == JobStatus::Pending
                    &&& s2.jobs[i].claimed_at is None
                    &&& s2.jobs[i].last_heartbeat is None
                    &&& s2.jobs[i].updated_at == now
                }
        }),
{
}

/// A starvation sweep at `now` with a threshold of `secs` seconds moves up one
/// level (Low to Normal, Normal to High) exactly the jobs that are pending or
/// retrying, below High, and created before `now` less `secs` seconds, and
/// stamps them with `now`. Every other job stays as it was.
pub proof fn lemma_starvation_promotes_waiting_jobs(s: JobStoreView, now: i128, secs: i64)
    ensures
        ({
            let (s2, r) = sweep_outcome(s, now, secs, false);
            let cutoff = now - secs * NANOS_PER_SEC;
            &&& s2.jobs.len() == s.jobs.len()
            &&& s2.dead_letters == s.dead_letters
            &&& r is Err ==> s2 == s
            &&& time_in_range(now as int) && 0 <= secs && MIN_TIME_NANOS <= cutoff ==> r is Ok
            &&& r is Ok ==> forall|i: int| 0 <= i < s.jobs.len() ==> {
                let j = s.jobs[i];
                if (j.status == JobStatus::Pending || j.status == JobStatus::Retrying) && j.priority != Priority::High
                    && j.created_at < cutoff {
                    &&& (j.priority == Priority::Low ==> (#[trigger] s2.jobs[i]).priority == Priority::Normal)
                    &&& (j.priority == Priority::Normal ==> s2.jobs[i].priority == Priority::High)
                    &&& s2.jobs[i].status == j.status
                    &&& s2.jobs[i].updated_at == now
                } else {
                    s2.jobs[i] == j
                }
            }
        }),
{
}

} // verus!

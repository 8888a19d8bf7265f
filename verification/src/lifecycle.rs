//! A job's life over any sequence of calls on the queue: the statuses it passes
//! through, and the link between the dead-letter queue and dead jobs.
use vstd::prelude::*;
use crate::job::{JobStatus, JobView};
use crate::laws::{lemma_claim_index_unique, lemma_state_machine, status_step, change_fits};
use crate::store::{
    claim_result, find_job, has_job, has_letter_for, has_letter_id, is_claim_index, job_ids_unique,
    kill_outcome, lemma_filter_keeps_unique, lemma_find_job_at, lemma_update_keeps_ids, letter_for,
    letter_ids_unique, not_for_job, requeue_outcome, selects, store_wf, stored_form, sweep_outcome,
    update_rows, updated, ChangeView, JobStoreView, SelectorView,
};

verus! {

/// A call that changes the tables, with what it is handed and the instants and
/// identifiers it draws.
pub enum Op {
    /// `enqueue` of the job.
    Enqueue(JobView),
    /// `claim_next` at the instant.
    Claim(i128),
    /// `mark_completed` of the job at the instant.
    Complete(Seq<char>, i128),
    /// `mark_failed` of the job with the error and a retry instant, at the last instant.
    FailRetry(Seq<char>, Seq<char>, i128, i128),
    /// `mark_failed` of the job with the error and no retry instant, at the
    /// instant, under the dead-letter identifier.
    FailDead(Seq<char>, Seq<char>, i128, Seq<char>),
    /// `update_heartbeat` of the job at the instant.
    Beat(Seq<char>, i128),
    /// `reclaim_abandoned` with the timeout in seconds, at the instant.
    Reclaim(i64, i128),
    /// `prevent_starvation` with the threshold in seconds, at the instant.
    Promote(i64, i128),
    /// `requeue_from_dlq` of the job at the instant.
    Requeue(Seq<char>, i128),
}

/// The job that a claim at `now` takes, where there is one.
pub open spec fn claim_choice(jobs: Seq<JobView>, now: i128) -> int {
    choose|i: int| is_claim_index(jobs, now, i)
}

/// The tables after a call.
pub open spec fn apply_op(s: JobStoreView, op: Op) -> JobStoreView {
    match op {
        Op::Enqueue(j) => if has_job(s.jobs, j.id) {
            s
        } else {
            JobStoreView { jobs: s.jobs.push(stored_form(j)), dead_letters: s.dead_letters }
        },
        Op::Claim(now) => if exists|i: int| is_claim_index(s.jobs, now, i) {
            updated(s, SelectorView::Id(s.jobs[claim_choice(s.jobs, now)].id), ChangeView::Claim(now))
        } else {
            s
        },
        Op::Complete(id, now) => updated(s, SelectorView::Id(id), ChangeView::Complete(now)),
        Op::FailRetry(id, error, run_at, now) => updated(
            s,
            SelectorView::Id(id),
            ChangeView::Retry(error, run_at, now),
        ),
        Op::FailDead(id, error, now, letter_id) => kill_outcome(s, id, error, now, letter_id).0,
        Op::Beat(id, now) => updated(s, SelectorView::Id(id), ChangeView::Beat(now)),
        Op::Reclaim(secs, now) => sweep_outcome(s, now, secs, true).0,
        Op::Promote(secs, now) => sweep_outcome(s, now, secs, false).0,
        Op::Requeue(id, now) => requeue_outcome(s, id, now).0,
    }
}

/// The job a call concerns is running, or missing (the worker marks only the job
/// it runs); a job is enqueued pending.
pub open spec fn op_fits(s: JobStoreView, op: Op) -> bool {
    match op {
        Op::Enqueue(j) => j.status == JobStatus::Pending,
        Op::Complete(id, _) => has_job(s.jobs, id) ==> find_job(s.jobs, id)->0.status == JobStatus::Running,
        Op::FailRetry(id, _, _, _) => has_job(s.jobs, id) ==> find_job(s.jobs, id)->0.status
            == JobStatus::Running,
        Op::FailDead(id, _, _, _) => has_job(s.jobs, id) ==> find_job(s.jobs, id)->0.status
            == JobStatus::Running,
        _ => true,
    }
}

/// Every dead-letter record belongs to a job that is dead.
pub open spec fn letters_dead(s: JobStoreView) -> bool {
    forall|i: int|
        0 <= i < s.dead_letters.len() ==> {
            &&& has_job(s.jobs, #[trigger] s.dead_letters[i].job_id)
            &&& find_job(s.jobs, s.dead_letters[i].job_id)->0.status == JobStatus::Dead
        }
}

/// The tables' invariant over any run of calls: the primary keys hold and every
/// dead-letter record belongs to a dead job.
pub open spec fn queue_inv(s: JobStoreView) -> bool {
    store_wf(s) && letters_dead(s)
}

/// A call moves every job along an allowed status change, keeps every job, and
/// never makes a job `failed`.
pub open spec fn step_ok(s: JobStoreView, s2: JobStoreView) -> bool {
    forall|id: Seq<char>|
        #![trigger has_job(s.jobs, id)]
        #![trigger has_job(s2.jobs, id)]
        {
            &&& has_job(s.jobs, id) ==> has_job(s2.jobs, id) && status_step(
                find_job(s.jobs, id)->0.status,
                find_job(s2.jobs, id)->0.status,
            )
            &&& has_job(s2.jobs, id) && find_job(s2.jobs, id)->0.status == JobStatus::Failed ==> has_job(
                s.jobs,
                id,
            ) && find_job(s.jobs, id)->0.status == JobStatus::Failed
        }
}

/// The tables after the calls, in order.
pub open spec fn apply_ops(s: JobStoreView, ops: Seq<Op>) -> JobStoreView
    decreases ops.len(),
{
    if ops.len() == 0 {
        s
    } else {
        apply_op(apply_ops(s, ops.drop_last()), ops.last())
    }
}

/// Each call of the run fits the tables it is made on.
pub open spec fn run_fits(s: JobStoreView, ops: Seq<Op>) -> bool
    decreases ops.len(),
{
    ops.len() == 0 || (run_fits(s, ops.drop_last()) && op_fits(apply_ops(s, ops.drop_last()), ops.last()))
}

/// An update that fits the rows it selects keeps every job, moves each along an
/// allowed status change and makes none `failed`; where it leaves dead rows dead,
/// the dead-letter records still belong to dead jobs.
proof fn lemma_update_step(s: JobStoreView, sel: SelectorView, c: ChangeView)
    requires
        queue_inv(s),
        forall|i: int| 0 <= i < s.jobs.len() && selects(sel, #[trigger] s.jobs[i]) ==> change_fits(c, s.jobs[i]),
    ensures
        step_ok(s, updated(s, sel, c)),
        store_wf(updated(s, sel, c)),
        (forall|i: int|
            0 <= i < s.jobs.len() && selects(sel, #[trigger] s.jobs[i]) && s.jobs[i].status == JobStatus::Dead
                ==> crate::store::changed(c, s.jobs[i]).status == JobStatus::Dead) ==> letters_dead(
            updated(s, sel, c),
        ),
{
    let after = update_rows(s.jobs, sel, c);
    lemma_update_keeps_ids(s.jobs, sel, c);
    lemma_state_machine(s.jobs, sel, c);
    assert forall|id: Seq<char>| has_job(s.jobs, id) implies has_job(after, id) && status_step(
        find_job(s.jobs, id)->0.status,
        find_job(after, id)->0.status,
    ) by {
        let k = choose|i: int| 0 <= i < s.jobs.len() && s.jobs[i].id == id;
        lemma_find_job_at(s.jobs, k);
        lemma_find_job_at(after, k);
    }
    assert forall|id: Seq<char>| has_job(after, id) && find_job(after, id)->0.status == JobStatus::Failed implies has_job(
        s.jobs,
        id,
    ) && find_job(s.jobs, id)->0.status == JobStatus::Failed by {
        let k = choose|i: int| 0 <= i < after.len() && after[i].id == id;
        lemma_find_job_at(s.jobs, k);
        lemma_find_job_at(after, k);
    }
    if forall|i: int|
        0 <= i < s.jobs.len() && selects(sel, #[trigger] s.jobs[i]) && s.jobs[i].status == JobStatus::Dead
            ==> crate::store::changed(c, s.jobs[i]).status == JobStatus::Dead {
        assert forall|i: int| 0 <= i < s.dead_letters.len() implies {
            &&& has_job(after, #[trigger] s.dead_letters[i].job_id)
            &&& find_job(after, s.dead_letters[i].job_id)->0.status == JobStatus::Dead
        } by {
            let id = s.dead_letters[i].job_id;
            let k = choose|x: int| 0 <= x < s.jobs.len() && s.jobs[x].id == id;
            lemma_find_job_at(s.jobs, k);
            lemma_find_job_at(after, k);
        }
    }
}

/// The rows that an update of one job by identifier selects fit the change, when
/// that job fits it.
proof fn lemma_id_fits(jobs: Seq<JobView>, id: Seq<char>, c: ChangeView)
    requires
        job_ids_unique(jobs),
        has_job(jobs, id) ==> change_fits(c, find_job(jobs, id)->0),
    ensures
        forall|i: int| 0 <= i < jobs.len() && selects(SelectorView::Id(id), #[trigger] jobs[i]) ==> change_fits(c, jobs[i]),
        forall|i: int| 0 <= i < jobs.len() && selects(SelectorView::Id(id), #[trigger] jobs[i]) ==> jobs[i] == find_job(jobs, id)->0,
{
    assert forall|i: int| 0 <= i < jobs.len() && selects(SelectorView::Id(id), #[trigger] jobs[i]) implies change_fits(c, jobs[i])
        && jobs[i] == find_job(jobs, id)->0 by {
        lemma_find_job_at(jobs, i);
    }
}

/// A job with a dead-letter record is dead, so it is not running.
proof fn lemma_running_has_no_letter(s: JobStoreView, id: Seq<char>)
    requires
        queue_inv(s),
        has_job(s.jobs, id),
        find_job(s.jobs, id)->0.status != JobStatus::Dead,
    ensures
        !has_letter_for(s.dead_letters, id),
{
    if has_letter_for(s.dead_letters, id) {
        let i = choose|i: int| 0 <= i < s.dead_letters.len() && s.dead_letters[i].job_id == id;
        assert(find_job(s.jobs, s.dead_letters[i].job_id)->0.status == JobStatus::Dead);
    }
}

/// Every call that fits the tables keeps the invariant and moves the jobs only
/// along allowed status changes.
pub proof fn lemma_op_step(s: JobStoreView, op: Op)
    requires
        queue_inv(s),
        op_fits(s, op),
    ensures
        queue_inv(apply_op(s, op)),
        step_ok(s, apply_op(s, op)),
{
    let s2 = apply_op(s, op);
    match op {
        Op::Enqueue(j) => {
            if !has_job(s.jobs, j.id) {
                let after = s.jobs.push(stored_form(j));
                assert(job_ids_unique(after));
                assert forall|id: Seq<char>| has_job(s.jobs, id) implies has_job(after, id) && find_job(after, id)
                    == find_job(s.jobs, id) by {
                    let k = choose|i: int| 0 <= i < s.jobs.len() && s.jobs[i].id == id;
                    lemma_find_job_at(s.jobs, k);
                    lemma_find_job_at(after, k);
                }
                assert forall|id: Seq<char>| has_job(after, id) && !has_job(s.jobs, id) implies find_job(after, id)->0.status
                    == JobStatus::Pending by {
                    let k = choose|i: int| 0 <= i < after.len() && after[i].id == id;
                    lemma_find_job_at(after, k);
                    assert(k == s.jobs.len());
                }
                assert forall|i: int| 0 <= i < s.dead_letters.len() implies {
                    &&& has_job(after, #[trigger] s.dead_letters[i].job_id)
                    &&& find_job(after, s.dead_letters[i].job_id)->0.status == JobStatus::Dead
                } by {
                    assert(has_job(s.jobs, s.dead_letters[i].job_id));
                }
            }
        },
        Op::Claim(now) => {
            if exists|i: int| is_claim_index(s.jobs, now, i) {
                let ci = claim_choice(s.jobs, now);
                let id = s.jobs[ci].id;
                lemma_find_job_at(s.jobs, ci);
                lemma_id_fits(s.jobs, id, ChangeView::Claim(now));
                lemma_update_step(s, SelectorView::Id(id), ChangeView::Claim(now));
            }
        },
        Op::Complete(id, now) => {
            lemma_id_fits(s.jobs, id, ChangeView::Complete(now));
            lemma_update_step(s, SelectorView::Id(id), ChangeView::Complete(now));
        },
        Op::FailRetry(id, error, run_at, now) => {
            let c = ChangeView::Retry(error, run_at, now);
            lemma_id_fits(s.jobs, id, c);
            lemma_update_step(s, SelectorView::Id(id), c);
        },
        Op::FailDead(id, error, now, letter_id) => {
            let c = ChangeView::Kill(error, now);
            if has_job(s.jobs, id) && !has_letter_id(s.dead_letters, letter_id) {
                lemma_id_fits(s.jobs, id, c);
                lemma_update_step(s, SelectorView::Id(id), c);
                lemma_running_has_no_letter(s, id);
                let after = update_rows(s.jobs, SelectorView::Id(id), c);
                let k = choose|i: int| 0 <= i < s.jobs.len() && s.jobs[i].id == id;
                lemma_find_job_at(s.jobs, k);
                lemma_update_keeps_ids(s.jobs, SelectorView::Id(id), c);
                lemma_find_job_at(after, k);
                let letter = letter_for(letter_id, find_job(after, id)->0, now);
                let dl = s.dead_letters.push(letter);
                assert(letter_ids_unique(dl));
                assert forall|i: int| 0 <= i < dl.len() implies {
                    &&& has_job(after, #[trigger] dl[i].job_id)
                    &&& find_job(after, dl[i].job_id)->0.status == JobStatus::Dead
                } by {
                    if i < s.dead_letters.len() {
                        assert(dl[i] == s.dead_letters[i]);
                        let lid = s.dead_letters[i].job_id;
                        assert(has_job(s.jobs, lid));
                        assert(lid != id);
                        let m = choose|x: int| 0 <= x < s.jobs.len() && s.jobs[x].id == lid;
                        lemma_find_job_at(s.jobs, m);
                        lemma_find_job_at(after, m);
                    }
                }
            }
        },
        Op::Beat(id, now) => {
            lemma_id_fits(s.jobs, id, ChangeView::Beat(now));
            lemma_update_step(s, SelectorView::Id(id), ChangeView::Beat(now));
        },
        Op::Reclaim(secs, now) => {
            let t = crate::clock::shifted(now as int, -secs);
            if t is Some {
                let sel = SelectorView::Abandoned(t->0 as i128);
                lemma_update_step(s, sel, ChangeView::Reclaim(now));
            }
        },
        Op::Promote(secs, now) => {
            let t = crate::clock::shifted(now as int, -secs);
            if t is Some {
                let sel = SelectorView::Starving(t->0 as i128);
                lemma_update_step(s, sel, ChangeView::Promote(now));
            }
        },
        Op::Requeue(id, now) => {
            if has_letter_for(s.dead_letters, id) {
                let c = ChangeView::Requeue(now);
                let w = choose|i: int| 0 <= i < s.dead_letters.len() && s.dead_letters[i].job_id == id;
                assert(has_job(s.jobs, s.dead_letters[w].job_id));
                lemma_id_fits(s.jobs, id, c);
                lemma_update_step(s, SelectorView::Id(id), c);
                let after = update_rows(s.jobs, SelectorView::Id(id), c);
                lemma_update_keeps_ids(s.jobs, SelectorView::Id(id), c);
                let p = not_for_job(id);
                let dl = s.dead_letters.filter(p);
                lemma_filter_keeps_unique(s.dead_letters, p);
                assert forall|i: int| 0 <= i < dl.len() implies {
                    &&& has_job(after, #[trigger] dl[i].job_id)
                    &&& find_job(after, dl[i].job_id)->0.status == JobStatus::Dead
                } by {
                    s.dead_letters.lemma_filter_pred(p, i);
                    assert(dl.contains(dl[i]));
                    s.dead_letters.lemma_filter_contains_rev(p, dl[i]);
                    let v = choose|v: int| 0 <= v < s.dead_letters.len() && s.dead_letters[v] == dl[i];
                    let lid = s.dead_letters[v].job_id;
                    assert(has_job(s.jobs, lid));
                    let m = choose|x: int| 0 <= x < s.jobs.len() && s.jobs[x].id == lid;
                    lemma_find_job_at(s.jobs, m);
                    lemma_find_job_at(after, m);
                }
            }
        },
    }
}

/// The job state machine over any run of calls (enqueues, claims, completions,
/// failures, heartbeats, reclaiming and promotion sweeps, requeues), where the
/// worker marks only the job it runs: every dead-letter record belongs to a dead
/// job throughout; every call moves each job only along the allowed status changes
/// (pending or retrying to running; running to completed, retrying, dead or
/// pending; dead to pending), keeps every job, and never makes a job `failed`.
pub proof fn lemma_job_life(s: JobStoreView, ops: Seq<Op>)
    requires
        queue_inv(s),
        run_fits(s, ops),
    ensures
        queue_inv(apply_ops(s, ops)),
        forall|k: int|
            0 <= k < ops.len() ==> step_ok(
                #[trigger] apply_ops(s, ops.take(k)),
                apply_ops(s, ops.take(k + 1)),
            ),
    decreases ops.len(),
{
    if ops.len() > 0 {
        let prefix = ops.drop_last();
        lemma_job_life(s, prefix);
        lemma_op_step(apply_ops(s, prefix), ops.last());
        assert forall|k: int| 0 <= k < ops.len() implies step_ok(
            #[trigger] apply_ops(s, ops.take(k)),
            apply_ops(s, ops.take(k + 1)),
        ) by {
            if k < prefix.len() {
                assert(ops.take(k) =~= prefix.take(k));
                assert(ops.take(k + 1) =~= prefix.take(k + 1));
            } else {
                assert(ops.take(k) =~= prefix);
                assert(ops.take(k + 1) =~= ops);
                assert(ops.take(k + 1).drop_last() =~= prefix);
            }
        }
    }
}

/// A claim changes the tables exactly as the claim step of a run does.
pub proof fn lemma_claim_is_step(s: JobStoreView, now: i128, r: Option<JobView>, s2: JobStoreView)
    requires
        claim_result(s, now, r, s2),
    ensures
        s2 == apply_op(s, Op::Claim(now)),
{
    if r is Some {
        let i = choose|i: int| {
            &&& #[trigger] is_claim_index(s.jobs, now, i)
            &&& r->0 == crate::store::changed(ChangeView::Claim(now), s.jobs[i])
            &&& s2 == updated(s, SelectorView::Id(s.jobs[i].id), ChangeView::Claim(now))
        };
        lemma_claim_index_unique(s.jobs, now, i, claim_choice(s.jobs, now));
    } else {
        if exists|i: int| is_claim_index(s.jobs, now, i) {
            let i = choose|i: int| is_claim_index(s.jobs, now, i);
            assert(crate::store::eligible(s.jobs[i], now));
        }
    }
}

} // verus!

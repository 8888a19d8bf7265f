use job_queue::job::{DeadLetterJob, Job, JobStatus, JobType, Priority};
use job_queue::store::{JobStore, StoreError};

const SEC: i128 = 1_000_000_000;

fn job(id: &str, priority: Priority, created_at: i128) -> Job {
    Job::with_id_at(id.to_string(), JobType::Order, "{\"order_id\":\"o\"}".to_string(), priority, 3, created_at)
}

fn store_with(jobs: Vec<Job>) -> JobStore {
    let mut s = JobStore::new();
    for j in jobs.iter() {
        s.enqueue(j).unwrap();
    }
    s
}

#[test]
fn enqueue_then_get_reads_back_the_stored_job() {
    let mut j = job("a", Priority::Normal, 10);
    j.error = Some("left over".to_string());
    j.claimed_at = Some(5);
    j.attempt = 2;
    let s = store_with(vec![j]);
    let got = s.get_job("a").unwrap();
    assert_eq!(got.id, "a");
    assert_eq!(got.attempt, 2);
    assert_eq!(got.priority, Priority::Normal);
    assert_eq!(got.status, JobStatus::Pending);
    assert_eq!(got.created_at, 10);
    // columns the insert does not write start empty
    assert_eq!(got.error, None);
    assert_eq!(got.claimed_at, None);
    assert!(s.get_job("b").is_none());
}

#[test]
fn enqueue_refuses_a_taken_id() {
    let mut s = store_with(vec![job("a", Priority::Low, 1)]);
    assert_eq!(s.enqueue(&job("a", Priority::High, 2)), Err(StoreError::DuplicateId));
    assert_eq!(s.jobs().len(), 1);
    assert_eq!(s.get_job("a").unwrap().priority, Priority::Low);
}

#[test]
fn claim_takes_highest_priority_first() {
    let mut s = store_with(vec![
        job("low", Priority::Low, 1),
        job("high", Priority::High, 5),
        job("normal", Priority::Normal, 2),
    ]);
    let c = s.claim_next_at(100).unwrap();
    assert_eq!(c.id, "high");
    assert_eq!(c.status, JobStatus::Running);
    assert_eq!(c.claimed_at, Some(100));
    assert_eq!(c.last_heartbeat, Some(100));
    assert_eq!(c.updated_at, 100);
    assert_eq!(s.claim_next_at(100).unwrap().id, "normal");
    assert_eq!(s.claim_next_at(100).unwrap().id, "low");
    assert!(s.claim_next_at(100).is_none());
}

#[test]
fn claim_takes_oldest_within_a_priority() {
    let mut s = store_with(vec![
        job("newer", Priority::High, 50),
        job("older", Priority::High, 20),
        job("same-age", Priority::High, 20),
    ]);
    assert_eq!(s.claim_next_at(100).unwrap().id, "older");
    assert_eq!(s.claim_next_at(100).unwrap().id, "same-age");
    assert_eq!(s.claim_next_at(100).unwrap().id, "newer");
}

#[test]
fn claim_skips_jobs_not_yet_due_and_finished_jobs() {
    let mut future = job("future", Priority::High, 1);
    future.run_at = 500;
    let mut done = job("done", Priority::High, 1);
    done.status = JobStatus::Completed;
    let mut dead = job("dead", Priority::High, 1);
    dead.status = JobStatus::Dead;
    let mut retrying = job("retrying", Priority::Low, 1);
    retrying.status = JobStatus::Retrying;
    let mut s = store_with(vec![future, done, dead, retrying]);
    assert_eq!(s.claim_next_at(100).unwrap().id, "retrying");
    assert!(s.claim_next_at(100).is_none());
    assert_eq!(s.claim_next_at(500).unwrap().id, "future");
}

#[test]
fn claim_on_empty_store_changes_nothing() {
    let mut s = JobStore::new();
    assert!(s.claim_next_at(0).is_none());
    assert!(s.claim_next().is_none());
    assert_eq!(s.jobs().len(), 0);
}

#[test]
fn claim_now_takes_a_job_created_now() {
    let mut s = JobStore::new();
    let j = Job::new(JobType::Order, "{}".to_string(), Priority::High, 3);
    s.enqueue(&j).unwrap();
    let c = s.claim_next().unwrap();
    assert_eq!(c.id, j.id);
    assert!(c.claimed_at.unwrap() >= j.created_at);
}

#[test]
fn complete_after_claim() {
    let mut s = store_with(vec![job("a", Priority::Low, 1)]);
    s.claim_next_at(10).unwrap();
    s.mark_completed_at("a", 20);
    let a = s.get_job("a").unwrap();
    assert_eq!(a.status, JobStatus::Completed);
    assert_eq!(a.claimed_at, Some(10));
    assert_eq!(a.completed_at, Some(20));
    assert_eq!(a.updated_at, 20);
    // a missing job changes nothing
    s.mark_completed_at("missing", 30);
    assert_eq!(s.jobs().len(), 1);
}

#[test]
fn retry_after_failure() {
    let mut s = store_with(vec![job("a", Priority::Low, 1)]);
    s.claim_next_at(10).unwrap();
    s.fail_with_retry_at("a", "timeout", 5_000, 20);
    let a = s.get_job("a").unwrap();
    assert_eq!(a.status, JobStatus::Retrying);
    assert_eq!(a.attempt, 1);
    assert_eq!(a.error.as_deref(), Some("timeout"));
    assert_eq!(a.run_at, 5_000);
    assert_eq!(a.updated_at, 20);
    // not due before run_at
    assert!(s.claim_next_at(4_999).is_none());
    assert_eq!(s.claim_next_at(5_000).unwrap().id, "a");
}

#[test]
fn dead_letter_after_final_failure() {
    let mut s = store_with(vec![job("a", Priority::Normal, 1)]);
    s.claim_next_at(10).unwrap();
    assert_eq!(s.fail_to_dead_letter_at("a", "boom", 20, "dl-1".to_string()), Ok(()));
    let a = s.get_job("a").unwrap();
    assert_eq!(a.status, JobStatus::Dead);
    assert_eq!(a.attempt, 1);
    let dead = s.get_dead_letter_jobs();
    assert_eq!(dead.len(), 1);
    let d = &dead[0];
    assert_eq!(d.id, "dl-1");
    assert_eq!(d.job_id, "a");
    assert_eq!(d.job_type, "order");
    assert_eq!(d.payload, "{\"order_id\":\"o\"}");
    assert_eq!(d.priority, 2);
    assert_eq!(d.total_attempts, 1);
    assert_eq!(d.last_error.as_deref(), Some("boom"));
    assert_eq!(d.died_at, 20);
}

#[test]
fn dead_letter_of_missing_job_is_an_error() {
    let mut s = JobStore::new();
    assert_eq!(s.fail_to_dead_letter_at("ghost", "boom", 20, "dl".to_string()), Err(StoreError::JobNotFound));
    assert_eq!(s.mark_failed("ghost", "boom", None), Err(StoreError::JobNotFound));
    assert!(s.dead_letters().is_empty());
}

#[test]
fn dead_letter_id_clash_changes_nothing() {
    let mut s = store_with(vec![job("a", Priority::Normal, 1), job("b", Priority::Normal, 1)]);
    s.fail_to_dead_letter_at("a", "boom", 20, "dl".to_string()).unwrap();
    assert_eq!(s.fail_to_dead_letter_at("b", "bang", 21, "dl".to_string()), Err(StoreError::DuplicateId));
    let b = s.get_job("b").unwrap();
    assert_eq!(b.status, JobStatus::Pending);
    assert_eq!(b.attempt, 0);
    assert_eq!(b.error, None);
    assert_eq!(s.dead_letters().len(), 1);
}

#[test]
fn requeue_restores_the_dead_letter_queue() {
    let mut s = store_with(vec![job("a", Priority::Normal, 1), job("b", Priority::Normal, 1)]);
    s.fail_to_dead_letter_at("b", "old", 5, "dl-b".to_string()).unwrap();
    s.claim_next_at(10).unwrap();
    s.fail_to_dead_letter_at("a", "boom", 20, "dl-a".to_string()).unwrap();
    assert!(s.requeue_from_dlq_at("a", 30));
    let ids: Vec<String> = s.dead_letters().iter().map(|d| d.id.clone()).collect();
    assert_eq!(ids, vec!["dl-b"]);
    let a = s.get_job("a").unwrap();
    assert_eq!(a.run_at, 30);
    assert_eq!(a.max_attempts, 3);
    assert_eq!(a.priority, Priority::Normal);
    assert_eq!(s.claim_next_at(30).unwrap().id, "a");
}

#[test]
fn mark_failed_with_and_without_retry() {
    let mut s = store_with(vec![job("a", Priority::Normal, 1), job("b", Priority::Normal, 1)]);
    assert_eq!(s.mark_failed("a", "later", Some(99)), Ok(()));
    let a = s.get_job("a").unwrap();
    assert_eq!(a.status, JobStatus::Retrying);
    assert_eq!(a.run_at, 99);
    assert_eq!(s.mark_failed("b", "never", None), Ok(()));
    assert_eq!(s.get_job("b").unwrap().status, JobStatus::Dead);
    let d = &s.dead_letters()[0];
    assert_eq!(d.job_id, "b");
    assert_eq!(d.id.len(), 36);
}

#[test]
fn requeue_from_dead_letter_queue() {
    let mut s = store_with(vec![job("a", Priority::Normal, 1), job("b", Priority::Normal, 1)]);
    s.fail_to_dead_letter_at("a", "boom", 20, "dl-a".to_string()).unwrap();
    s.fail_to_dead_letter_at("b", "boom", 21, "dl-b".to_string()).unwrap();
    assert!(s.requeue_from_dlq_at("a", 30));
    let a = s.get_job("a").unwrap();
    assert_eq!(a.status, JobStatus::Pending);
    assert_eq!(a.attempt, 0);
    assert_eq!(a.error, None);
    assert_eq!(a.run_at, 30);
    assert_eq!(s.dead_letters().len(), 1);
    assert_eq!(s.dead_letters()[0].job_id, "b");
    assert!(!s.requeue_from_dlq_at("a", 40));
    assert!(!s.requeue_from_dlq("nobody"));
    assert_eq!(s.claim_next_at(30).unwrap().id, "a");
}

#[test]
fn requeue_removes_every_record_of_the_job() {
    let mut s = store_with(vec![job("a", Priority::Normal, 1)]);
    s.fail_to_dead_letter_at("a", "one", 20, "dl-1".to_string()).unwrap();
    s.fail_to_dead_letter_at("a", "two", 21, "dl-2".to_string()).unwrap();
    assert_eq!(s.dead_letters().len(), 2);
    assert!(s.requeue_from_dlq("a"));
    assert!(s.dead_letters().is_empty());
}

#[test]
fn heartbeats_and_reclaiming() {
    let mut s = store_with(vec![job("a", Priority::High, 0), job("b", Priority::High, 0), job("c", Priority::High, 3)]);
    s.claim_next_at(0).unwrap();
    s.claim_next_at(0).unwrap();
    s.update_heartbeat_at("b", 25 * SEC);
    assert_eq!(s.get_job("b").unwrap().last_heartbeat, Some(25 * SEC));
    // at 40 s with a 30 s timeout the cutoff is 10 s: "a" (heartbeat 0) is stale
    assert_eq!(s.reclaim_abandoned_at(30, 40 * SEC), Ok(1));
    let a = s.get_job("a").unwrap();
    assert_eq!(a.status, JobStatus::Pending);
    assert_eq!(a.claimed_at, None);
    assert_eq!(a.last_heartbeat, None);
    assert_eq!(a.updated_at, 40 * SEC);
    assert_eq!(s.get_job("b").unwrap().status, JobStatus::Running);
    assert_eq!(s.get_job("c").unwrap().status, JobStatus::Pending);
    assert_eq!(s.reclaim_abandoned_at(30, 40 * SEC), Ok(0));
}

#[test]
fn reclaim_with_unrepresentable_cutoff_is_an_error() {
    let mut s = store_with(vec![job("a", Priority::High, 1)]);
    s.claim_next_at(1).unwrap();
    assert_eq!(s.reclaim_abandoned_at(i64::MAX, 0), Err(StoreError::TimeOutOfRange));
    assert_eq!(s.reclaim_abandoned(i64::MIN), Err(StoreError::TimeOutOfRange));
    assert_eq!(s.get_job("a").unwrap().status, JobStatus::Running);
    assert_eq!(s.reclaim_abandoned(30), Ok(1));
}

#[test]
fn starving_jobs_move_up_one_level() {
    let mut done = job("done", Priority::Low, 0);
    done.status = JobStatus::Completed;
    let mut s = store_with(vec![
        job("old-low", Priority::Low, 0),
        job("old-normal", Priority::Normal, 0),
        job("old-high", Priority::High, 0),
        job("young-low", Priority::Low, 100 * SEC),
        done,
    ]);
    assert_eq!(s.promote_starving_at(60, 120 * SEC), Ok(2));
    assert_eq!(s.get_job("old-low").unwrap().priority, Priority::Normal);
    assert_eq!(s.get_job("old-low").unwrap().updated_at, 120 * SEC);
    assert_eq!(s.get_job("old-normal").unwrap().priority, Priority::High);
    assert_eq!(s.get_job("old-high").unwrap().priority, Priority::High);
    assert_eq!(s.get_job("young-low").unwrap().priority, Priority::Low);
    assert_eq!(s.get_job("done").unwrap().priority, Priority::Low);
    assert_eq!(s.promote_starving_at(60, 120 * SEC), Ok(1));
    assert_eq!(s.get_job("old-low").unwrap().priority, Priority::High);
    assert_eq!(s.promote_starving_at(60, 120 * SEC), Ok(0));
    assert_eq!(s.promote_starving(i64::MAX), Err(StoreError::TimeOutOfRange));
    assert_eq!(s.promote_starving(60), Ok(1));
    assert_eq!(s.get_job("young-low").unwrap().priority, Priority::Normal);
}

#[test]
fn all_jobs_newest_first() {
    let s = store_with(vec![job("a", Priority::Low, 5), job("b", Priority::Low, 9), job("c", Priority::Low, 1), job("d", Priority::Low, 9)]);
    let all = s.get_all_jobs();
    let ids: Vec<&str> = all.iter().map(|j| j.id.as_str()).collect();
    assert_eq!(ids, vec!["b", "d", "a", "c"]);
}

#[test]
fn dead_letters_latest_first() {
    let mut s = store_with(vec![job("a", Priority::Low, 1), job("b", Priority::Low, 1), job("c", Priority::Low, 1)]);
    s.fail_to_dead_letter_at("a", "x", 30, "1".to_string()).unwrap();
    s.fail_to_dead_letter_at("b", "x", 10, "2".to_string()).unwrap();
    s.fail_to_dead_letter_at("c", "x", 20, "3".to_string()).unwrap();
    let ids: Vec<String> = s.get_dead_letter_jobs().iter().map(|d| d.job_id.clone()).collect();
    assert_eq!(ids, vec!["a", "c", "b"]);
}

#[test]
fn restore_checks_primary_keys() {
    let ok = JobStore::restore(vec![job("a", Priority::Low, 1), job("b", Priority::Low, 2)], vec![]);
    assert!(ok.is_ok());
    assert_eq!(ok.unwrap().jobs().len(), 2);
    let dup = JobStore::restore(vec![job("a", Priority::Low, 1), job("a", Priority::Low, 2)], vec![]);
    assert_eq!(dup.err(), Some(StoreError::DuplicateId));
    let letter = |id: &str| DeadLetterJob {
        id: id.to_string(),
        job_id: "a".to_string(),
        job_type: "order".to_string(),
        payload: "{}".to_string(),
        priority: 1,
        total_attempts: 3,
        last_error: None,
        died_at: 0,
    };
    let dup_letters = JobStore::restore(vec![], vec![letter("x"), letter("x")]);
    assert_eq!(dup_letters.err(), Some(StoreError::DuplicateId));
    let restored = JobStore::restore(vec![job("a", Priority::Low, 1)], vec![letter("x"), letter("y")]).unwrap();
    assert_eq!(restored.dead_letters().len(), 2);
}

#[test]
fn final_failure_then_requeue_restores_the_job() {
    let mut s = store_with(vec![job("a", Priority::High, 1), job("b", Priority::Low, 1)]);
    s.fail_to_dead_letter_at("b", "old", 5, "dl-b".to_string()).unwrap();
    s.claim_next_at(10).unwrap();
    assert_eq!(s.mark_failed("a", "broken", None), Ok(()));
    assert_eq!(s.get_job("a").unwrap().status, JobStatus::Dead);
    assert_eq!(s.dead_letters().len(), 2);
    assert!(s.requeue_from_dlq("a"));
    let a = s.get_job("a").unwrap();
    assert_eq!(a.status, JobStatus::Pending);
    assert_eq!(a.attempt, 0);
    assert_eq!(a.error, None);
    assert_eq!(a.priority, Priority::High);
    assert_eq!(a.max_attempts, 3);
    let ids: Vec<String> = s.dead_letters().iter().map(|d| d.id.clone()).collect();
    assert_eq!(ids, vec!["dl-b"]);
    assert_eq!(s.claim_next().unwrap().id, "a");
}

#[test]
fn a_job_moves_only_along_the_state_machine() {
    let mut s = store_with(vec![job("a", Priority::Normal, 1)]);
    let status = |s: &JobStore| s.get_job("a").unwrap().status;
    assert_eq!(status(&s), JobStatus::Pending);
    s.claim_next_at(10).unwrap();
    assert_eq!(status(&s), JobStatus::Running);
    s.fail_with_retry_at("a", "flaky", 20, 15);
    assert_eq!(status(&s), JobStatus::Retrying);
    s.claim_next_at(20).unwrap();
    assert_eq!(status(&s), JobStatus::Running);
    assert_eq!(s.reclaim_abandoned_at(1, 30 * SEC), Ok(1));
    assert_eq!(status(&s), JobStatus::Pending);
    s.claim_next_at(31 * SEC).unwrap();
    s.fail_to_dead_letter_at("a", "broken", 32 * SEC, "dl".to_string()).unwrap();
    assert_eq!(status(&s), JobStatus::Dead);
    assert!(s.get_dead_letter_jobs().iter().all(|d| d.job_id == "a"));
    assert!(s.requeue_from_dlq_at("a", 33 * SEC));
    assert_eq!(status(&s), JobStatus::Pending);
    s.claim_next_at(33 * SEC).unwrap();
    s.mark_completed_at("a", 34 * SEC);
    assert_eq!(status(&s), JobStatus::Completed);
    assert!(s.jobs().iter().all(|j| j.status != JobStatus::Failed));
}

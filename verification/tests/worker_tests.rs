use job_queue::executor::Executor;
use job_queue::handlers::JobError;
use job_queue::heartbeat::HeartbeatMonitor;
use job_queue::job::{Job, JobStatus, JobType, Priority};
use job_queue::retry::RetryPolicy;
use job_queue::scheduler::Scheduler;
use job_queue::store::{JobStore, StoreError};

/// A millisecond, in nanoseconds.
const MS: i128 = 1_000_000;

fn store_with_job(id: &str, max_attempts: i32) -> (JobStore, Job) {
    let mut s = JobStore::new();
    let j = Job::with_id_at(id.to_string(), JobType::Payment, "{}".to_string(), Priority::High, max_attempts, 0);
    s.enqueue(&j).unwrap();
    let claimed = s.claim_next_at(1_000 * MS).unwrap();
    (s, claimed)
}

#[test]
fn success_completes_the_job() {
    let (mut s, j) = store_with_job("a", 3);
    let ex = Executor::new(RetryPolicy::default());
    assert_eq!(ex.finish_at(&mut s, &j, &Ok(()), 2_000 * MS, 0, "dl".to_string()), Ok(()));
    let a = s.get_job("a").unwrap();
    assert_eq!(a.status, JobStatus::Completed);
    assert_eq!(a.completed_at, Some(2_000 * MS));
}

#[test]
fn retryable_failure_with_attempts_left_is_retried_after_backoff() {
    let (mut s, j) = store_with_job("a", 3);
    let ex = Executor::new(RetryPolicy::default());
    let e = JobError::retryable("flaky".to_string());
    assert_eq!(ex.finish_at(&mut s, &j, &Err(e), 2_000 * MS, 0, "dl".to_string()), Ok(()));
    let a = s.get_job("a").unwrap();
    assert_eq!(a.status, JobStatus::Retrying);
    assert_eq!(a.attempt, 1);
    // attempt 0: 2 s, no jitter possible
    assert_eq!(a.run_at, 4_000 * MS);
    assert_eq!(a.error.as_deref(), Some("flaky"));
    assert!(s.dead_letters().is_empty());
}

#[test]
fn exhausted_job_goes_to_dead_letter_queue() {
    let (mut s, mut j) = store_with_job("a", 1);
    j.attempt = 1;
    let ex = Executor::new(RetryPolicy::default());
    let e = JobError::retryable("flaky".to_string());
    assert_eq!(ex.finish_at(&mut s, &j, &Err(e), 2_000 * MS, 0, "dl".to_string()), Ok(()));
    assert_eq!(s.get_job("a").unwrap().status, JobStatus::Dead);
    assert_eq!(s.dead_letters().len(), 1);
    assert_eq!(s.dead_letters()[0].id, "dl");
}

#[test]
fn fatal_failure_goes_to_dead_letter_queue_at_once() {
    let (mut s, j) = store_with_job("a", 5);
    let ex = Executor::new(RetryPolicy::default());
    let e = JobError::fatal("bad payload".to_string());
    assert_eq!(ex.finish(&mut s, &j, &Err(e)), Ok(()));
    let a = s.get_job("a").unwrap();
    assert_eq!(a.status, JobStatus::Dead);
    assert_eq!(a.attempt, 1);
    assert_eq!(s.dead_letters()[0].last_error.as_deref(), Some("bad payload"));
    assert_eq!(s.dead_letters()[0].total_attempts, 1);
}

#[test]
fn retry_beyond_time_range_is_an_error_and_changes_nothing() {
    let (mut s, j) = store_with_job("a", 3);
    let ex = Executor::new(RetryPolicy::default());
    let e = JobError::retryable("flaky".to_string());
    let max = job_queue::clock::MAX_TIME_NANOS;
    assert_eq!(ex.finish_at(&mut s, &j, &Err(e), max, 0, "dl".to_string()), Err(StoreError::TimeOutOfRange));
    assert_eq!(s.get_job("a").unwrap().status, JobStatus::Running);
}

#[test]
fn no_handler_sends_job_to_dead_letter_queue() {
    assert_eq!(Executor::no_handler_error("order"), "no handler for job type: order");
    let (mut s, j) = store_with_job("a", 3);
    let ex = Executor::new(RetryPolicy::default());
    assert_eq!(ex.fail_unhandled(&mut s, &j), Ok(()));
    let a = s.get_job("a").unwrap();
    assert_eq!(a.status, JobStatus::Dead);
    assert_eq!(a.error.as_deref(), Some("no handler for job type: payment"));
}

#[test]
fn can_record_checks_overflow() {
    let (s, mut j) = store_with_job("a", 100);
    let ex = Executor::new(RetryPolicy::default());
    let e = JobError::retryable("x".to_string());
    assert!(ex.can_record(&s, &j, &Err(e)));
    j.attempt = 70;
    let e = JobError::retryable("x".to_string());
    assert!(!ex.can_record(&s, &j, &Err(e)));
    assert!(ex.can_record(&s, &j, &Ok(())));
}

#[test]
fn claim_through_executor() {
    let mut s = JobStore::new();
    let j = Job::new(JobType::Order, "{}".to_string(), Priority::Low, 3);
    s.enqueue(&j).unwrap();
    let ex = Executor::new(RetryPolicy::default());
    assert_eq!(ex.claim(&mut s).unwrap().id, j.id);
    assert!(ex.claim(&mut s).is_none());
}

#[test]
fn heartbeat_monitor_reclaims_stale_jobs() {
    let (mut s, _) = store_with_job("a", 3);
    let m = HeartbeatMonitor::new(30, 10);
    assert_eq!(m.timeout_secs, 30);
    assert_eq!(m.interval_secs, 10);
    assert_eq!(m.check_at(&mut s, 20_000 * MS), Ok(0));
    assert_eq!(m.check_at(&mut s, 31_001 * MS), Ok(1));
    assert_eq!(s.get_job("a").unwrap().status, JobStatus::Pending);
    assert_eq!(m.check(&mut s), Ok(0));
}

#[test]
fn scheduler_promotes_waiting_jobs() {
    let mut s = JobStore::new();
    let j = Job::with_id_at("a".to_string(), JobType::Notification, "{}".to_string(), Priority::Low, 2, 0);
    s.enqueue(&j).unwrap();
    let sched = Scheduler::new(60);
    assert_eq!(sched.prevent_starvation_at(&mut s, 60_000 * MS), Ok(0));
    assert_eq!(sched.prevent_starvation_at(&mut s, 60_001 * MS), Ok(1));
    assert_eq!(s.get_job("a").unwrap().priority, Priority::Normal);
    assert_eq!(sched.prevent_starvation(&mut s), Ok(1));
    assert_eq!(s.get_job("a").unwrap().priority, Priority::High);
}

#[test]
fn a_job_runs_at_most_max_attempts_times() {
    // max 3 attempts: the failures of the first and second runs are retried, the
    // failure of the third is final
    let (mut s, j) = store_with_job("a", 3);
    let ex = Executor::new(RetryPolicy::default());
    let fail = || Err(JobError::retryable("flaky".to_string()));
    ex.finish_at(&mut s, &j, &fail(), 2_000 * MS, 0, "dl".to_string()).unwrap();
    assert_eq!(s.get_job("a").unwrap().status, JobStatus::Retrying);
    let j = s.claim_next_at(10_000 * MS).unwrap();
    assert_eq!(j.attempt, 1);
    ex.finish_at(&mut s, &j, &fail(), 11_000 * MS, 0, "dl".to_string()).unwrap();
    assert_eq!(s.get_job("a").unwrap().status, JobStatus::Retrying);
    let j = s.claim_next_at(100_000 * MS).unwrap();
    assert_eq!(j.attempt, 2);
    ex.finish_at(&mut s, &j, &fail(), 101_000 * MS, 0, "dl".to_string()).unwrap();
    let a = s.get_job("a").unwrap();
    assert_eq!(a.status, JobStatus::Dead);
    assert_eq!(a.attempt, 3);
    assert_eq!(s.dead_letters().len(), 1);
    assert_eq!(s.dead_letters()[0].total_attempts, 3);
}

#[test]
fn success_needs_no_room_in_the_attempt_counter() {
    let mut s = JobStore::new();
    let mut j = Job::with_id_at("a".to_string(), JobType::Order, "{}".to_string(), Priority::High, i32::MAX, 0);
    j.attempt = i32::MAX;
    s.enqueue(&j).unwrap();
    let j = s.claim_next_at(0).unwrap();
    let ex = Executor::new(RetryPolicy::default());
    assert!(ex.can_record(&s, &j, &Ok(())));
    assert!(!ex.can_record(&s, &j, &Err(JobError::fatal("x".to_string()))));
    assert_eq!(ex.finish(&mut s, &j, &Ok(())), Ok(()));
    assert_eq!(s.get_job("a").unwrap().status, JobStatus::Completed);
}

use job_queue::job::{Job, JobStatus, JobType, Priority};

#[test]
fn status_names_round_trip() {
    let all = [
        JobStatus::Pending,
        JobStatus::Running,
        JobStatus::Completed,
        JobStatus::Failed,
        JobStatus::Retrying,
        JobStatus::Dead,
    ];
    let names = ["pending", "running", "completed", "failed", "retrying", "dead"];
    for (s, n) in all.iter().zip(names.iter()) {
        assert_eq!(s.as_str(), *n);
        assert_eq!(JobStatus::from_str(n), *s);
    }
}

#[test]
fn unknown_status_reads_as_pending() {
    assert_eq!(JobStatus::from_str("exploded"), JobStatus::Pending);
    assert_eq!(JobStatus::from_str(""), JobStatus::Pending);
    assert_eq!(JobStatus::from_str("Dead"), JobStatus::Pending);
}

#[test]
fn priority_numbers_round_trip() {
    assert_eq!(Priority::High.as_i32(), 3);
    assert_eq!(Priority::Normal.as_i32(), 2);
    assert_eq!(Priority::Low.as_i32(), 1);
    for p in [Priority::High, Priority::Normal, Priority::Low] {
        assert_eq!(Priority::from_i32(p.as_i32()), p);
    }
}

#[test]
fn unknown_priority_reads_as_low() {
    assert_eq!(Priority::from_i32(0), Priority::Low);
    assert_eq!(Priority::from_i32(4), Priority::Low);
    assert_eq!(Priority::from_i32(-3), Priority::Low);
    assert_eq!(Priority::from_i32(1), Priority::Low);
}

#[test]
fn job_type_names_round_trip() {
    for (t, n) in [
        (JobType::Order, "order"),
        (JobType::Payment, "payment"),
        (JobType::Notification, "notification"),
    ] {
        assert_eq!(t.as_str(), n);
        assert_eq!(JobType::from_str(n), t);
    }
    assert_eq!(JobType::from_str("email"), JobType::Order);
}

#[test]
fn enqueue_settings_per_type() {
    assert_eq!(JobType::Order.enqueue_priority(), Priority::High);
    assert_eq!(JobType::Order.enqueue_max_attempts(), 3);
    assert_eq!(JobType::Payment.enqueue_priority(), Priority::High);
    assert_eq!(JobType::Payment.enqueue_max_attempts(), 5);
    assert_eq!(JobType::Notification.enqueue_priority(), Priority::Normal);
    assert_eq!(JobType::Notification.enqueue_max_attempts(), 2);
}

#[test]
fn new_job_is_pending_and_fresh() {
    let j = Job::new(JobType::Payment, "{\"amount\":3}".to_string(), Priority::High, 5);
    assert_eq!(j.id.len(), 36);
    for (i, c) in j.id.chars().enumerate() {
        if i == 8 || i == 13 || i == 18 || i == 23 {
            assert_eq!(c, '-');
        } else {
            assert!(c.is_ascii_digit() || ('a'..='f').contains(&c));
        }
    }
    assert_eq!(j.id.as_bytes()[14], b'4');
    assert!(matches!(j.id.as_bytes()[19], b'8' | b'9' | b'a' | b'b'));
    assert_eq!(j.job_type, JobType::Payment);
    assert_eq!(j.payload, "{\"amount\":3}");
    assert_eq!(j.status, JobStatus::Pending);
    assert_eq!(j.priority, Priority::High);
    assert_eq!(j.attempt, 0);
    assert_eq!(j.max_attempts, 5);
    assert!(j.created_at > 1_600_000_000_000_000_000);
    assert_eq!(j.created_at, j.updated_at);
    assert_eq!(j.created_at, j.run_at);
    assert_eq!(j.claimed_at, None);
    assert_eq!(j.completed_at, None);
    assert_eq!(j.last_heartbeat, None);
    assert_eq!(j.error, None);
}

#[test]
fn new_jobs_get_distinct_ids() {
    let a = Job::new(JobType::Order, "{}".to_string(), Priority::High, 3);
    let b = Job::new(JobType::Order, "{}".to_string(), Priority::High, 3);
    assert_ne!(a.id, b.id);
}

#[test]
fn job_with_given_id_and_time() {
    let j = Job::with_id_at("job-1".to_string(), JobType::Order, "{}".to_string(), Priority::Low, 3, 42);
    assert_eq!(j.id, "job-1");
    assert_eq!(j.created_at, 42);
    assert_eq!(j.updated_at, 42);
    assert_eq!(j.run_at, 42);
    assert_eq!(j.status, JobStatus::Pending);
}

#[test]
fn exhaustion_and_should_retry_agree() {
    let policy = job_queue::retry::RetryPolicy::default();
    let mut j = Job::with_id_at("x".to_string(), JobType::Order, "{}".to_string(), Priority::Low, 3, 0);
    for attempt in 0..5 {
        j.attempt = attempt;
        assert_eq!(j.is_exhausted(), attempt >= 3);
        assert_eq!(policy.should_retry(attempt, 3), !j.is_exhausted());
    }
}

#[test]
fn clone_keeps_every_field() {
    let mut j = Job::with_id_at("c".to_string(), JobType::Notification, "{\"a\":1}".to_string(), Priority::Normal, 2, 7);
    j.error = Some("boom".to_string());
    j.claimed_at = Some(8);
    let k = j.clone();
    assert_eq!(k.id, j.id);
    assert_eq!(k.error, j.error);
    assert_eq!(k.claimed_at, Some(8));
    assert_eq!(k.payload, j.payload);
}

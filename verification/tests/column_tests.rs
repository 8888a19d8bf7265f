use job_queue::columns::{
    dead_letter_from_columns, died_at_text, format_instant, job_from_columns, job_instant_texts, parse_instant,
};
use job_queue::job::{DeadLetterJob, Job, JobStatus, JobType, Priority};

const SEC: i128 = 1_000_000_000;

#[test]
fn job_row_is_read_with_its_instants() {
    let j = job_from_columns(
        "a".to_string(),
        "payment",
        "{}".to_string(),
        "retrying",
        2,
        1,
        5,
        "2024-01-01T00:00:00+00:00",
        "2024-01-01T00:00:01.000000005+00:00",
        "2024-01-01T01:00:00+01:00",
        Some("1970-01-01T00:00:00Z"),
        None,
        None,
        Some("flaky".to_string()),
    )
    .unwrap();
    assert_eq!(j.job_type, JobType::Payment);
    assert_eq!(j.status, JobStatus::Retrying);
    assert_eq!(j.priority, Priority::Normal);
    assert_eq!(j.created_at, 1_704_067_200 * SEC);
    assert_eq!(j.updated_at, 1_704_067_201 * SEC + 5);
    assert_eq!(j.run_at, 1_704_067_200 * SEC);
    assert_eq!(j.claimed_at, Some(0));
    assert_eq!(j.completed_at, None);
    assert_eq!(j.error.as_deref(), Some("flaky"));
}

#[test]
fn unknown_names_read_as_defaults() {
    let j = job_from_columns(
        "a".to_string(), "email", "{}".to_string(), "lost", 9, 0, 3,
        "2024-01-01T00:00:00Z", "2024-01-01T00:00:00Z", "2024-01-01T00:00:00Z",
        None, None, None, None,
    )
    .unwrap();
    assert_eq!(j.job_type, JobType::Order);
    assert_eq!(j.status, JobStatus::Pending);
    assert_eq!(j.priority, Priority::Low);
}

#[test]
fn bad_instant_text_is_refused() {
    let bad = |created: &str, heartbeat: Option<&str>| {
        job_from_columns(
            "a".to_string(), "order", "{}".to_string(), "pending", 1, 0, 3,
            created, "2024-01-01T00:00:00Z", "2024-01-01T00:00:00Z",
            None, None, heartbeat, None,
        )
    };
    assert!(bad("yesterday", None).is_none());
    assert!(bad("2024-01-01T00:00:00Z", Some("soon")).is_none());
    assert!(bad("2024-01-01T00:00:00Z", Some("2024-01-01T00:00:00Z")).is_some());
}

#[test]
fn job_instants_written_and_read_back() {
    let mut j = Job::with_id_at("a".to_string(), JobType::Order, "{}".to_string(), Priority::High, 3, 1_704_067_201 * SEC + 500_000_000);
    j.last_heartbeat = Some(0);
    let t = job_instant_texts(&j).unwrap();
    assert_eq!(t.created_at, "2024-01-01T00:00:01.500+00:00");
    assert_eq!(t.last_heartbeat.as_deref(), Some("1970-01-01T00:00:00+00:00"));
    assert_eq!(t.claimed_at, None);
    let back = job_from_columns(
        j.id.clone(), "order", "{}".to_string(), "pending", 3, 0, 3,
        &t.created_at, &t.updated_at, &t.run_at,
        t.claimed_at.as_deref(), t.completed_at.as_deref(), t.last_heartbeat.as_deref(), None,
    )
    .unwrap();
    assert_eq!(back.created_at, j.created_at);
    assert_eq!(back.last_heartbeat, Some(0));
    j.run_at = i128::MAX;
    assert!(job_instant_texts(&j).is_none());
}

#[test]
fn dead_letter_row_is_read_and_written() {
    let d = dead_letter_from_columns(
        "dl".to_string(), "a".to_string(), "order".to_string(), "{}".to_string(), 3, 2, None,
        "2024-01-01T00:00:00Z",
    )
    .unwrap();
    assert_eq!(d.died_at, 1_704_067_200 * SEC);
    assert_eq!(died_at_text(&d).as_deref(), Some("2024-01-01T00:00:00+00:00"));
    assert!(dead_letter_from_columns(
        "dl".to_string(), "a".to_string(), "order".to_string(), "{}".to_string(), 3, 2, None, "never",
    )
    .is_none());
    let far = DeadLetterJob { died_at: i128::MIN, ..d };
    assert!(died_at_text(&far).is_none());
}

#[test]
fn instants_keep_their_nanoseconds() {
    let t = 1_704_067_201 * SEC + 123_456_789;
    let text = format_instant(t).unwrap();
    assert_eq!(text, "2024-01-01T00:00:01.123456789+00:00");
    assert_eq!(parse_instant(&text), Some(t));
    assert_eq!(format_instant(1_704_067_201 * SEC + 120_000).unwrap(), "2024-01-01T00:00:01.000120+00:00");
    assert_eq!(format_instant(-1).unwrap(), "1969-12-31T23:59:59.999999999+00:00");
    assert_eq!(parse_instant("1969-12-31T23:59:59.999999999Z"), Some(-1));
    assert_eq!(parse_instant("2024-01-01T02:00:00.25+02:00"), Some(1_704_067_200 * SEC + 250_000_000));
    assert_eq!(parse_instant("not a time"), None);
}

#[test]
fn instant_text_fails_outside_chrono_range() {
    assert!(format_instant(job_queue::clock::MAX_TIME_NANOS).is_some());
    assert!(format_instant(job_queue::clock::MAX_TIME_NANOS + 1).is_none());
    assert!(format_instant(job_queue::clock::MIN_TIME_NANOS).is_some());
    assert!(format_instant(job_queue::clock::MIN_TIME_NANOS - 1).is_none());
}

#[test]
fn written_job_row_reads_back_as_the_job() {
    let mut j = Job::with_id_at("r".to_string(), JobType::Payment, "{\"x\":1}".to_string(), Priority::Low, 5, 7 * SEC + 3);
    j.status = JobStatus::Running;
    j.attempt = 2;
    j.claimed_at = Some(8 * SEC + 40_000);
    j.last_heartbeat = Some(9 * SEC);
    j.error = Some("slow".to_string());
    let t = job_instant_texts(&j).unwrap();
    let back = job_from_columns(
        j.id.clone(), j.job_type.as_str(), j.payload.clone(), j.status.as_str(), j.priority.as_i32(),
        j.attempt, j.max_attempts, &t.created_at, &t.updated_at, &t.run_at,
        t.claimed_at.as_deref(), t.completed_at.as_deref(), t.last_heartbeat.as_deref(), j.error.clone(),
    )
    .unwrap();
    assert_eq!(back.id, j.id);
    assert_eq!(back.job_type, j.job_type);
    assert_eq!(back.status, j.status);
    assert_eq!(back.priority, j.priority);
    assert_eq!(back.attempt, 2);
    assert_eq!(back.created_at, j.created_at);
    assert_eq!(back.claimed_at, j.claimed_at);
    assert_eq!(back.last_heartbeat, j.last_heartbeat);
    assert_eq!(back.completed_at, None);
    assert_eq!(back.error.as_deref(), Some("slow"));
}

use job_queue::retry::RetryPolicy;

#[test]
fn default_policy() {
    let p = RetryPolicy::default();
    assert_eq!(p.base_delay_secs, 2);
    assert_eq!(p.max_delay_secs, 60);
}

#[test]
fn should_retry_below_max_attempts() {
    let p = RetryPolicy::default();
    assert!(p.should_retry(0, 3));
    assert!(p.should_retry(2, 3));
    assert!(!p.should_retry(3, 3));
    assert!(!p.should_retry(4, 3));
}

#[test]
fn backoff_grows_exponentially_then_caps() {
    let p = RetryPolicy::default();
    // span of capped 2 is max(1, 1) = 1: no jitter
    assert_eq!(p.backoff_delay_secs(0, 12345), 2);
    // capped 4, span 2
    assert_eq!(p.backoff_delay_secs(1, 0), 4);
    assert_eq!(p.backoff_delay_secs(1, 1), 5);
    assert_eq!(p.backoff_delay_secs(1, 7), 5);
    // capped 8, span 4
    assert_eq!(p.backoff_delay_secs(2, 6), 10);
    // 2 * 2^5 = 64 is capped at 60, span 30
    assert_eq!(p.backoff_delay_secs(5, 0), 60);
    assert_eq!(p.backoff_delay_secs(5, 31), 61);
    assert_eq!(p.backoff_delay_secs(5, 29), 89);
    assert_eq!(p.backoff_delay_secs(10, 59), 89);
}

#[test]
fn backoff_with_zero_base_is_zero() {
    let p = RetryPolicy { base_delay_secs: 0, max_delay_secs: 60 };
    assert_eq!(p.backoff_delay_secs(63, 99), 0);
}

#[test]
fn backoff_definedness() {
    let p = RetryPolicy::default();
    assert!(p.backoff_is_defined(0));
    assert!(p.backoff_is_defined(62));
    assert!(!p.backoff_is_defined(63));
    assert!(!p.backoff_is_defined(64));
    assert!(!p.backoff_is_defined(-1));
    let huge = RetryPolicy { base_delay_secs: 1, max_delay_secs: u64::MAX };
    assert!(huge.backoff_is_defined(40));
    assert!(!huge.backoff_is_defined(63));
}

#[test]
fn run_at_after_adds_delay_in_seconds() {
    let p = RetryPolicy::default();
    let sec: i128 = 1_000_000_000;
    assert_eq!(p.run_at_after(sec + 17, 2, 0), Some(9 * sec + 17));
    assert_eq!(p.run_at_after(sec + 17, 2, 3), Some(12 * sec + 17));
    assert_eq!(p.run_at_after(job_queue::clock::MAX_TIME_NANOS, 0, 0), None);
}

#[test]
fn next_run_at_lies_in_the_future() {
    let p = RetryPolicy::default();
    let sec: i128 = 1_000_000_000;
    let before = chrono::Utc::now().timestamp_nanos_opt().unwrap() as i128;
    let t = p.next_run_at(3).unwrap();
    let after = chrono::Utc::now().timestamp_nanos_opt().unwrap() as i128;
    // capped delay 16 s, jitter below 8 s
    assert!(t >= before + 16 * sec);
    assert!(t < after + 24 * sec);
}

#[test]
fn backoff_doubles_until_the_cap() {
    let p = RetryPolicy { base_delay_secs: 3, max_delay_secs: 1_000 };
    let capped: Vec<u64> = (0..10).map(|a| p.backoff_delay_secs(a, 0)).collect();
    assert_eq!(capped, vec![3, 6, 12, 24, 48, 96, 192, 384, 768, 1_000]);
    for a in 0..12 {
        let d = p.backoff_delay_secs(a, u64::MAX);
        let c = p.backoff_delay_secs(a, 0);
        assert!(d >= c);
        assert!(d < c + std::cmp::max(c / 2, 1));
    }
}

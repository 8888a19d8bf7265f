use job_queue::clock::{
    shift_by_secs, MAX_DELTA_SECS, MAX_TIME_NANOS, MAX_TIME_SECS, MIN_TIME_NANOS, MIN_TIME_SECS,
};

const SEC: i128 = 1_000_000_000;

#[test]
fn shift_moves_by_seconds() {
    assert_eq!(shift_by_secs(0, 30), Some(30 * SEC));
    assert_eq!(shift_by_secs(100 * SEC + 7, -30), Some(70 * SEC + 7));
}

#[test]
fn shift_refuses_out_of_range() {
    assert_eq!(shift_by_secs(MAX_TIME_NANOS, 1), None);
    assert_eq!(shift_by_secs(MIN_TIME_NANOS, -1), None);
    assert_eq!(shift_by_secs(MAX_TIME_NANOS - SEC, 1), Some(MAX_TIME_NANOS));
    assert_eq!(shift_by_secs(0, MAX_DELTA_SECS + 1), None);
    assert_eq!(shift_by_secs(0, i64::MIN), None);
}

#[test]
fn time_bounds_match_chrono() {
    let max = chrono::DateTime::<chrono::Utc>::MAX_UTC;
    let min = chrono::DateTime::<chrono::Utc>::MIN_UTC;
    assert_eq!(max.timestamp(), MAX_TIME_SECS);
    assert_eq!(min.timestamp(), MIN_TIME_SECS);
    assert_eq!(max.timestamp() as i128 * SEC + max.timestamp_subsec_nanos() as i128, MAX_TIME_NANOS);
    assert_eq!(min.timestamp() as i128 * SEC + min.timestamp_subsec_nanos() as i128, MIN_TIME_NANOS);
    assert_eq!(chrono::TimeDelta::try_seconds(MAX_DELTA_SECS).is_some(), true);
    assert_eq!(chrono::TimeDelta::try_seconds(MAX_DELTA_SECS + 1).is_none(), true);
    assert_eq!(chrono::TimeDelta::try_seconds(-MAX_DELTA_SECS).is_some(), true);
    assert_eq!(chrono::TimeDelta::try_seconds(-MAX_DELTA_SECS - 1).is_none(), true);
}

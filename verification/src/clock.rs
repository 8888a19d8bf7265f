//! Time as the queue sees it: nanoseconds since the Unix epoch, within the range
//! that a `chrono::DateTime<Utc>` can hold.
use vstd::prelude::*;

verus! {

/// The earliest second a `DateTime<Utc>` can hold (`DateTime::<Utc>::MIN_UTC`),
/// in seconds since the epoch.
pub const MIN_TIME_SECS: i64 = -8334601228800i64;

/// The latest second a `DateTime<Utc>` can hold (`DateTime::<Utc>::MAX_UTC`), in
/// seconds since the epoch.
pub const MAX_TIME_SECS: i64 = 8210266876799i64;

/// The earliest instant a `DateTime<Utc>` can hold, in nanoseconds since the epoch.
pub const MIN_TIME_NANOS: i128 = -8334601228800000000000i128;

/// The latest instant a `DateTime<Utc>` can hold, in nanoseconds since the epoch.
pub const MAX_TIME_NANOS: i128 = 8210266876799999999999i128;

/// Nanoseconds in a second.
pub const NANOS_PER_SEC: i128 = 1000000000i128;

/// The largest number of seconds, either way, that a `chrono::TimeDelta` can hold.
pub const MAX_DELTA_SECS: i64 = 9223372036854775i64;

/// An instant that a `DateTime<Utc>` can represent.
pub open spec fn time_in_range(t: int) -> bool {
    MIN_TIME_NANOS <= t <= MAX_TIME_NANOS
}

/// What `instant ± TimeDelta::seconds(secs)` yields, in nanoseconds, when it
/// does not panic: `None` stands for the cases where chrono panics (a delta out
/// of `TimeDelta`'s bounds, or a result outside `DateTime<Utc>`'s range).
pub open spec fn shifted(t: int, secs: int) -> Option<int> {
    if -MAX_DELTA_SECS <= secs <= MAX_DELTA_SECS && time_in_range(t + secs * NANOS_PER_SEC) {
        Some(t + secs * NANOS_PER_SEC)
    } else {
        None
    }
}

/// Reads the system clock: `chrono::Utc::now()`, as whole seconds since the
/// epoch (`timestamp`) and the nanoseconds past that second
/// (`timestamp_subsec_nanos`). The value depends on the moment of the call and is
/// not named. chrono builds it from the system time's duration since the epoch
/// (it panics on an earlier clock), so the seconds are not negative, lie within
/// `DateTime<Utc>`'s range, and the nanoseconds stay under a second; that is all
/// that is claimed.
#[verifier::external_body]
fn clock_reading() -> (r: (i64, u32))
    ensures
        0 <= r.0 <= MAX_TIME_SECS,
        r.1 < NANOS_PER_SEC,
{
    let now = chrono::Utc::now();
    (now.timestamp(), now.timestamp_subsec_nanos())
}

/// The current instant, in nanoseconds since the epoch.
pub fn now_nanos() -> (t: i128)
    ensures
        0 <= t <= MAX_TIME_NANOS,
{
    let (secs, nanos) = clock_reading();
    secs as i128 * NANOS_PER_SEC + nanos as i128
}

/// The instant `secs` seconds after `t` (before it, for a negative `secs`), or
/// `None` where chrono's `DateTime + TimeDelta::seconds(secs)` would panic.
pub fn shift_by_secs(t: i128, secs: i64) -> (r: Option<i128>)
    requires
        time_in_range(t as int),
    ensures
        r matches Some(v) ==> shifted(t as int, secs as int) == Some(v as int),
        r is None ==> shifted(t as int, secs as int) is None,
{
    if secs < -MAX_DELTA_SECS || secs > MAX_DELTA_SECS {
        return None;
    }
    let v: i128 = t + secs as i128 * NANOS_PER_SEC;
    if v < MIN_TIME_NANOS || v > MAX_TIME_NANOS {
        None
    } else {
        Some(v)
    }
}

} // verus!

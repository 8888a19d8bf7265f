//! Rows as stored: instants as RFC 3339 text, enumerations by their stored names
//! and numbers. Reading a row into a job or dead-letter record, and writing a
//! job's instants back as text.
use vstd::prelude::*;
use crate::clock::{time_in_range, MAX_TIME_SECS, MIN_TIME_NANOS, MIN_TIME_SECS, NANOS_PER_SEC};
use crate::job::{
    job_type_from_name, job_type_name, opt_str_view, priority_from_rank, priority_rank,
    status_from_name, status_name, DeadLetterJob, DeadLetterView, Job, JobStatus, JobType,
    JobView, Priority,
};
use crate::retry::opt_instant;
use vstd::arithmetic::div_mod::lemma_fundamental_div_mod_converse;

verus! {

/// The first second of the year 0000, in seconds since the epoch.
pub const FIRST_FOUR_DIGIT_SEC: i64 = -62167219200i64;

/// The last second of the year 9999, in seconds since the epoch.
pub const LAST_FOUR_DIGIT_SEC: i64 = 253402300799i64;

/// The instant that RFC 3339 text stands for, as chrono reads it and converts it
/// to UTC: whole seconds since the epoch and the nanoseconds past that second;
/// `None` where the text is not an RFC 3339 date and time.
pub uninterp spec fn rfc3339_parts(s: Seq<char>) -> Option<(int, int)>;

/// The RFC 3339 text that chrono writes for the instant `secs` seconds and
/// `nanos` nanoseconds after the epoch; `None` where there is no such `DateTime<Utc>`.
pub uninterp spec fn rfc3339_text(secs: int, nanos: int) -> Option<Seq<char>>;

pub open spec fn opt_parts(r: Option<(i64, u32)>) -> Option<(int, int)> {
    match r {
        Some((secs, nanos)) => Some((secs as int, nanos as int)),
        None => None,
    }
}

/// An instant whose year has four digits (0000 to 9999), the years for which
/// chrono writes RFC 3339 text that it reads back.
pub open spec fn four_digit_year(t: int) -> bool {
    FIRST_FOUR_DIGIT_SEC * NANOS_PER_SEC <= t <= LAST_FOUR_DIGIT_SEC * NANOS_PER_SEC + (NANOS_PER_SEC - 1)
}

/// `chrono::DateTime::parse_from_rfc3339(s)`, converted to UTC, as `timestamp()`
/// and `timestamp_subsec_nanos()`; a parse error gives `None`. The result is
/// named, not described.
#[verifier::external_body]
fn parse_rfc3339_parts(s: &str) -> (r: Option<(i64, u32)>)
    ensures
        opt_parts(r) == rfc3339_parts(s@),
{
    match chrono::DateTime::parse_from_rfc3339(s) {
        Ok(t) => {
            let u = t.with_timezone(&chrono::Utc);
            Some((u.timestamp(), u.timestamp_subsec_nanos()))
        },
        Err(_) => None,
    }
}

/// `chrono::DateTime::from_timestamp(secs, nanos)`, then `to_rfc3339()`. Claimed
/// beyond the name: the text exists exactly for seconds within `DateTime<Utc>`'s
/// range (chrono documents `None` "on out-of-range number of seconds and/or
/// invalid nanosecond", and a nanosecond below one second is valid); and for a
/// year of four digits the text, which chrono writes as `YYYY-MM-DDTHH:MM:SS`,
/// the fraction's significant digits and `+00:00`, is read back by
/// `parse_from_rfc3339` as the same seconds and nanoseconds.
#[verifier::external_body]
fn format_rfc3339_parts(secs: i64, nanos: u32) -> (r: Option<String>)
    requires
        nanos < NANOS_PER_SEC,
    ensures
        opt_str_view(r) == rfc3339_text(secs as int, nanos as int),
        r is Some <==> MIN_TIME_SECS <= secs <= MAX_TIME_SECS,
        r matches Some(text) ==> (FIRST_FOUR_DIGIT_SEC <= secs <= LAST_FOUR_DIGIT_SEC
            ==> rfc3339_parts(text@) == Some((secs as int, nanos as int))),
{
    match chrono::DateTime::from_timestamp(secs, nanos) {
        Some(d) => Some(d.to_rfc3339()),
        None => None,
    }
}

/// The instant, in nanoseconds since the epoch, that RFC 3339 text stands for.
pub open spec fn rfc3339_instant(s: Seq<char>) -> Option<int> {
    match rfc3339_parts(s) {
        Some((secs, nanos)) => Some(secs * NANOS_PER_SEC + nanos),
        None => None,
    }
}

/// The RFC 3339 text of an instant in nanoseconds since the epoch: its whole
/// seconds (rounded down) and the nanoseconds past them, written by chrono;
/// `None` outside `DateTime<Utc>`'s range.
pub open spec fn instant_text(t: int) -> Option<Seq<char>> {
    if time_in_range(t) {
        rfc3339_text(t / (NANOS_PER_SEC as int), t % (NANOS_PER_SEC as int))
    } else {
        None
    }
}

/// Reads RFC 3339 text as an instant in nanoseconds since the epoch.
pub fn parse_instant(s: &str) -> (r: Option<i128>)
    ensures
        opt_instant(r) == rfc3339_instant(s@),
{
    match parse_rfc3339_parts(s) {
        Some((secs, nanos)) => Some(secs as i128 * NANOS_PER_SEC + nanos as i128),
        None => None,
    }
}

/// Writes an instant in nanoseconds since the epoch as RFC 3339 text; `None`
/// exactly outside `DateTime<Utc>`'s range. For a year of four digits the text
/// reads back as the same instant.
pub fn format_instant(t: i128) -> (r: Option<String>)
    ensures
        opt_str_view(r) == instant_text(t as int),
        r is Some <==> time_in_range(t as int),
        r matches Some(text) ==> (four_digit_year(t as int) ==> rfc3339_instant(text@) == Some(t as int)),
{
    if t < MIN_TIME_NANOS || t > crate::clock::MAX_TIME_NANOS {
        return None;
    }
    let u: u128 = (t - MIN_TIME_NANOS) as u128;
    let q: u128 = u / 1000000000u128;
    let rem: u128 = u % 1000000000u128;
    proof {
        lemma_fundamental_div_mod_converse(
            t as int,
            NANOS_PER_SEC as int,
            q + MIN_TIME_SECS,
            rem as int,
        );
    }
    let secs: i64 = (q as i128 + MIN_TIME_SECS as i128) as i64;
    let nanos: u32 = rem as u32;
    format_rfc3339_parts(secs, nanos)
}

pub open spec fn opt_text_view(o: Option<&str>) -> Option<Seq<char>> {
    match o {
        Some(s) => Some(s@),
        None => None,
    }
}

/// An optional instant column read back: `Some(None)` for an empty column,
/// `Some(Some(t))` for text standing for `t`, `None` for text that does not parse.
pub open spec fn read_opt_instant(c: Option<Seq<char>>) -> Option<Option<i128>> {
    match c {
        None => Some(None),
        Some(s) => match rfc3339_instant(s) {
            Some(t) => Some(Some(t as i128)),
            None => None,
        },
    }
}

/// The job a row of the jobs table stands for: the type, status and priority read
/// from their stored names and number, each instant read from its text; `None`
/// where some instant's text does not parse.
pub open spec fn job_from_row(
    id: Seq<char>,
    job_type: Seq<char>,
    payload: Seq<char>,
    status: Seq<char>,
    priority: i32,
    attempt: i32,
    max_attempts: i32,
    created_at: Seq<char>,
    updated_at: Seq<char>,
    run_at: Seq<char>,
    claimed_at: Option<Seq<char>>,
    completed_at: Option<Seq<char>>,
    last_heartbeat: Option<Seq<char>>,
    error: Option<Seq<char>>,
) -> Option<JobView> {
    if rfc3339_instant(created_at) is None || rfc3339_instant(updated_at) is None
        || rfc3339_instant(run_at) is None || read_opt_instant(claimed_at) is None
        || read_opt_instant(completed_at) is None || read_opt_instant(last_heartbeat) is None {
        None
    } else {
        Some(JobView {
            id,
            job_type: job_type_from_name(job_type),
            payload,
            status: status_from_name(status),
            priority: priority_from_rank(priority),
            attempt,
            max_attempts,
            created_at: rfc3339_instant(created_at)->0 as i128,
            updated_at: rfc3339_instant(updated_at)->0 as i128,
            run_at: rfc3339_instant(run_at)->0 as i128,
            claimed_at: read_opt_instant(claimed_at)->0,
            completed_at: read_opt_instant(completed_at)->0,
            last_heartbeat: read_opt_instant(last_heartbeat)->0,
            error,
        })
    }
}

fn read_instant_column(c: Option<&str>) -> (r: Option<Option<i128>>)
    ensures
        r == read_opt_instant(opt_text_view(c)),
{
    match c {
        None => Some(None),
        Some(s) => match parse_instant(s) {
            Some(t) => Some(Some(t)),
            None => None,
        },
    }
}

/// Reads a row of the jobs table (see `job_from_row`).
pub fn job_from_columns(
    id: String,
    job_type: &str,
    payload: String,
    status: &str,
    priority: i32,
    attempt: i32,
    max_attempts: i32,
    created_at: &str,
    updated_at: &str,
    run_at: &str,
    claimed_at: Option<&str>,
    completed_at: Option<&str>,
    last_heartbeat: Option<&str>,
    error: Option<String>,
) -> (r: Option<Job>)
    ensures
        crate::store::opt_job_view(r) == job_from_row(
            id@, job_type@, payload@, status@, priority, attempt, max_attempts,
            created_at@, updated_at@, run_at@,
            opt_text_view(claimed_at), opt_text_view(completed_at), opt_text_view(last_heartbeat),
            opt_str_view(error),
        ),
{
    let created = parse_instant(created_at);
    let updated = parse_instant(updated_at);
    let run = parse_instant(run_at);
    let claimed = read_instant_column(claimed_at);
    let completed = read_instant_column(completed_at);
    let heartbeat = read_instant_column(last_heartbeat);
    match (created, updated, run, claimed, completed, heartbeat) {
        (Some(c), Some(u), Some(ra), Some(cl), Some(co), Some(h)) => Some(Job {
            id,
            job_type: JobType::from_str(job_type),
            payload,
            status: JobStatus::from_str(status),
            priority: Priority::from_i32(priority),
            attempt,
            max_attempts,
            created_at: c,
            updated_at: u,
            run_at: ra,
            claimed_at: cl,
            completed_at: co,
            last_heartbeat: h,
            error,
        }),
        _ => None,
    }
}

/// The dead-letter record a row of the dead-letter table stands for; `None` where
/// the instant of death does not parse.
pub open spec fn letter_from_row(
    id: Seq<char>,
    job_id: Seq<char>,
    job_type: Seq<char>,
    payload: Seq<char>,
    priority: i32,
    total_attempts: i32,
    last_error: Option<Seq<char>>,
    died_at: Seq<char>,
) -> Option<DeadLetterView> {
    match rfc3339_instant(died_at) {
        None => None,
        Some(t) => Some(DeadLetterView { id, job_id, job_type, payload, priority, total_attempts, last_error, died_at: t as i128 }),
    }
}

/// Reads a row of the dead-letter table (see `letter_from_row`).
pub fn dead_letter_from_columns(
    id: String,
    job_id: String,
    job_type: String,
    payload: String,
    priority: i32,
    total_attempts: i32,
    last_error: Option<String>,
    died_at: &str,
) -> (r: Option<DeadLetterJob>)
    ensures
        (match r {
            Some(d) => Some(d@),
            None => None::<DeadLetterView>,
        }) == letter_from_row(id@, job_id@, job_type@, payload@, priority, total_attempts, opt_str_view(last_error), died_at@),
{
    match parse_instant(died_at) {
        None => None,
        Some(t) => Some(DeadLetterJob { id, job_id, job_type, payload, priority, total_attempts, last_error, died_at: t }),
    }
}

/// The RFC 3339 texts of a job's instants, as stored: created, updated and due
/// instants, then the claim, completion and heartbeat instants where set. `None`
/// exactly where some instant lies outside `DateTime<Utc>`'s range.
pub struct JobInstantTexts {
    pub created_at: String,
    pub updated_at: String,
    pub run_at: String,
    pub claimed_at: Option<String>,
    pub completed_at: Option<String>,
    pub last_heartbeat: Option<String>,
}

/// An optional instant written as text: `Some(None)` for an unset instant,
/// `Some(Some(text))` for a representable one, `None` otherwise.
pub open spec fn write_opt_instant(t: Option<i128>) -> Option<Option<Seq<char>>> {
    match t {
        None => Some(None),
        Some(v) => match instant_text(v as int) {
            Some(s) => Some(Some(s)),
            None => None,
        },
    }
}

fn write_instant_column(t: Option<i128>) -> (r: Option<Option<String>>)
    ensures
        (match r {
            None => None,
            Some(o) => Some(opt_str_view(o)),
        }) == write_opt_instant(t),
        r is None <==> (t matches Some(v) && !time_in_range(v as int)),
        r matches Some(o) ==> ((t matches Some(v) ==> four_digit_year(v as int))
            ==> read_opt_instant(opt_str_view(o)) == Some(t)),
{
    match t {
        None => Some(None),
        Some(v) => match format_instant(v) {
            Some(s) => Some(Some(s)),
            None => None,
        },
    }
}

/// A job's instants can all be written as RFC 3339 text.
pub open spec fn instants_writable(j: JobView) -> bool {
    &&& time_in_range(j.created_at as int)
    &&& time_in_range(j.updated_at as int)
    &&& time_in_range(j.run_at as int)
    &&& (j.claimed_at matches Some(t) ==> time_in_range(t as int))
    &&& (j.completed_at matches Some(t) ==> time_in_range(t as int))
    &&& (j.last_heartbeat matches Some(t) ==> time_in_range(t as int))
}

/// Every instant of a job lies in a year of four digits.
pub open spec fn four_digit_instants(j: JobView) -> bool {
    &&& four_digit_year(j.created_at as int)
    &&& four_digit_year(j.updated_at as int)
    &&& four_digit_year(j.run_at as int)
    &&& (j.claimed_at matches Some(t) ==> four_digit_year(t as int))
    &&& (j.completed_at matches Some(t) ==> four_digit_year(t as int))
    &&& (j.last_heartbeat matches Some(t) ==> four_digit_year(t as int))
}

/// Writes a job's instants as text (see `JobInstantTexts`). A job whose instants
/// lie in years of four digits, stored as its texts and as the names and number of
/// its type, status and priority, reads back as the same job.
pub fn job_instant_texts(job: &Job) -> (r: Option<JobInstantTexts>)
    ensures
        r is Some <==> instants_writable(job@),
        r matches Some(x) ==> (four_digit_instants(job@) ==> job_from_row(
            job.id@, job_type_name(job.job_type), job.payload@, status_name(job.status),
            priority_rank(job.priority), job.attempt, job.max_attempts,
            x.created_at@, x.updated_at@, x.run_at@,
            opt_str_view(x.claimed_at), opt_str_view(x.completed_at), opt_str_view(x.last_heartbeat),
            opt_str_view(job.error),
        ) == Some(job@)),
        r matches Some(x) ==> {
            &&& instant_text(job.created_at as int) == Some(x.created_at@)
            &&& instant_text(job.updated_at as int) == Some(x.updated_at@)
            &&& instant_text(job.run_at as int) == Some(x.run_at@)
            &&& write_opt_instant(job.claimed_at) == Some(opt_str_view(x.claimed_at))
            &&& write_opt_instant(job.completed_at) == Some(opt_str_view(x.completed_at))
            &&& write_opt_instant(job.last_heartbeat) == Some(opt_str_view(x.last_heartbeat))
        },
{
    let created = format_instant(job.created_at);
    let updated = format_instant(job.updated_at);
    let run = format_instant(job.run_at);
    let claimed = write_instant_column(job.claimed_at);
    let completed = write_instant_column(job.completed_at);
    let heartbeat = write_instant_column(job.last_heartbeat);
    proof {
        crate::laws::lemma_job_type_name_round_trip(job.job_type);
        crate::laws::lemma_status_name_round_trip(job.status);
        crate::laws::lemma_priority_rank_round_trip(job.priority);
    }
    match (created, updated, run, claimed, completed, heartbeat) {
        (Some(c), Some(u), Some(ra), Some(cl), Some(co), Some(h)) => Some(JobInstantTexts {
            created_at: c,
            updated_at: u,
            run_at: ra,
            claimed_at: cl,
            completed_at: co,
            last_heartbeat: h,
        }),
        _ => None,
    }
}

/// The RFC 3339 text of a dead-letter record's instant of death; `None` exactly
/// where it lies outside `DateTime<Utc>`'s range.
pub fn died_at_text(letter: &DeadLetterJob) -> (r: Option<String>)
    ensures
        opt_str_view(r) == instant_text(letter.died_at as int),
        r is Some <==> time_in_range(letter.died_at as int),
        r matches Some(text) ==> (four_digit_year(letter.died_at as int) ==> letter_from_row(
            letter.id@, letter.job_id@, letter.job_type@, letter.payload@, letter.priority,
            letter.total_attempts, opt_str_view(letter.last_error), text@,
        ) == Some(letter@)),
{
    format_instant(letter.died_at)
}

} // verus!

//! Jobs, their states, priorities and kinds, and the dead-letter record.
use vstd::prelude::*;
use crate::clock::{now_nanos, MAX_TIME_NANOS};

verus! {

/// Whether two strings hold the same characters.
pub(crate) fn str_equals(a: &str, b: &str) -> (r: bool)
    ensures
        r == (a@ == b@),
{
    let x = a.to_owned();
    let y = b.to_owned();
    x == y
}

/// A lowercase hexadecimal digit.
pub open spec fn is_lower_hex_digit(c: char) -> bool {
    ('0' <= c && c <= '9') || ('a' <= c && c <= 'f')
}

/// The hyphenated lowercase text of a version-4 UUID: 32 hexadecimal digits in
/// groups of 8, 4, 4, 4 and 12 parted by hyphens, the version digit `4` opening
/// the third group and the variant digit (`8`, `9`, `a` or `b`) the fourth.
pub open spec fn is_uuid_v4_text(s: Seq<char>) -> bool {
    &&& s.len() == 36
    &&& forall|i: int| 0 <= i < 36 ==> if i == 8 || i == 13 || i == 18 || i == 23 {
        #[trigger] s[i] == '-'
    } else {
        is_lower_hex_digit(s[i])
    }
    &&& s[14] == '4'
    &&& (s[19] == '8' || s[19] == '9' || s[19] == 'a' || s[19] == 'b')
}

/// A fresh random identifier: `uuid::Uuid::new_v4()` in its text form
/// (`to_string`, which writes the hyphenated lowercase form). Which identifier
/// comes out is chance; what is claimed is its form: `new_v4` sets the version
/// bits to 4 and the variant bits to `10`, and the text has the hyphens and
/// lowercase digits of the hyphenated form.
#[verifier::external_body]
pub(crate) fn new_uuid() -> (r: String)
    ensures
        is_uuid_v4_text(r@),
{
    uuid::Uuid::new_v4().to_string()
}

/// Draws a fresh identifier for a job or a dead-letter record: a random
/// version-4 UUID in its hyphenated lowercase text.
pub fn fresh_id() -> (r: String)
    ensures
        is_uuid_v4_text(r@),
{
    new_uuid()
}

/// Where a job stands in its life.
#[derive(Clone, Copy, Debug, PartialEq, Eq, Structural)]
pub enum JobStatus {
    Pending,
    Running,
    Completed,
    Failed,
    Retrying,
    Dead,
}

/// The stored name of a status.
pub open spec fn status_name(s: JobStatus) -> Seq<char> {
    match s {
        JobStatus::Pending => "pending"@,
        JobStatus::Running => "running"@,
        JobStatus::Completed => "completed"@,
        JobStatus::Failed => "failed"@,
        JobStatus::Retrying => "retrying"@,
        JobStatus::Dead => "dead"@,
    }
}

/// The status a stored name stands for; an unknown name reads as `Pending`.
pub open spec fn status_from_name(n: Seq<char>) -> JobStatus {
    if n == "pending"@ {
        JobStatus::Pending
    } else if n == "running"@ {
        JobStatus::Running
    } else if n == "completed"@ {
        JobStatus::Completed
    } else if n == "failed"@ {
        JobStatus::Failed
    } else if n == "retrying"@ {
        JobStatus::Retrying
    } else if n == "dead"@ {
        JobStatus::Dead
    } else {
        JobStatus::Pending
    }
}

impl JobStatus {
    pub fn as_str(&self) -> (r: &'static str)
        ensures
            r@ == status_name(*self),
    {
        match self {
            JobStatus::Pending => "pending",
            JobStatus::Running => "running",
            JobStatus::Completed => "completed",
            JobStatus::Failed => "failed",
            JobStatus::Retrying => "retrying",
            JobStatus::Dead => "dead",
        }
    }

    pub fn from_str(s: &str) -> (r: JobStatus)
        ensures
            r == status_from_name(s@),
    {
        if str_equals(s, "pending") {
            JobStatus::Pending
        } else if str_equals(s, "running") {
            JobStatus::Running
        } else if str_equals(s, "completed") {
            JobStatus::Completed
        } else if str_equals(s, "failed") {
            JobStatus::Failed
        } else if str_equals(s, "retrying") {
            JobStatus::Retrying
        } else if str_equals(s, "dead") {
            JobStatus::Dead
        } else {
            JobStatus::Pending
        }
    }
}

/// How urgently a job is to be run; workers claim the highest first.
#[derive(Clone, Copy, Debug, PartialEq, Eq, Structural)]
pub enum Priority {
    High,
    Normal,
    Low,
}

/// The stored number of a priority: High 3, Normal 2, Low 1.
pub open spec fn priority_rank(p: Priority) -> i32 {
    match p {
        Priority::High => 3,
        Priority::Normal => 2,
        Priority::Low => 1,
    }
}

/// The priority a stored number stands for; any number but 3 and 2 reads as `Low`.
pub open spec fn priority_from_rank(n: i32) -> Priority {
    if n == 3 {
        Priority::High
    } else if n == 2 {
        Priority::Normal
    } else {
        Priority::Low
    }
}

impl Priority {
    pub fn as_i32(&self) -> (r: i32)
        ensures
            r == priority_rank(*self),
    {
        match self {
            Priority::High => 3,
            Priority::Normal => 2,
            Priority::Low => 1,
        }
    }

    pub fn from_i32(n: i32) -> (r: Priority)
        ensures
            r == priority_from_rank(n),
    {
        match n {
            3 => Priority::High,
            2 => Priority::Normal,
            _ => Priority::Low,
        }
    }
}

/// The kinds of work the queue carries.
#[derive(Clone, Copy, Debug, PartialEq, Eq, Structural)]
pub enum JobType {
    Order,
    Payment,
    Notification,
}

/// The stored name of a job type.
pub open spec fn job_type_name(t: JobType) -> Seq<char> {
    match t {
        JobType::Order => "order"@,
        JobType::Payment => "payment"@,
        JobType::Notification => "notification"@,
    }
}

/// The job type a stored name stands for; an unknown name reads as `Order`.
pub open spec fn job_type_from_name(n: Seq<char>) -> JobType {
    if n == "order"@ {
        JobType::Order
    } else if n == "payment"@ {
        JobType::Payment
    } else if n == "notification"@ {
        JobType::Notification
    } else {
        JobType::Order
    }
}

/// The priority with which the API enqueues a job of this type.
pub open spec fn enqueue_priority_of(t: JobType) -> Priority {
    match t {
        JobType::Order => Priority::High,
        JobType::Payment => Priority::High,
        JobType::Notification => Priority::Normal,
    }
}

/// How many attempts the API grants a job of this type.
pub open spec fn enqueue_max_attempts_of(t: JobType) -> i32 {
    match t {
        JobType::Order => 3,
        JobType::Payment => 5,
        JobType::Notification => 2,
    }
}

impl JobType {
    pub fn as_str(&self) -> (r: &'static str)
        ensures
            r@ == job_type_name(*self),
    {
        match self {
            JobType::Order => "order",
            JobType::Payment => "payment",
            JobType::Notification => "notification",
        }
    }

    pub fn from_str(s: &str) -> (r: JobType)
        ensures
            r == job_type_from_name(s@),
    {
        if str_equals(s, "order") {
            JobType::Order
        } else if str_equals(s, "payment") {
            JobType::Payment
        } else if str_equals(s, "notification") {
            JobType::Notification
        } else {
            JobType::Order
        }
    }

    /// The priority of a job of this type enqueued through the API: orders and
    /// payments High, notifications Normal.
    pub fn enqueue_priority(&self) -> (r: Priority)
        ensures
            r == enqueue_priority_of(*self),
    {
        match self {
            JobType::Order => Priority::High,
            JobType::Payment => Priority::High,
            JobType::Notification => Priority::Normal,
        }
    }

    /// The attempts granted to a job of this type enqueued through the API:
    /// orders 3, payments 5, notifications 2.
    pub fn enqueue_max_attempts(&self) -> (r: i32)
        ensures
            r == enqueue_max_attempts_of(*self),
    {
        match self {
            JobType::Order => 3,
            JobType::Payment => 5,
            JobType::Notification => 2,
        }
    }
}

/// The view of an optional string.
pub open spec fn opt_str_view(o: Option<String>) -> Option<Seq<char>> {
    match o {
        Some(s) => Some(s@),
        None => None,
    }
}

pub(crate) fn clone_opt_string(o: &Option<String>) -> (r: Option<String>)
    ensures
        opt_str_view(r) == opt_str_view(*o),
{
    match o {
        Some(s) => Some(s.clone()),
        None => None,
    }
}

/// A unit of work and its bookkeeping. Instants are nanoseconds since the epoch;
/// the payload is the job's JSON text.
#[derive(Debug)]
pub struct Job {
    pub id: String,
    pub job_type: JobType,
    pub payload: String,
    pub status: JobStatus,
    pub priority: Priority,
    pub attempt: i32,
    pub max_attempts: i32,
    pub created_at: i128,
    pub updated_at: i128,
    pub run_at: i128,
    pub claimed_at: Option<i128>,
    pub completed_at: Option<i128>,
    pub last_heartbeat: Option<i128>,
    pub error: Option<String>,
}

/// A job as a mathematical value.
pub struct JobView {
    pub id: Seq<char>,
    pub job_type: JobType,
    pub payload: Seq<char>,
    pub status: JobStatus,
    pub priority: Priority,
    pub attempt: i32,
    pub max_attempts: i32,
    pub created_at: i128,
    pub updated_at: i128,
    pub run_at: i128,
    pub claimed_at: Option<i128>,
    pub completed_at: Option<i128>,
    pub last_heartbeat: Option<i128>,
    pub error: Option<Seq<char>>,
}

impl View for Job {
    type V = JobView;

    open spec fn view(&self) -> JobView {
        JobView {
            id: self.id@,
            job_type: self.job_type,
            payload: self.payload@,
            status: self.status,
            priority: self.priority,
            attempt: self.attempt,
            max_attempts: self.max_attempts,
            created_at: self.created_at,
            updated_at: self.updated_at,
            run_at: self.run_at,
            claimed_at: self.claimed_at,
            completed_at: self.completed_at,
            last_heartbeat: self.last_heartbeat,
            error: opt_str_view(self.error),
        }
    }
}

/// A freshly made job: pending, no attempts yet, due at once, everything else unset.
pub open spec fn fresh_job(
    id: Seq<char>,
    job_type: JobType,
    payload: Seq<char>,
    priority: Priority,
    max_attempts: i32,
    now: i128,
) -> JobView {
    JobView {
        id,
        job_type,
        payload,
        status: JobStatus::Pending,
        priority,
        attempt: 0,
        max_attempts,
        created_at: now,
        updated_at: now,
        run_at: now,
        claimed_at: None,
        completed_at: None,
        last_heartbeat: None,
        error: None,
    }
}

/// A job has used up its attempts.
pub open spec fn exhausted(j: JobView) -> bool {
    j.attempt >= j.max_attempts
}

impl Clone for Job {
    fn clone(&self) -> (r: Self)
        ensures
            r@ == self@,
    {
        Job {
            id: self.id.clone(),
            job_type: self.job_type,
            payload: self.payload.clone(),
            status: self.status,
            priority: self.priority,
            attempt: self.attempt,
            max_attempts: self.max_attempts,
            created_at: self.created_at,
            updated_at: self.updated_at,
            run_at: self.run_at,
            claimed_at: self.claimed_at,
            completed_at: self.completed_at,
            last_heartbeat: self.last_heartbeat,
            error: clone_opt_string(&self.error),
        }
    }
}

impl Job {
    /// A new pending job with a fresh random identifier, stamped with the current time.
    pub fn new(job_type: JobType, payload: String, priority: Priority, max_attempts: i32) -> (r: Job)
        ensures
            is_uuid_v4_text(r@.id),
            0 <= r@.created_at <= MAX_TIME_NANOS,
            call_ensures(now_nanos, (), r@.created_at),
            call_ensures(fresh_id, (), r.id),
            r@ == fresh_job(r@.id, job_type, payload@, priority, max_attempts, r@.created_at),
    {
        let id = fresh_id();
        let now = now_nanos();
        Job::with_id_at(id, job_type, payload, priority, max_attempts, now)
    }

    /// A new pending job with the given identifier, stamped with the instant `now`.
    pub fn with_id_at(
        id: String,
        job_type: JobType,
        payload: String,
        priority: Priority,
        max_attempts: i32,
        now: i128,
    ) -> (r: Job)
        ensures
            r@ == fresh_job(id@, job_type, payload@, priority, max_attempts, now),
            r.id == id,
    {
        Job {
            id,
            job_type,
            payload,
            status: JobStatus::Pending,
            priority,
            attempt: 0,
            max_attempts,
            created_at: now,
            updated_at: now,
            run_at: now,
            claimed_at: None,
            completed_at: None,
            last_heartbeat: None,
            error: None,
        }
    }

    /// The job has used up its attempts.
    pub fn is_exhausted(&self) -> (r: bool)
        ensures
            r == exhausted(self@),
    {
        self.attempt >= self.max_attempts
    }
}

/// A job that ran out of attempts (or failed fatally), as kept in the dead-letter queue.
#[derive(Debug)]
pub struct DeadLetterJob {
    pub id: String,
    pub job_id: String,
    pub job_type: String,
    pub payload: String,
    pub priority: i32,
    pub total_attempts: i32,
    pub last_error: Option<String>,
    pub died_at: i128,
}

/// A dead-letter record as a mathematical value.
pub struct DeadLetterView {
    pub id: Seq<char>,
    pub job_id: Seq<char>,
    pub job_type: Seq<char>,
    pub payload: Seq<char>,
    pub priority: i32,
    pub total_attempts: i32,
    pub last_error: Option<Seq<char>>,
    pub died_at: i128,
}

impl View for DeadLetterJob {
    type V = DeadLetterView;

    open spec fn view(&self) -> DeadLetterView {
        DeadLetterView {
            id: self.id@,
            job_id: self.job_id@,
            job_type: self.job_type@,
            payload: self.payload@,
            priority: self.priority,
            total_attempts: self.total_attempts,
            last_error: opt_str_view(self.last_error),
            died_at: self.died_at,
        }
    }
}

impl Clone for DeadLetterJob {
    fn clone(&self) -> (r: Self)
        ensures
            r@ == self@,
    {
        DeadLetterJob {
            id: self.id.clone(),
            job_id: self.job_id.clone(),
            job_type: self.job_type.clone(),
            payload: self.payload.clone(),
            priority: self.priority,
            total_attempts: self.total_attempts,
            last_error: clone_opt_string(&self.last_error),
            died_at: self.died_at,
        }
    }
}

} // verus!

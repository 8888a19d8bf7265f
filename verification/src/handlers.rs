//! What the job handlers decide: which payload fields each kind of job needs,
//! and the errors they report.
use vstd::prelude::*;
use crate::json::{json_number_member, json_string_member, json_u64_member, number_member, string_member, u64_member};

verus! {

/// A job's failure: its message, and whether another attempt may succeed.
#[derive(Debug)]
pub struct JobError {
    pub message: String,
    pub retryable: bool,
}

pub struct JobErrorView {
    pub message: Seq<char>,
    pub retryable: bool,
}

impl View for JobError {
    type V = JobErrorView;

    open spec fn view(&self) -> JobErrorView {
        JobErrorView { message: self.message@, retryable: self.retryable }
    }
}

/// A failure that the next attempt may overcome.
pub open spec fn retryable_error(message: Seq<char>) -> JobErrorView {
    JobErrorView { message, retryable: true }
}

/// A failure that no further attempt can overcome.
pub open spec fn fatal_error(message: Seq<char>) -> JobErrorView {
    JobErrorView { message, retryable: false }
}

impl JobError {
    pub fn retryable(message: String) -> (r: JobError)
        ensures
            r@ == retryable_error(message@),
    {
        JobError { message, retryable: true }
    }

    pub fn fatal(message: String) -> (r: JobError)
        ensures
            r@ == fatal_error(message@),
    {
        JobError { message, retryable: false }
    }

    /// The error as it is displayed: its message.
    pub fn display_text(&self) -> (r: String)
        ensures
            r@ == self.message@,
    {
        self.message.clone()
    }
}

/// Handles order jobs.
pub struct OrderHandler;

/// Handles payment jobs.
pub struct PaymentHandler;

/// Handles notification jobs.
pub struct NotificationHandler;

/// What an order job's payload yields: its order id and product id, or the fatal
/// error for the first of them that is missing.
pub open spec fn order_fields(order_id: Option<Seq<char>>, product_id: Option<u64>) -> Result<(Seq<char>, u64), JobErrorView> {
    match order_id {
        None => Err(fatal_error("missing order_id in payload"@)),
        Some(o) => match product_id {
            None => Err(fatal_error("missing product_id in payload"@)),
            Some(p) => Ok((o, p)),
        },
    }
}

/// What a payment job's payload yields: its payment id, or the fatal error for
/// the first missing field (the payment id, then a numeric amount).
pub open spec fn payment_fields(payment_id: Option<Seq<char>>, has_amount: bool) -> Result<Seq<char>, JobErrorView> {
    match payment_id {
        None => Err(fatal_error("missing payment_id in payload"@)),
        Some(p) => if has_amount {
            Ok(p)
        } else {
            Err(fatal_error("missing amount in payload"@))
        },
    }
}

/// What a notification job's payload yields: its recipient and message, or the
/// fatal error for the first of them that is missing.
pub open spec fn notification_fields(recipient: Option<Seq<char>>, message: Option<Seq<char>>) -> Result<(Seq<char>, Seq<char>), JobErrorView> {
    match recipient {
        None => Err(fatal_error("missing recipient in payload"@)),
        Some(r) => match message {
            None => Err(fatal_error("missing message in payload"@)),
            Some(m) => Ok((r, m)),
        },
    }
}

pub open spec fn order_result_view(r: Result<(String, u64), JobError>) -> Result<(Seq<char>, u64), JobErrorView> {
    match r {
        Ok((o, p)) => Ok((o@, p)),
        Err(e) => Err(e@),
    }
}

pub open spec fn payment_result_view(r: Result<String, JobError>) -> Result<Seq<char>, JobErrorView> {
    match r {
        Ok(p) => Ok(p@),
        Err(e) => Err(e@),
    }
}

pub open spec fn notification_result_view(r: Result<(String, String), JobError>) -> Result<(Seq<char>, Seq<char>), JobErrorView> {
    match r {
        Ok((a, b)) => Ok((a@, b@)),
        Err(e) => Err(e@),
    }
}

impl OrderHandler {
    pub fn job_type(&self) -> (r: &'static str)
        ensures
            r@ == "order"@,
    {
        "order"
    }

    /// Decides on the fields read from an order payload (see `order_fields`).
    pub fn check_fields(&self, order_id: Option<String>, product_id: Option<u64>) -> (r: Result<(String, u64), JobError>)
        ensures
            order_result_view(r) == order_fields(crate::job::opt_str_view(order_id), product_id),
    {
        match order_id {
            None => Err(JobError::fatal("missing order_id in payload".to_owned())),
            Some(o) => match product_id {
                None => Err(JobError::fatal("missing product_id in payload".to_owned())),
                Some(p) => Ok((o, p)),
            },
        }
    }

    /// Reads an order payload: the string `order_id` and the unsigned `product_id`.
    pub fn read_payload(&self, payload: &str) -> (r: Result<(String, u64), JobError>)
        ensures
            order_result_view(r) == order_fields(
                json_string_member(payload@, "order_id"@),
                json_u64_member(payload@, "product_id"@),
            ),
    {
        let order_id = string_member(payload, "order_id");
        let product_id = u64_member(payload, "product_id");
        self.check_fields(order_id, product_id)
    }

    /// The retryable error of a failed order.
    pub fn failure(&self, order_id: &str) -> (r: JobError)
        ensures
            r@ == retryable_error("payment gateway timeout for order "@ + order_id@),
    {
        JobError::retryable("payment gateway timeout for order ".to_owned().concat(order_id))
    }
}

impl PaymentHandler {
    pub fn job_type(&self) -> (r: &'static str)
        ensures
            r@ == "payment"@,
    {
        "payment"
    }

    /// Decides on the fields read from a payment payload (see `payment_fields`).
    pub fn check_fields(&self, payment_id: Option<String>, has_amount: bool) -> (r: Result<String, JobError>)
        ensures
            payment_result_view(r) == payment_fields(crate::job::opt_str_view(payment_id), has_amount),
    {
        match payment_id {
            None => Err(JobError::fatal("missing payment_id in payload".to_owned())),
            Some(p) => if has_amount {
                Ok(p)
            } else {
                Err(JobError::fatal("missing amount in payload".to_owned()))
            },
        }
    }

    /// Reads a payment payload: the string `payment_id` and a numeric `amount`.
    pub fn read_payload(&self, payload: &str) -> (r: Result<String, JobError>)
        ensures
            payment_result_view(r) == payment_fields(
                json_string_member(payload@, "payment_id"@),
                json_number_member(payload@, "amount"@),
            ),
    {
        let payment_id = string_member(payload, "payment_id");
        let has_amount = number_member(payload, "amount");
        self.check_fields(payment_id, has_amount)
    }

    /// The retryable error of a failed payment.
    pub fn failure(&self, payment_id: &str) -> (r: JobError)
        ensures
            r@ == retryable_error("payment processor unavailable for payment "@ + payment_id@),
    {
        JobError::retryable("payment processor unavailable for payment ".to_owned().concat(payment_id))
    }
}

impl NotificationHandler {
    pub fn job_type(&self) -> (r: &'static str)
        ensures
            r@ == "notification"@,
    {
        "notification"
    }

    /// Decides on the fields read from a notification payload (see `notification_fields`).
    pub fn check_fields(&self, recipient: Option<String>, message: Option<String>) -> (r: Result<(String, String), JobError>)
        ensures
            notification_result_view(r) == notification_fields(
                crate::job::opt_str_view(recipient),
                crate::job::opt_str_view(message),
            ),
    {
        match recipient {
            None => Err(JobError::fatal("missing recipient in payload".to_owned())),
            Some(r) => match message {
                None => Err(JobError::fatal("missing message in payload".to_owned())),
                Some(m) => Ok((r, m)),
            },
        }
    }

    /// Reads a notification payload: the strings `recipient` and `message`.
    pub fn read_payload(&self, payload: &str) -> (r: Result<(String, String), JobError>)
        ensures
            notification_result_view(r) == notification_fields(
                json_string_member(payload@, "recipient"@),
                json_string_member(payload@, "message"@),
            ),
    {
        let recipient = string_member(payload, "recipient");
        let message = string_member(payload, "message");
        self.check_fields(recipient, message)
    }

    /// The retryable error of a failed notification.
    pub fn failure(&self, recipient: &str) -> (r: JobError)
        ensures
            r@ == retryable_error("notification service unavailable for "@ + recipient@),
    {
        JobError::retryable("notification service unavailable for ".to_owned().concat(recipient))
    }
}

} // verus!

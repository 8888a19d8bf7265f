//! The bodies of the API's enqueue requests that carry no floating-point field.
use vstd::prelude::*;

verus! {

/// A request to place an order.
pub struct OrderRequest {
    pub product_id: u32,
    pub quantity: u32,
    pub customer_email: String,
}

/// A request to send a notification.
pub struct NotificationRequest {
    pub recipient: String,
    pub message: String,
}

} // verus!

//! A persistent job queue's core: job states, priority scheduling, exponential
//! backoff with jitter, dead-letter handling, heartbeat reclaiming and starvation
//! prevention, as verified functions over an in-memory model of the job tables.
pub mod clock;
pub mod job;
pub mod retry;
pub mod store;
pub mod json;
pub mod handlers;
pub mod executor;
pub mod scheduler;
pub mod heartbeat;
pub mod requests;
pub mod laws;
pub mod columns;
pub mod lifecycle;

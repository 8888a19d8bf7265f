//! The heartbeat monitor: running jobs whose heartbeat went stale return to the queue.
use vstd::prelude::*;
use crate::clock::{time_in_range, MAX_TIME_NANOS, MIN_TIME_NANOS, NANOS_PER_SEC};
use crate::store::{store_wf, sweep_outcome, JobStore, StoreError};

verus! {

pub struct HeartbeatMonitor {
    pub timeout_secs: i64,
    pub interval_secs: u64,
}

impl HeartbeatMonitor {
    pub fn new(timeout_secs: i64, interval_secs: u64) -> (r: HeartbeatMonitor)
        ensures
            r.timeout_secs == timeout_secs,
            r.interval_secs == interval_secs,
    {
        HeartbeatMonitor { timeout_secs, interval_secs }
    }

    /// One round of the monitor as of `now`: the running jobs whose last heartbeat
    /// is older than the timeout become pending again; returns how many.
    pub fn check_at(&self, store: &mut JobStore, now: i128) -> (r: Result<u64, StoreError>)
        requires
            time_in_range(now as int),
        ensures
            store_wf(final(store)@),
            (final(store)@, r) == sweep_outcome(old(store)@, now, self.timeout_secs, true),
    {
        store.reclaim_abandoned_at(self.timeout_secs, now)
    }

    /// One round of the monitor now (see `check_at`), reading the clock once.
    pub fn check(&self, store: &mut JobStore) -> (r: Result<u64, StoreError>)
        ensures
            store_wf(final(store)@),
            exists|now: i128| 0 <= now <= MAX_TIME_NANOS && call_ensures(crate::clock::now_nanos, (), now) && (final(store)@, r) == #[trigger] sweep_outcome(old(store)@, now, self.timeout_secs, true),
            0 <= self.timeout_secs && self.timeout_secs * NANOS_PER_SEC <= -MIN_TIME_NANOS ==> r is Ok,
    {
        store.reclaim_abandoned(self.timeout_secs)
    }
}

} // verus!

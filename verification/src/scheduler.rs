//! Starvation prevention: jobs that wait too long move up a priority level.
use vstd::prelude::*;
use crate::clock::{time_in_range, MAX_TIME_NANOS, MIN_TIME_NANOS, NANOS_PER_SEC};
use crate::store::{store_wf, sweep_outcome, JobStore, StoreError};

verus! {

pub struct Scheduler {
    pub starvation_threshold_secs: i64,
}

impl Scheduler {
    pub fn new(starvation_threshold_secs: i64) -> (r: Scheduler)
        ensures
            r.starvation_threshold_secs == starvation_threshold_secs,
    {
        Scheduler { starvation_threshold_secs }
    }

    /// Promotes, as of `now`, the waiting jobs below High priority created more
    /// than the threshold ago, one level each; returns how many moved up.
    pub fn prevent_starvation_at(&self, store: &mut JobStore, now: i128) -> (r: Result<u64, StoreError>)
        requires
            time_in_range(now as int),
        ensures
            store_wf(final(store)@),
            (final(store)@, r) == sweep_outcome(old(store)@, now, self.starvation_threshold_secs, false),
    {
        store.promote_starving_at(self.starvation_threshold_secs, now)
    }

    /// Promotes starving jobs now (see `prevent_starvation_at`), reading the clock once.
    pub fn prevent_starvation(&self, store: &mut JobStore) -> (r: Result<u64, StoreError>)
        ensures
            store_wf(final(store)@),
            exists|now: i128| 0 <= now <= MAX_TIME_NANOS && call_ensures(crate::clock::now_nanos, (), now) && (final(store)@, r) == #[trigger] sweep_outcome(old(store)@, now, self.starvation_threshold_secs, false),
            0 <= self.starvation_threshold_secs && self.starvation_threshold_secs * NANOS_PER_SEC <= -MIN_TIME_NANOS ==> r is Ok,
    {
        store.promote_starving(self.starvation_threshold_secs)
    }
}

} // verus!

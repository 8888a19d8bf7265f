//! Exponential backoff with jitter: `base * 2^attempt`, capped, plus a random
//! jitter below half the capped delay.
use vstd::prelude::*;
use vstd::arithmetic::power2::{pow2, lemma_pow2_unfold, lemma_pow2_strictly_increases, lemma2_to64};
use crate::clock::{now_nanos, shift_by_secs, shifted, time_in_range, MAX_DELTA_SECS, MAX_TIME_NANOS, NANOS_PER_SEC};

verus! {

/// A uniformly random `u64`: `rand::random::<u64>()`. The value is chance;
/// nothing is claimed of it.
#[verifier::external_body]
pub(crate) fn random_u64() -> (r: u64) {
    rand::random::<u64>()
}

/// Draws the random number from which a retry's jitter is taken.
pub fn jitter_draw() -> (r: u64) {
    random_u64()
}

/// An optional instant as a mathematical value.
pub open spec fn opt_instant(r: Option<i128>) -> Option<int> {
    match r {
        Some(t) => Some(t as int),
        None => None,
    }
}

pub struct RetryPolicy {
    pub base_delay_secs: u64,
    pub max_delay_secs: u64,
}

impl RetryPolicy {
    /// The uncapped delay before the retry after `attempt` attempts: `base * 2^attempt`.
    pub open spec fn exp_delay(self, attempt: int) -> int {
        self.base_delay_secs * pow2(attempt as nat)
    }

    /// The delay before jitter: the exponential delay, capped at `max_delay_secs`.
    pub open spec fn capped_delay(self, attempt: int) -> int {
        let e = self.exp_delay(attempt);
        if e <= self.max_delay_secs {
            e
        } else {
            self.max_delay_secs as int
        }
    }

    /// The jitter is a random number reduced modulo this span: half the capped
    /// delay, and at least one.
    pub open spec fn jitter_span(self, attempt: int) -> int {
        let half = self.capped_delay(attempt) / 2;
        if half >= 1 {
            half
        } else {
            1
        }
    }

    /// The delay, in seconds, for a given random number.
    pub open spec fn delay_for(self, attempt: int, random: u64) -> int {
        self.capped_delay(attempt) + (random as int) % self.jitter_span(attempt)
    }

    /// The backoff for `attempt` can be computed without overflow and stays within
    /// what a `chrono::TimeDelta` holds: `2^attempt` and `base * 2^attempt` fit in
    /// a `u64`, and the largest possible delay fits in a `TimeDelta`.
    pub open spec fn backoff_defined(self, attempt: int) -> bool {
        &&& 0 <= attempt < 64
        &&& self.exp_delay(attempt) <= u64::MAX
        &&& self.capped_delay(attempt) + self.jitter_span(attempt) - 1 <= MAX_DELTA_SECS
    }

    pub fn default() -> (r: RetryPolicy)
        ensures
            r.base_delay_secs == 2,
            r.max_delay_secs == 60,
    {
        RetryPolicy { base_delay_secs: 2, max_delay_secs: 60 }
    }

    /// Whether a job that has made `attempt` of its `max_attempts` attempts may run again.
    pub fn should_retry(&self, attempt: i32, max_attempts: i32) -> (r: bool)
        ensures
            r == (attempt < max_attempts),
    {
        attempt < max_attempts
    }

    /// Whether the backoff for `attempt` can be computed (see `backoff_defined`).
    pub fn backoff_is_defined(&self, attempt: i32) -> (r: bool)
        ensures
            r == self.backoff_defined(attempt as int),
    {
        if attempt < 0 || attempt >= 64 {
            return false;
        }
        let mut pow: u128 = 1;
        let mut i: i32 = 0;
        proof {
            lemma2_to64();
        }
        while i < attempt
            invariant
                0 <= i <= attempt < 64,
                pow == pow2(i as nat),
            decreases attempt - i,
        {
            proof {
                lemma_pow2_unfold((i + 1) as nat);
                lemma_two_pow_le_64((i + 1) as nat);
            }
            pow = pow * 2;
            i = i + 1;
        }
        proof {
            lemma_two_pow_le_64(attempt as nat);
            assert(self.base_delay_secs * pow <= u64::MAX * u64::MAX) by (nonlinear_arith)
                requires
                    self.base_delay_secs <= u64::MAX,
                    pow <= u64::MAX,
            ;
        }
        let exp_delay: u128 = self.base_delay_secs as u128 * pow;
        if exp_delay > u64::MAX as u128 {
            return false;
        }
        let capped: u128 = if exp_delay <= self.max_delay_secs as u128 {
            exp_delay
        } else {
            self.max_delay_secs as u128
        };
        let half: u128 = capped / 2;
        let span: u128 = if half >= 1 {
            half
        } else {
            1
        };
        capped + span - 1 <= MAX_DELTA_SECS as u128
    }

    /// The backoff delay, in seconds, after `attempt` attempts, for the random
    /// number `random`: the capped exponential delay plus `random` reduced modulo
    /// the jitter span.
    pub fn backoff_delay_secs(&self, attempt: i32, random: u64) -> (r: u64)
        requires
            self.backoff_defined(attempt as int),
        ensures
            r == self.delay_for(attempt as int, random),
            self.capped_delay(attempt as int) <= r,
            r < self.capped_delay(attempt as int) + self.jitter_span(attempt as int),
            r <= self.max_delay_secs + self.jitter_span(attempt as int) - 1,
    {
        let mut pow: u64 = 1;
        let mut i: i32 = 0;
        proof {
            lemma2_to64();
        }
        while i < attempt
            invariant
                0 <= i <= attempt < 64,
                pow == pow2(i as nat),
                self.exp_delay(attempt as int) <= u64::MAX,
            decreases attempt - i,
        {
            proof {
                lemma_two_pow_monotone((i + 1) as nat, attempt as nat);
                lemma_base_times_monotone(self.base_delay_secs as int, (i + 1) as nat, attempt as nat);
            }
            proof {
                lemma_pow2_unfold((i + 1) as nat);
                lemma_two_pow_le_64((i + 1) as nat);
            }
            pow = pow * 2;
            i = i + 1;
        }
        assert(self.base_delay_secs * pow <= u64::MAX);
        let exp_delay: u64 = self.base_delay_secs * pow;
        let capped: u64 = if exp_delay <= self.max_delay_secs {
            exp_delay
        } else {
            self.max_delay_secs
        };
        let half: u64 = capped / 2;
        let span: u64 = if half >= 1 {
            half
        } else {
            1
        };
        let jitter: u64 = random % span;
        capped + jitter
    }

    /// The instant at which a job that failed after `attempt` attempts runs again,
    /// `now` being the current instant: `now` plus the backoff delay. `None` where
    /// chrono's `DateTime + TimeDelta` would overflow its range.
    pub fn run_at_after(&self, now: i128, attempt: i32, random: u64) -> (r: Option<i128>)
        requires
            self.backoff_defined(attempt as int),
            time_in_range(now as int),
        ensures
            r matches Some(t) ==> Some(t as int) == shifted(now as int, self.delay_for(attempt as int, random)),
            r is None ==> shifted(now as int, self.delay_for(attempt as int, random)) is None,
    {
        let delay = self.backoff_delay_secs(attempt, random);
        shift_by_secs(now, delay as i64)
    }

    /// The instant, from now, at which a job that failed after `attempt` attempts
    /// runs again: the current time plus the capped exponential delay plus a
    /// random jitter below the jitter span. `None` where that instant lies beyond
    /// the range of `chrono::DateTime<Utc>` (where chrono would panic).
    pub fn next_run_at(&self, attempt: i32) -> (r: Option<i128>)
        requires
            self.backoff_defined(attempt as int),
        ensures
            exists|now: i128, random: u64|
                0 <= now <= MAX_TIME_NANOS && call_ensures(crate::clock::now_nanos, (), now) && call_ensures(jitter_draw, (), random) && opt_instant(r) == #[trigger] shifted(now as int, self.delay_for(attempt as int, random)),
            r matches Some(t) ==> t >= self.capped_delay(attempt as int) * NANOS_PER_SEC,
    {
        let random = jitter_draw();
        let now = now_nanos();
        let r = self.run_at_after(now, attempt, random);
        assert(opt_instant(r) == shifted(now as int, self.delay_for(attempt as int, random)));
        r
    }
}

/// `2^a <= 2^b` whenever `a <= b`.
pub proof fn lemma_two_pow_monotone(a: nat, b: nat)
    requires
        a <= b,
    ensures
        pow2(a) <= pow2(b),
        pow2(a) >= 1,
{
    lemma2_to64();
    if a < b {
        lemma_pow2_strictly_increases(a, b);
    }
    if a > 0 {
        lemma_pow2_strictly_increases(0, a);
    }
}

proof fn lemma_base_times_monotone(base: int, a: nat, b: nat)
    requires
        a <= b,
        base >= 0,
    ensures
        base * pow2(a) <= base * pow2(b),
{
    lemma_two_pow_monotone(a, b);
    assert(base * pow2(a) <= base * pow2(b)) by (nonlinear_arith)
        requires
            pow2(a) <= pow2(b),
            base >= 0,
    ;
}

proof fn lemma_two_pow_le_64(n: nat)
    requires
        n <= 63,
    ensures
        pow2(n) <= u64::MAX,
{
    lemma2_to64();
    lemma_pow2_strictly_increases(n, 64);
}

} // verus!

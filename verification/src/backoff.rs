//! Exponential backoff policy: capped, monotone wait times between retries.

use vstd::prelude::*;
use vstd::arithmetic::div_mod::lemma_div_is_ordered;
use vstd::arithmetic::mul::lemma_mul_inequality;
use vstd::arithmetic::mul::lemma_mul_nonnegative;

verus! {

/// Scale of the fixed-point backoff multiplier: a growth factor of 2
/// is stored as `2 * MULTIPLIER_SCALE`.
pub const MULTIPLIER_SCALE: u64 = 1000;

/// Exponential backoff retry configuration.
///
/// The growth factor is a fixed-point number in thousandths, so
/// `backoff_multiplier_milli == 2000` means each retry doubles the wait.
#[derive(Debug, Clone, Copy, PartialEq, Eq, Structural)]
pub struct RetryConfig {
    /// Maximum number of retry attempts, 0 means no retry.
    pub max_retries: u32,
    /// Initial backoff time in milliseconds.
    pub initial_backoff_ms: u64,
    /// Maximum backoff time in milliseconds.
    pub max_backoff_ms: u64,
    /// Backoff multiplier, in thousandths.
    pub backoff_multiplier_milli: u64,
}

impl RetryConfig {
    /// A configuration is well formed when the initial backoff is positive,
    /// the cap is at least the initial backoff, and the multiplier is
    /// positive.
    pub open spec fn wf(self) -> bool {
        &&& self.initial_backoff_ms >= 1
        &&& self.max_backoff_ms >= self.initial_backoff_ms
        &&& self.backoff_multiplier_milli >= 1
    }

    /// Backoff in milliseconds before the `attempt`-th retry, 1-indexed:
    /// the initial backoff grown by the multiplier once per further retry,
    /// truncated to whole milliseconds and capped at `max_backoff_ms` at
    /// each step.
    pub open spec fn backoff_spec(self, attempt: int) -> int
        decreases attempt,
    {
        if attempt <= 1 {
            if self.initial_backoff_ms < self.max_backoff_ms {
                self.initial_backoff_ms as int
            } else {
                self.max_backoff_ms as int
            }
        } else {
            let grown = (self.backoff_spec(attempt - 1) * self.backoff_multiplier_milli)
                / (MULTIPLIER_SCALE as int);
            if grown < self.max_backoff_ms {
                grown
            } else {
                self.max_backoff_ms as int
            }
        }
    }

    /// Every computed backoff is bounded by the configured maximum.
    pub proof fn lemma_backoff_le_max(self, attempt: int)
        ensures
            self.backoff_spec(attempt) <= self.max_backoff_ms,
        decreases attempt,
    {
        if attempt > 1 {
            self.lemma_backoff_le_max(attempt - 1);
        }
    }

    /// Every computed backoff is a non-negative number of milliseconds.
    pub proof fn lemma_backoff_nonneg(self, attempt: int)
        ensures
            self.backoff_spec(attempt) >= 0,
        decreases attempt,
    {
        if attempt > 1 {
            self.lemma_backoff_nonneg(attempt - 1);
            lemma_mul_nonnegative(
                self.backoff_spec(attempt - 1),
                self.backoff_multiplier_milli as int,
            );
            lemma_div_is_ordered(
                0,
                self.backoff_spec(attempt - 1) * self.backoff_multiplier_milli,
                MULTIPLIER_SCALE as int,
            );
        }
    }

    /// The backoff schedule never shrinks from one retry to the next,
    /// whenever the multiplier is at least 1.
    pub proof fn lemma_backoff_nondecreasing(self, a: int, b: int)
        requires
            self.backoff_multiplier_milli >= MULTIPLIER_SCALE,
            1 <= a <= b,
        ensures
            self.backoff_spec(a) <= self.backoff_spec(b),
        decreases b - a,
    {
        if a < b {
            self.lemma_backoff_nondecreasing(a, b - 1);
            let prev = self.backoff_spec(b - 1);
            self.lemma_backoff_nonneg(b - 1);
            self.lemma_backoff_le_max(b - 1);
            lemma_mul_inequality(
                MULTIPLIER_SCALE as int,
                self.backoff_multiplier_milli as int,
                prev,
            );
            assert(prev * (MULTIPLIER_SCALE as int) == (MULTIPLIER_SCALE as int) * prev)
                by (nonlinear_arith);
            assert(prev * (self.backoff_multiplier_milli as int)
                == (self.backoff_multiplier_milli as int) * prev) by (nonlinear_arith);
            lemma_div_is_ordered(
                prev * (MULTIPLIER_SCALE as int),
                prev * (self.backoff_multiplier_milli as int),
                MULTIPLIER_SCALE as int,
            );
            assert((prev * (MULTIPLIER_SCALE as int)) / (MULTIPLIER_SCALE as int) == prev)
                by (nonlinear_arith)
                requires prev >= 0,
            ;
        }
    }

    /// Create retry configuration from settings.
    pub fn from_settings(max_retries: u32) -> (c: Self)
        ensures
            c.max_retries == max_retries,
            c.initial_backoff_ms == 1000,
            c.max_backoff_ms == 32000,
            c.backoff_multiplier_milli == 2000,
            c.wf(),
    {
        let mut c = RetryConfig::default();
        c.max_retries = max_retries;
        c
    }

    /// Calculate backoff duration in milliseconds for the `attempt`-th
    /// retry, 1-indexed.
    pub fn calculate_backoff(&self, attempt: u32) -> (r: u64)
        requires
            attempt >= 1,
            self.wf(),
        ensures
            r == self.backoff_spec(attempt as int),
            r <= self.max_backoff_ms,
    {
        let mut ms: u64 = if self.initial_backoff_ms < self.max_backoff_ms {
            self.initial_backoff_ms
        } else {
            self.max_backoff_ms
        };
        let mut i: u32 = 1;
        while i < attempt
            invariant
                1 <= i <= attempt,
                ms == self.backoff_spec(i as int),
                ms <= self.max_backoff_ms,
            decreases attempt - i,
        {
            proof {
                assert((ms as int) * (self.backoff_multiplier_milli as int)
                    <= (u64::MAX as int) * (u64::MAX as int)) by (nonlinear_arith)
                    requires 0 <= ms <= u64::MAX, 0 <= self.backoff_multiplier_milli <= u64::MAX,
                ;
            }
            let wide: u128 = (ms as u128) * (self.backoff_multiplier_milli as u128);
            let grown: u128 = wide / (MULTIPLIER_SCALE as u128);
            ms = if grown < (self.max_backoff_ms as u128) {
                grown as u64
            } else {
                self.max_backoff_ms
            };
            i = i + 1;
        }
        ms
    }
}

impl Default for RetryConfig {
    /// No retries; 1 second initial backoff, 32 second cap, doubling.
    fn default() -> (c: Self)
        ensures
            c.max_retries == 0,
            c.initial_backoff_ms == 1000,
            c.max_backoff_ms == 32000,
            c.backoff_multiplier_milli == 2000,
            c.wf(),
    {
        RetryConfig {
            max_retries: 0,
            initial_backoff_ms: 1000,
            max_backoff_ms: 32000,
            backoff_multiplier_milli: 2000,
        }
    }
}

} // verus!

//! The retry executor's decision logic: after each submission the caller
//! reports what happened, and the library answers with the next step —
//! return, wait and resubmit, or give up.

use vstd::prelude::*;
use vstd::string::StrSliceExecFns;
use crate::backoff::RetryConfig;

verus! {

/// What one submission attempt produced, as seen by the retry logic.
#[derive(Debug)]
pub enum AttemptOutcome {
    /// A response arrived: its status code, and the value of its
    /// `Retry-After` header if one was present and readable as text.
    Response { status: u16, retry_after: Option<String> },
    /// The exchange failed before any response arrived.
    TransportError { message: String },
    /// The request template could not produce a fresh copy to submit.
    CloneFailed,
}

/// What the executor must do next after one attempt.
#[derive(Debug, Clone, Copy, PartialEq, Eq, Structural)]
pub enum RetryDecision {
    /// Return this attempt's response to the caller: either it is not a
    /// rate-limit response, or the retry budget is exhausted.
    ReturnResponse,
    /// Sleep for `wait_ms` milliseconds, then submit again.
    Wait { wait_ms: u64 },
    /// Fail at once with a configuration error: the request template
    /// cannot be copied, which no retry can mend.
    FailConfig,
    /// Give up: the budget is exhausted and no response ever arrived.
    GiveUp,
}

/// A decimal digit.
pub open spec fn is_dec_digit(c: char) -> bool {
    '0' <= c <= '9'
}

/// The numeric value of one decimal digit.
pub open spec fn digit_val(c: char) -> int {
    c as u32 - 48
}

/// Every character of the sequence is a decimal digit.
pub open spec fn all_dec_digits(s: Seq<char>) -> bool {
    forall|i: int| 0 <= i < s.len() ==> is_dec_digit(#[trigger] s[i])
}

/// Numeric value of a digit sequence, most significant digit first.
pub open spec fn digits_val(s: Seq<char>) -> int
    decreases s.len(),
{
    if s.len() == 0 {
        0
    } else {
        digits_val(s.drop_last()) * 10 + digit_val(s.last())
    }
}

/// The whole-seconds reading of a `Retry-After` value, as an unsigned
/// decimal number: an optional leading `+`, then one or more digits,
/// with a value that fits in `u64`. Anything else is unparseable.
pub open spec fn parse_secs_spec(s: Seq<char>) -> Option<u64> {
    let body = if s.len() > 0 && s[0] == '+' {
        s.subrange(1, s.len() as int)
    } else {
        s
    };
    if body.len() >= 1 && all_dec_digits(body) && digits_val(body) <= u64::MAX {
        Some(digits_val(body) as u64)
    } else {
        None
    }
}

/// A digit sequence's value is non-negative.
proof fn lemma_digits_val_nonneg(s: Seq<char>)
    requires
        all_dec_digits(s),
    ensures
        digits_val(s) >= 0,
    decreases s.len(),
{
    if s.len() > 0 {
        assert(all_dec_digits(s.drop_last())) by {
            assert(forall|i: int| 0 <= i < s.len() - 1 ==> s.drop_last()[i] == #[trigger] s[i]);
        }
        lemma_digits_val_nonneg(s.drop_last());
        vstd::arithmetic::mul::lemma_mul_nonnegative(digits_val(s.drop_last()), 10);
    }
}

/// A prefix of a digit sequence never has a larger value than the whole.
proof fn lemma_digits_val_prefix_le(s: Seq<char>, j: int)
    requires
        all_dec_digits(s),
        0 <= j <= s.len(),
    ensures
        digits_val(s.take(j)) <= digits_val(s),
    decreases s.len(),
{
    if j < s.len() {
        assert(all_dec_digits(s.drop_last())) by {
            assert(forall|i: int| 0 <= i < s.len() - 1 ==> s.drop_last()[i] == #[trigger] s[i]);
        }
        assert(s.take(j) =~= s.drop_last().take(j));
        lemma_digits_val_prefix_le(s.drop_last(), j);
        lemma_digits_val_nonneg(s.drop_last());
        assert(digits_val(s.drop_last()) * 10 >= digits_val(s.drop_last())) by (nonlinear_arith)
            requires digits_val(s.drop_last()) >= 0,
        ;
    } else {
        assert(s.take(j) =~= s);
    }
}

/// Parse a `Retry-After` header value as a whole number of seconds.
/// Returns `None` for the empty string, any non-digit character after an
/// optional leading `+`, or a value that does not fit in `u64`.
pub fn parse_retry_after(s: &str) -> (r: Option<u64>)
    ensures
        r == parse_secs_spec(s@),
{
    let n = s.unicode_len();
    let mut i: usize = 0;
    if n > 0 && s.get_char(0) == '+' {
        i = 1;
    }
    let ghost body: Seq<char> = if s@.len() > 0 && s@[0] == '+' {
        s@.subrange(1, s@.len() as int)
    } else {
        s@
    };
    let start: usize = i;
    if i == n {
        // empty value, or a lone sign
        return None;
    }
    let mut acc: u64 = 0;
    while i < n
        invariant
            start <= i <= n,
            n == s@.len(),
            start == 1 <==> (s@.len() > 0 && s@[0] == '+'),
            start <= 1,
            body == s@.subrange(start as int, n as int),
            body == (if s@.len() > 0 && s@[0] == '+' {
                s@.subrange(1, s@.len() as int)
            } else {
                s@
            }),
            all_dec_digits(s@.subrange(start as int, i as int)),
            acc == digits_val(s@.subrange(start as int, i as int)),
        decreases n - i,
    {
        let c = s.get_char(i);
        let cv: u32 = c as u32;
        if cv < 48 || cv > 57 {
            // a non-digit anywhere makes the whole value unparseable
            proof {
                assert(body[i - start] == s@[i as int]);
                assert(!is_dec_digit(body[i - start]));
            }
            return None;
        }
        let d: u64 = (cv - 48) as u64;
        let ghost scanned = s@.subrange(start as int, (i + 1) as int);
        proof {
            assert(scanned.drop_last() =~= s@.subrange(start as int, i as int));
            assert(scanned.last() == s@[i as int]);
            assert(digits_val(scanned) == acc * 10 + d);
        }
        let wide: u128 = (acc as u128) * 10 + (d as u128);
        if wide > (u64::MAX as u128) {
            // the value can no longer fit in u64, whatever digits follow
            proof {
                if all_dec_digits(body) {
                    assert(body.take(i + 1 - start) =~= scanned);
                    lemma_digits_val_prefix_le(body, i + 1 - start);
                    assert(digits_val(body) > u64::MAX);
                }
            }
            return None;
        }
        acc = wide as u64;
        i = i + 1;
    }
    proof {
        assert(s@.subrange(start as int, i as int) =~= body);
    }
    Some(acc)
}

/// Whole seconds converted to milliseconds, saturating at `u64::MAX`.
pub open spec fn secs_to_ms_spec(secs: u64) -> int {
    if secs * 1000 <= u64::MAX {
        secs * 1000
    } else {
        u64::MAX as int
    }
}

/// Convert whole seconds to milliseconds, saturating at `u64::MAX`.
pub fn secs_to_ms(secs: u64) -> (ms: u64)
    ensures
        ms == secs_to_ms_spec(secs),
{
    if secs <= u64::MAX / 1000 {
        secs * 1000
    } else {
        u64::MAX
    }
}

/// Whether the retry loop ends at this outcome: any response other
/// than 429, any outcome once the budget is spent, and a failed
/// template copy all end it; only a 429 or a transport failure with
/// budget remaining leads to another attempt.
pub open spec fn stops(cfg: RetryConfig, attempt: int, outcome: AttemptOutcome) -> bool {
    match outcome {
        AttemptOutcome::Response { status, .. } => status != 429 || attempt >= cfg.max_retries,
        AttemptOutcome::TransportError { .. } => attempt >= cfg.max_retries,
        AttemptOutcome::CloneFailed => true,
    }
}

/// The wait in milliseconds before the next submission, after `outcome`
/// on the 0-indexed attempt `attempt`: a parseable `Retry-After` hint on
/// a response wins; otherwise the computed backoff for retry
/// `attempt + 1`.
pub open spec fn wait_ms_spec(cfg: RetryConfig, attempt: int, outcome: AttemptOutcome) -> int {
    match outcome {
        AttemptOutcome::Response { retry_after: Some(h), .. } => match parse_secs_spec(h@) {
            Some(secs) => secs_to_ms_spec(secs),
            None => cfg.backoff_spec(attempt + 1),
        },
        _ => cfg.backoff_spec(attempt + 1),
    }
}

/// Decide what the executor must do after one attempt: `attempt` is the
/// 0-indexed number of retries already made, `outcome` what the
/// submission produced.
pub fn decide(cfg: &RetryConfig, attempt: u32, outcome: &AttemptOutcome) -> (d: RetryDecision)
    requires
        cfg.wf(),
        attempt <= cfg.max_retries,
    ensures
        d is Wait <==> !stops(*cfg, attempt as int, *outcome),
        d matches RetryDecision::Wait { wait_ms }
            ==> wait_ms == wait_ms_spec(*cfg, attempt as int, *outcome),
        d is ReturnResponse <==> (stops(*cfg, attempt as int, *outcome) && *outcome is Response),
        d is FailConfig <==> *outcome is CloneFailed,
        d is GiveUp <==> (*outcome is TransportError && attempt == cfg.max_retries),
{
    match outcome {
        AttemptOutcome::CloneFailed => RetryDecision::FailConfig,
        AttemptOutcome::Response { status, retry_after } => {
            if *status != 429 || attempt >= cfg.max_retries {
                RetryDecision::ReturnResponse
            } else {
                let wait_ms = match retry_after {
                    Some(h) => match parse_retry_after(h.as_str()) {
                        Some(secs) => secs_to_ms(secs),
                        None => cfg.calculate_backoff(attempt + 1),
                    },
                    None => cfg.calculate_backoff(attempt + 1),
                };
                RetryDecision::Wait { wait_ms }
            }
        },
        AttemptOutcome::TransportError { .. } => {
            if attempt < cfg.max_retries {
                RetryDecision::Wait { wait_ms: cfg.calculate_backoff(attempt + 1) }
            } else {
                RetryDecision::GiveUp
            }
        },
    }
}

/// Result of a full retry run.
pub enum RetryResult {
    /// The run ended by returning the response of the 0-indexed attempt
    /// `attempt`, which carried `status`. A 429 here means the budget
    /// was exhausted and the last rate-limit response is handed back,
    /// deliberately not as an error.
    Completed { attempt: u32, status: u16 },
    /// The request template could not be copied; no retry was made.
    ConfigError,
    /// Every attempt failed at transport level; `message` is the last
    /// transport error recorded.
    TransportFailure { message: String },
}

/// Everything observable about one retry run: its terminal result, the
/// sleeps performed in order (in milliseconds), and how many submissions
/// were made.
pub struct RetryRun {
    /// The terminal outcome of the run.
    pub result: RetryResult,
    /// The waits performed before each resubmission, in order.
    pub sleeps_ms: Vec<u64>,
    /// The number of submissions made, retries included.
    pub submissions: u64,
}

/// The 0-indexed attempt at which the loop stops, searching from
/// attempt `i`, when attempt `j` would produce `outcomes[j]`.
pub open spec fn stop_index_from(cfg: RetryConfig, outcomes: Seq<AttemptOutcome>, i: int) -> int
    recommends
        0 <= i <= cfg.max_retries,
    decreases cfg.max_retries - i,
{
    if i >= cfg.max_retries || stops(cfg, i, outcomes[i]) {
        i
    } else {
        stop_index_from(cfg, outcomes, i + 1)
    }
}

/// The 0-indexed attempt at which the loop stops, when attempt `j`
/// would produce `outcomes[j]`.
pub open spec fn stop_index(cfg: RetryConfig, outcomes: Seq<AttemptOutcome>) -> int {
    stop_index_from(cfg, outcomes, 0)
}

/// The stop index is the first attempt whose outcome ends the loop;
/// the loop always ends by attempt `max_retries`.
pub proof fn lemma_stop_index_from(cfg: RetryConfig, outcomes: Seq<AttemptOutcome>, i: int)
    requires
        0 <= i <= cfg.max_retries,
    ensures
        i <= stop_index_from(cfg, outcomes, i) <= cfg.max_retries,
        stops(cfg, stop_index_from(cfg, outcomes, i),
            outcomes[stop_index_from(cfg, outcomes, i)]),
        forall|j: int| i <= j < stop_index_from(cfg, outcomes, i)
            ==> !stops(cfg, j, #[trigger] outcomes[j]),
    decreases cfg.max_retries - i,
{
    if !(i >= cfg.max_retries || stops(cfg, i, outcomes[i])) {
        lemma_stop_index_from(cfg, outcomes, i + 1);
    }
}

/// If no attempt before `t` ends the loop and `t` does (or is the last
/// budgeted attempt), then `t` is the stop index.
proof fn lemma_stop_index_from_is(cfg: RetryConfig, outcomes: Seq<AttemptOutcome>, i: int, t: int)
    requires
        0 <= i <= t <= cfg.max_retries,
        stops(cfg, t, outcomes[t]) || t == cfg.max_retries,
        forall|j: int| i <= j < t ==> !stops(cfg, j, #[trigger] outcomes[j]),
    ensures
        stop_index_from(cfg, outcomes, i) == t,
    decreases t - i,
{
    if i < t {
        lemma_stop_index_from_is(cfg, outcomes, i + 1, t);
    }
}

/// Run the whole retry loop over a prearranged list of outcomes, where
/// `outcomes[j]` is what the `j`-th submission would produce. The run
/// stops at the first outcome that ends the loop, sleeping the decided
/// wait before every resubmission.
pub fn run_retry(cfg: &RetryConfig, outcomes: &Vec<AttemptOutcome>) -> (run: RetryRun)
    requires
        cfg.wf(),
        outcomes@.len() > cfg.max_retries,
    ensures
        ({
            let t = stop_index(*cfg, outcomes@);
            &&& run.submissions == t + 1
            &&& run.sleeps_ms@.len() == t
            &&& forall|j: int| 0 <= j < t
                ==> run.sleeps_ms@[j] == wait_ms_spec(*cfg, j, #[trigger] outcomes@[j])
            &&& (outcomes@[t] matches AttemptOutcome::Response { status, .. }
                ==> run.result == (RetryResult::Completed { attempt: t as u32, status }))
            &&& (outcomes@[t] is CloneFailed ==> run.result is ConfigError)
            &&& (outcomes@[t] matches AttemptOutcome::TransportError { message }
                ==> run.result matches RetryResult::TransportFailure { message: m }
                    && m@ == message@)
        }),
{
    let mut sleeps: Vec<u64> = Vec::new();
    let mut attempt: u32 = 0;
    loop
        invariant
            cfg.wf(),
            outcomes@.len() > cfg.max_retries,
            attempt <= cfg.max_retries,
            sleeps@.len() == attempt,
            forall|j: int| 0 <= j < attempt ==> !stops(*cfg, j, #[trigger] outcomes@[j]),
            forall|j: int| 0 <= j < attempt
                ==> sleeps@[j] == wait_ms_spec(*cfg, j, #[trigger] outcomes@[j]),
        decreases cfg.max_retries - attempt,
    {
        let o = &outcomes[attempt as usize];
        let d = decide(cfg, attempt, o);
        proof {
            if !(d is Wait) {
                lemma_stop_index_from_is(*cfg, outcomes@, 0, attempt as int);
            }
        }
        match d {
            RetryDecision::Wait { wait_ms } => {
                sleeps.push(wait_ms);
                attempt = attempt + 1;
            },
            RetryDecision::FailConfig => {
                return RetryRun {
                    result: RetryResult::ConfigError,
                    sleeps_ms: sleeps,
                    submissions: attempt as u64 + 1,
                };
            },
            RetryDecision::ReturnResponse => {
                match o {
                    AttemptOutcome::Response { status, .. } => {
                        return RetryRun {
                            result: RetryResult::Completed { attempt, status: *status },
                            sleeps_ms: sleeps,
                            submissions: attempt as u64 + 1,
                        };
                    },
                    // decide's contract rules this outcome out here
                    _ => vstd::pervasive::unreached(),
                }
            },
            RetryDecision::GiveUp => {
                match o {
                    AttemptOutcome::TransportError { message } => {
                        return RetryRun {
                            result: RetryResult::TransportFailure { message: message.clone() },
                            sleeps_ms: sleeps,
                            submissions: attempt as u64 + 1,
                        };
                    },
                    // decide's contract rules this outcome out here
                    _ => vstd::pervasive::unreached(),
                }
            },
        }
    }
}

/// With a zero retry budget the loop stops at the very first attempt:
/// exactly one submission is made, no sleep is performed, and a
/// transport error propagates at once.
pub proof fn lemma_no_retry_single_attempt(cfg: RetryConfig, outcomes: Seq<AttemptOutcome>)
    requires
        cfg.max_retries == 0,
    ensures
        stop_index(cfg, outcomes) == 0,
{
}

/// A response that is not a 429 on the first attempt ends the run at
/// once, however much retry budget remains.
pub proof fn lemma_success_returns_immediately(cfg: RetryConfig, outcomes: Seq<AttemptOutcome>)
    requires
        outcomes.len() > 0,
        outcomes[0] matches AttemptOutcome::Response { status, .. } && status != 429,
    ensures
        stop_index(cfg, outcomes) == 0,
{
}

/// When every budgeted attempt yields a 429 response, the run makes
/// `max_retries + 1` submissions and ends on the last of those
/// responses, returned as a response rather than an error.
pub proof fn lemma_exhausted_returns_last_429(cfg: RetryConfig, outcomes: Seq<AttemptOutcome>)
    requires
        cfg.max_retries < outcomes.len(),
        forall|j: int| 0 <= j <= cfg.max_retries
            ==> ((#[trigger] outcomes[j]) matches AttemptOutcome::Response { status, .. }
                && status == 429),
    ensures
        stop_index(cfg, outcomes) == cfg.max_retries,
{
    lemma_stop_index_from_is(cfg, outcomes, 0, cfg.max_retries as int);
}

/// When every budgeted attempt fails at transport level, the run makes
/// `max_retries + 1` submissions and ends by giving up on the last
/// transport error.
pub proof fn lemma_persistent_transport_failure(cfg: RetryConfig, outcomes: Seq<AttemptOutcome>)
    requires
        cfg.max_retries < outcomes.len(),
        forall|j: int| 0 <= j <= cfg.max_retries
            ==> (#[trigger] outcomes[j]) is TransportError,
    ensures
        stop_index(cfg, outcomes) == cfg.max_retries,
        outcomes[stop_index(cfg, outcomes)] is TransportError,
{
    lemma_stop_index_from_is(cfg, outcomes, 0, cfg.max_retries as int);
}

/// A parseable `Retry-After` hint overrides the computed backoff: the
/// wait is exactly the hinted whole seconds, in milliseconds
/// (saturating), whatever the backoff schedule would have said.
pub proof fn lemma_hint_overrides_backoff(
    cfg: RetryConfig,
    attempt: int,
    status: u16,
    hint: String,
    secs: u64,
)
    requires
        parse_secs_spec(hint@) == Some(secs),
    ensures
        wait_ms_spec(cfg, attempt, AttemptOutcome::Response {
            status,
            retry_after: Some(hint),
        }) == secs_to_ms_spec(secs),
{
}

/// An unparseable `Retry-After` hint falls back to the computed backoff
/// for the coming retry.
pub proof fn lemma_unparseable_hint_uses_backoff(
    cfg: RetryConfig,
    attempt: int,
    status: u16,
    hint: String,
)
    requires
        parse_secs_spec(hint@) is None,
    ensures
        wait_ms_spec(cfg, attempt, AttemptOutcome::Response {
            status,
            retry_after: Some(hint),
        }) == cfg.backoff_spec(attempt + 1),
{
}

} // verus!


//! The retry/backoff policy that wraps every request.
//!
//! One logical request may be issued up to `max_retries + 1` times.  After a
//! response whose status is in the retryable set, or after a transport
//! failure, the orchestrator sleeps and tries again while attempts remain.
//! The sleep is the server's retry hint when one was sent and is at most
//! 60 seconds, else exponential backoff from 500 ms, capped at 8 seconds,
//! shortened by up to a quarter by jitter.
//!
//! Everything here is pure: the caller performs the attempts and the
//! sleeps, and hands each attempt's outcome to [`retry_step`] (or a whole
//! run of them to [`run_retry`]).  Durations are milliseconds; jitter is a
//! uniform draw from `[0, 1_000_000)`, in parts per million.

use vstd::prelude::*;

use vstd::arithmetic::div_mod::{lemma_div_by_multiple, lemma_div_is_ordered};
use vstd::arithmetic::mul::lemma_mul_inequality;

use crate::events::opt_bytes;

verus! {

/// First backoff delay, in milliseconds.
pub const BASE_DELAY_MS: u64 = 500;

/// Largest backoff delay, in milliseconds.
pub const MAX_DELAY_MS: u64 = 8000;

/// Largest server retry hint that is honored, in milliseconds.
pub const MAX_HINT_MS: u64 = 60000;

/// One more than the largest jitter draw: draws are parts per million.
pub const JITTER_ONE: u64 = 1000000;

/// Two to the `n`th power.
pub open spec fn pow2(n: nat) -> nat
    decreases n,
{
    if n == 0 {
        1
    } else {
        2 * pow2((n - 1) as nat)
    }
}

/// `pow2` is monotone.
proof fn lemma_pow2_mono(a: nat, b: nat)
    requires
        a <= b,
    ensures
        pow2(a) <= pow2(b),
    decreases b,
{
    if a < b {
        lemma_pow2_mono(a, (b - 1) as nat);
    }
}

/// `pow2` is at least one.
proof fn lemma_pow2_pos(n: nat)
    ensures
        pow2(n) >= 1,
    decreases n,
{
    if n > 0 {
        lemma_pow2_pos((n - 1) as nat);
    }
}

/// The exponential delay before jitter: `500 * 2^attempt` ms, capped at
/// 8000 ms.
pub open spec fn capped_backoff_ms(attempt: nat) -> int {
    if 500 * pow2(attempt) >= 8000 {
        8000
    } else {
        500 * (pow2(attempt) as int)
    }
}

/// Jitter applied to a delay: the fraction `u` of a quarter is taken off,
/// where `u` ranges over `[0, 1_000_000)` parts per million.
pub open spec fn jittered_ms(capped: int, u: int) -> int {
    capped * (4000000 - u) / 4000000
}

/// The backoff delay for an attempt, jittered.
pub open spec fn delay_ms_spec(attempt: nat, u: int) -> int {
    jittered_ms(capped_backoff_ms(attempt), u)
}

/// The delay actually slept before re-issuing: a server retry hint of at
/// most 60 s is honored verbatim; a larger hint is ignored in favor of the
/// computed backoff; with no hint, the computed backoff.
pub open spec fn retry_delay_spec(attempt: nat, hint_ms: Option<u64>, u: int) -> int {
    match hint_ms {
        Option::Some(h) => if h <= MAX_HINT_MS {
            h as int
        } else {
            delay_ms_spec(attempt, u)
        },
        Option::None => delay_ms_spec(attempt, u),
    }
}

/// The computed delay lies in `[0, MAX_DELAY_MS]`; for a fixed jitter draw
/// it is non-decreasing in the attempt number; and with jitter disabled
/// (`u == 0`) it equals `min(500 * 2^attempt, 8000)` exactly.
pub proof fn lemma_delay_bounds_monotone(a1: nat, a2: nat, u: int)
    requires
        a1 <= a2,
        0 <= u < 1000000,
    ensures
        0 <= delay_ms_spec(a1, u) <= MAX_DELAY_MS,
        delay_ms_spec(a1, u) <= delay_ms_spec(a2, u),
        delay_ms_spec(a1, 0) == capped_backoff_ms(a1),
{
    let c1 = capped_backoff_ms(a1);
    let c2 = capped_backoff_ms(a2);
    lemma_pow2_pos(a1);
    lemma_pow2_mono(a1, a2);
    assert(0 <= c1 <= 8000);
    assert(c1 <= c2);
    // lower bound: 0 == 0 * (S - u) <= c1 * (S - u), so 0 <= the quotient
    lemma_mul_inequality(0, c1, 4000000 - u);
    lemma_div_is_ordered(0, c1 * (4000000 - u), 4000000);
    // upper bound: c1 * (S - u) <= c1 * S, and c1 * S / S == c1
    lemma_mul_inequality(4000000 - u, 4000000, c1);
    assert(c1 * (4000000 - u) == (4000000 - u) * c1) by (nonlinear_arith);
    assert(c1 * 4000000 == 4000000 * c1) by (nonlinear_arith);
    lemma_div_is_ordered(c1 * (4000000 - u), c1 * 4000000, 4000000);
    lemma_div_by_multiple(c1, 4000000);
    // monotone in the attempt: c1 <= c2, same jitter factor
    lemma_mul_inequality(c1, c2, 4000000 - u);
    lemma_div_is_ordered(c1 * (4000000 - u), c2 * (4000000 - u), 4000000);
}

/// A hint of at most 60 s overrides the computed backoff verbatim; a
/// larger hint is ignored in favor of the computed backoff.
pub proof fn lemma_retry_hint_override(attempt: nat, h: u64, u: int)
    ensures
        h <= MAX_HINT_MS ==> retry_delay_spec(attempt, Option::Some(h), u) == h as int,
        h > MAX_HINT_MS ==> retry_delay_spec(attempt, Option::Some(h), u) == delay_ms_spec(
            attempt,
            u,
        ),
{
}

/// Compute the jittered backoff delay for an attempt, in milliseconds.
pub fn backoff_delay_ms(attempt: u32, jitter: u32) -> (r: u64)
    requires
        jitter < JITTER_ONE,
    ensures
        r == delay_ms_spec(attempt as nat, jitter as int),
        r <= MAX_DELAY_MS,
{
    let capped: u64 = if attempt == 0 {
        500
    } else if attempt == 1 {
        1000
    } else if attempt == 2 {
        2000
    } else if attempt == 3 {
        4000
    } else {
        8000
    };
    proof {
        assert(pow2(0) == 1);
        assert(pow2(1) == 2);
        assert(pow2(2) == 4);
        assert(pow2(3) == 8);
        if attempt >= 4 {
            assert(pow2(4) == 16);
            lemma_pow2_mono(4, attempt as nat);
        }
        assert(capped == capped_backoff_ms(attempt as nat));
    }
    let r = capped * (4000000 - jitter as u64) / 4000000;
    proof {
        lemma_delay_bounds_monotone(attempt as nat, attempt as nat, jitter as int);
    }
    r
}

/// Compute the delay before re-issuing, honoring a server hint of at most
/// 60 s, in milliseconds.
pub fn retry_delay_ms(attempt: u32, hint_ms: Option<u64>, jitter: u32) -> (r: u64)
    requires
        jitter < JITTER_ONE,
    ensures
        r == retry_delay_spec(attempt as nat, hint_ms, jitter as int),
{
    match hint_ms {
        Some(h) => {
            if h <= MAX_HINT_MS {
                h
            } else {
                backoff_delay_ms(attempt, jitter)
            }
        },
        None => backoff_delay_ms(attempt, jitter),
    }
}

/// Whether all bytes are ASCII digits (and there is at least one).
pub open spec fn is_digits(s: Seq<u8>) -> bool {
    s.len() > 0 && forall|i: int| 0 <= i < s.len() ==> 48 <= #[trigger] s[i] <= 57
}

/// The number the digit string denotes.
pub open spec fn digits_value(s: Seq<u8>) -> int
    decreases s.len(),
{
    if s.len() == 0 {
        0
    } else {
        digits_value(s.drop_last()) * 10 + (s.last() - 48)
    }
}

/// A digit string denotes a non-negative number.
proof fn lemma_digits_value_nonneg(s: Seq<u8>)
    requires
        forall|i: int| 0 <= i < s.len() ==> 48 <= #[trigger] s[i] <= 57,
    ensures
        digits_value(s) >= 0,
    decreases s.len(),
{
    if s.len() > 0 {
        lemma_digits_value_nonneg(s.drop_last());
    }
}

/// A prefix of a digit string denotes at most the whole string's number.
proof fn lemma_digits_prefix_le(s: Seq<u8>, k: int)
    requires
        forall|i: int| 0 <= i < s.len() ==> 48 <= #[trigger] s[i] <= 57,
        0 <= k <= s.len(),
    ensures
        digits_value(s.take(k)) <= digits_value(s),
    decreases s.len() - k,
{
    if k < s.len() {
        lemma_digits_prefix_le(s, k + 1);
        assert(s.take(k + 1).drop_last() =~= s.take(k));
        lemma_digits_value_nonneg(s.take(k));
        assert(digits_value(s.take(k + 1)) == digits_value(s.take(k)) * 10 + (s[k] - 48));
        assert(digits_value(s.take(k)) * 10 >= digits_value(s.take(k))) by (nonlinear_arith)
            requires
                digits_value(s.take(k)) >= 0,
        ;
    } else {
        assert(s.take(k) =~= s);
    }
}

/// Parse an ASCII decimal number.
///
/// Returns the denoted value when the input is all digits (at least one)
/// and the value fits in a `u64`; returns nothing otherwise.
pub fn parse_u64_ascii(s: &Vec<u8>) -> (r: Option<u64>)
    ensures
        ({
            if is_digits(s@) && digits_value(s@) <= u64::MAX {
                r == Option::Some(digits_value(s@) as u64)
            } else {
                r is None
            }
        }),
{
    if s.len() == 0 {
        return None;
    }
    let mut acc: u64 = 0;
    let mut i: usize = 0;
    while i < s.len()
        invariant
            0 < s@.len(),
            i <= s@.len(),
            forall|k: int| 0 <= k < i ==> 48 <= #[trigger] s@[k] <= 57,
            acc == digits_value(s@.take(i as int)),
        decreases s@.len() - i,
    {
        let b = s[i];
        if b < 48 || b > 57 {
            return None;
        }
        let d: u64 = (b - 48) as u64;
        proof {
            assert(s@.take((i + 1) as int).drop_last() =~= s@.take(i as int));
            assert(s@.take((i + 1) as int).last() == s@[i as int]);
        }
        let shifted = match acc.checked_mul(10) {
            Some(v) => v,
            None => {
                proof {
                    if is_digits(s@) {
                        lemma_digits_prefix_le(s@, i + 1);
                        assert(digits_value(s@.take((i + 1) as int)) > u64::MAX);
                    }
                }
                return None;
            },
        };
        let next = match shifted.checked_add(d) {
            Some(v) => v,
            None => {
                proof {
                    if is_digits(s@) {
                        lemma_digits_prefix_le(s@, i + 1);
                        assert(digits_value(s@.take((i + 1) as int)) > u64::MAX);
                    }
                }
                return None;
            },
        };
        acc = next;
        i += 1;
    }
    proof {
        assert(s@.take(s@.len() as int) =~= s@);
    }
    Some(acc)
}

/// The retry hint denoted by the two retry-after headers: the value of a
/// millisecond header that parses as a decimal number, else the value of a
/// second header that parses, converted to milliseconds (saturating), else
/// nothing.
pub open spec fn retry_hint_spec(ms: Option<Seq<u8>>, secs: Option<Seq<u8>>) -> Option<u64> {
    if ms is Some && is_digits(ms.unwrap()) && digits_value(ms.unwrap()) <= u64::MAX {
        Option::Some(digits_value(ms.unwrap()) as u64)
    } else if secs is Some && is_digits(secs.unwrap()) && digits_value(secs.unwrap()) <= u64::MAX {
        if digits_value(secs.unwrap()) * 1000 <= u64::MAX {
            Option::Some((digits_value(secs.unwrap()) * 1000) as u64)
        } else {
            Option::Some(u64::MAX)
        }
    } else {
        Option::None
    }
}

/// Parse the server's retry hint from the raw values of the
/// `retry-after-ms` header (milliseconds, preferred) and the `retry-after`
/// header (seconds), as [`retry_hint_spec`] says.
pub fn parse_retry_after(ms_header: &Option<Vec<u8>>, secs_header: &Option<Vec<u8>>) -> (r: Option<
    u64,
>)
    ensures
        r == retry_hint_spec(opt_bytes(*ms_header), opt_bytes(*secs_header)),
{
    if let Some(ms) = ms_header {
        if let Some(v) = parse_u64_ascii(ms) {
            return Some(v);
        }
    }
    if let Some(secs) = secs_header {
        if let Some(v) = parse_u64_ascii(secs) {
            proof {
                assert(opt_bytes(*secs_header) == Option::Some(secs@));
                assert(is_digits(secs@));
                assert(digits_value(secs@) <= u64::MAX);
                lemma_digits_value_nonneg(secs@);
                assert(v as int == digits_value(secs@));
            }
            return match v.checked_mul(1000) {
                Some(msv) => {
                    proof {
                        assert(msv as int == digits_value(secs@) * 1000);
                    }
                    Some(msv)
                },
                None => {
                    proof {
                        assert(digits_value(secs@) * 1000 > u64::MAX);
                    }
                    Some(u64::MAX)
                },
            };
        }
    }
    None
}

/// The HTTP statuses after which a request is re-issued.
pub open spec fn retryable_status(status: u16) -> bool {
    status == 408 || status == 409 || status == 429 || status == 500 || status == 502 || status
        == 503 || status == 504 || status == 529
}

/// Whether a response status is in the retryable set.
pub fn should_retry(status: u16) -> (r: bool)
    ensures
        r == retryable_status(status),
{
    status == 408 || status == 409 || status == 429 || status == 500 || status == 502 || status
        == 503 || status == 504 || status == 529
}

/// What one attempt of the underlying transport produced.
#[derive(Debug, Clone, Copy, PartialEq, Eq)]
pub enum AttemptOutcome {
    /// A response arrived, with its status and the parsed retry hint.
    Response { status: u16, retry_after_ms: Option<u64> },
    /// The transport failed before any response (connection or timeout).
    Transport { timeout: bool },
}

/// What the orchestrator does after one attempt.
#[derive(Debug, Clone, Copy, PartialEq, Eq)]
pub enum RetryDecision {
    /// Hand the response back to the caller, as success or terminal
    /// failure.
    Accept,
    /// Give up and surface the transport error.
    Fail,
    /// Sleep this many milliseconds and issue the request again.
    RetryAfter { delay_ms: u64 },
}

/// The orchestrator's decision after one attempt.
///
/// Attempts are numbered from zero, so `attempt < max_retries` means a
/// later attempt remains in the budget of `max_retries + 1` issuances.  A
/// response is retried exactly when its status is retryable and budget
/// remains; a transport failure is retried exactly when budget remains,
/// and is surfaced otherwise.
pub open spec fn retry_decision_spec(
    max_retries: u32,
    attempt: u32,
    outcome: AttemptOutcome,
    u: int,
) -> RetryDecision {
    match outcome {
        AttemptOutcome::Response { status, retry_after_ms } => {
            if retryable_status(status) && attempt < max_retries {
                RetryDecision::RetryAfter {
                    delay_ms: retry_delay_spec(attempt as nat, retry_after_ms, u) as u64,
                }
            } else {
                RetryDecision::Accept
            }
        },
        AttemptOutcome::Transport { .. } => {
            if attempt < max_retries {
                RetryDecision::RetryAfter { delay_ms: delay_ms_spec(attempt as nat, u) as u64 }
            } else {
                RetryDecision::Fail
            }
        },
    }
}

/// Decide what to do after one attempt, exactly as
/// [`retry_decision_spec`] says.
pub fn retry_step(max_retries: u32, attempt: u32, outcome: &AttemptOutcome, jitter: u32) -> (r:
    RetryDecision)
    requires
        jitter < JITTER_ONE,
    ensures
        r == retry_decision_spec(max_retries, attempt, *outcome, jitter as int),
{
    match outcome {
        AttemptOutcome::Response { status, retry_after_ms } => {
            if should_retry(*status) && attempt < max_retries {
                let d = retry_delay_ms(attempt, *retry_after_ms, jitter);
                proof {
                    lemma_delay_bounds_monotone(attempt as nat, attempt as nat, jitter as int);
                }
                RetryDecision::RetryAfter { delay_ms: d }
            } else {
                RetryDecision::Accept
            }
        },
        AttemptOutcome::Transport { .. } => {
            if attempt < max_retries {
                let d = backoff_delay_ms(attempt, jitter);
                RetryDecision::RetryAfter { delay_ms: d }
            } else {
                RetryDecision::Fail
            }
        },
    }
}

/// A status outside the retryable set is never retried, whatever the
/// remaining budget: its response is handed back at once.
pub proof fn lemma_non_retryable_accepted(
    max_retries: u32,
    attempt: u32,
    status: u16,
    hint: Option<u64>,
    u: int,
)
    requires
        !retryable_status(status),
    ensures
        retry_decision_spec(
            max_retries,
            attempt,
            AttemptOutcome::Response { status, retry_after_ms: hint },
            u,
        ) == RetryDecision::Accept,
{
}

/// With the budget exhausted, any response is handed back as it is: a
/// final 429 reaches the caller, who classifies it with its retry hint.
pub proof fn lemma_exhausted_budget_accepts(
    max_retries: u32,
    attempt: u32,
    status: u16,
    hint: Option<u64>,
    u: int,
)
    requires
        attempt >= max_retries,
    ensures
        retry_decision_spec(
            max_retries,
            attempt,
            AttemptOutcome::Response { status, retry_after_ms: hint },
            u,
        ) == RetryDecision::Accept,
{
}

/// The whole retry loop over a fixed sequence of attempt outcomes,
/// starting at attempt `k`: the index of the outcome finally surfaced and
/// the decision that surfaced it, or nothing if the outcomes run out while
/// a retry is still due.
pub open spec fn run_retry_spec(
    max_retries: u32,
    outcomes: Seq<AttemptOutcome>,
    k: int,
    u: int,
) -> Option<(int, RetryDecision)>
    decreases outcomes.len() - k,
{
    if k < 0 || k >= outcomes.len() || k >= u32::MAX {
        Option::None
    } else {
        match retry_decision_spec(max_retries, k as u32, outcomes[k], u) {
            RetryDecision::RetryAfter { .. } => run_retry_spec(max_retries, outcomes, k + 1, u),
            d => Option::Some((k, d)),
        }
    }
}

/// Run the retry loop over a fixed sequence of attempt outcomes: issue
/// attempt 0, 1, ... consulting [`retry_step`] after each, and return the
/// index of the outcome finally surfaced together with the surfacing
/// decision (`Accept` or `Fail`), exactly as [`run_retry_spec`] says.
///
/// Returns nothing only when `outcomes` runs out while a retry is due.
pub fn run_retry(max_retries: u32, outcomes: &Vec<AttemptOutcome>, jitter: u32) -> (r: Option<
    (u32, RetryDecision),
>)
    requires
        jitter < JITTER_ONE,
        outcomes@.len() < u32::MAX,
    ensures
        ({
            match (r, run_retry_spec(max_retries, outcomes@, 0, jitter as int)) {
                (Option::Some((i, d)), Option::Some((si, sd))) => i as int == si && d == sd,
                (Option::None, Option::None) => true,
                _ => false,
            }
        }),
{
    let mut attempt: u32 = 0;
    loop
        invariant
            jitter < JITTER_ONE,
            outcomes@.len() < u32::MAX,
            attempt <= outcomes@.len(),
            run_retry_spec(max_retries, outcomes@, attempt as int, jitter as int)
                == run_retry_spec(max_retries, outcomes@, 0, jitter as int),
        decreases outcomes@.len() - attempt,
    {
        if attempt as usize >= outcomes.len() {
            return None;
        }
        let outcome = &outcomes[attempt as usize];
        let d = retry_step(max_retries, attempt, outcome, jitter);
        match d {
            RetryDecision::RetryAfter { .. } => {
                attempt = attempt + 1;
            },
            _ => {
                return Some((attempt, d));
            },
        }
    }
}

} // verus!

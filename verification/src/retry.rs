//! Retry, backoff and pacing decisions around individual vendor calls.
//!
//! A vendor call gets a bounded number of attempts. After a transient
//! failure on attempt `a` (counted from zero) the controller orders one
//! backoff sleep of `2^(a+1)` seconds — 2s after the first failure, 4s
//! after the second — unless `a` was the final attempt, in which case the
//! failure is terminal and the last error is handed back unchanged.
//!
//! Each attempt may shape the request differently: the encoding of the
//! "empty" query placeholders rotates per attempt, because the vendor's
//! validation accepts different encodings at different times.
//!
//! Human-pacing delays are part of correctness here, not cosmetics: the
//! vendor blocks high-frequency clients. A short randomized delay precedes
//! every attempt, and a longer one separates consecutive distinct vendor
//! calls. The random draw is made by the caller; the functions here turn a
//! draw into a delay within the documented bounds.

use vstd::prelude::*;

verus! {

/// The number of attempts a vendor call gets before its failure is
/// terminal.
pub const MAX_ATTEMPTS: u32 = 3;

/// What to do after a failed attempt: sleep and retry, or give up and
/// surface the error unchanged.
#[derive(Debug, PartialEq, Eq, Structural)]
pub enum RetryDecision {
    Retry { backoff_secs: u64 },
    GiveUp,
}

/// Two to the power `k`.
pub open spec fn spec_pow2(k: nat) -> nat
    decreases k,
{
    if k == 0 {
        1
    } else {
        2 * spec_pow2((k - 1) as nat)
    }
}

/// Computes `2^k` for small `k`.
pub fn pow2(k: u32) -> (r: u64)
    requires
        k <= 30,
    ensures
        r == spec_pow2(k as nat),
{
    let mut r: u64 = 1;
    let mut i: u32 = 0;
    while i < k
        invariant
            i <= k,
            r == spec_pow2(i as nat),
        decreases k - i,
    {
        proof {
            lemma_pow2_mono(i as nat, (k - 1) as nat);
            lemma_pow2_bound((k - 1) as nat);
        }
        r = r * 2;
        i = i + 1;
    }
    r
}

/// `2^k` grows with `k`.
proof fn lemma_pow2_mono(a: nat, b: nat)
    requires
        a <= b,
    ensures
        spec_pow2(a) <= spec_pow2(b),
    decreases b,
{
    if a < b {
        lemma_pow2_mono(a, (b - 1) as nat);
    }
}

/// `2^k` stays within a `u64` for the attempt counts used here.
proof fn lemma_pow2_bound(k: nat)
    requires
        k <= 30,
    ensures
        spec_pow2(k) <= 0x4000_0000,
{
    assert(spec_pow2(30) == 0x4000_0000) by {
        reveal_with_fuel(spec_pow2, 32);
    }
    lemma_pow2_mono(k, 30);
}

/// Decides what follows the failure of attempt `attempt` (zero-based) out
/// of `max_attempts`: a `2^(attempt+1)`-second backoff and another try
/// while attempts remain, otherwise terminal failure with the error kept
/// as it was.
pub fn retry_after_failure(attempt: u32, max_attempts: u32) -> (d: RetryDecision)
    requires
        attempt < max_attempts,
        max_attempts <= 30,
    ensures
        attempt + 1 < max_attempts ==> d == (RetryDecision::Retry {
            backoff_secs: spec_pow2((attempt + 1) as nat) as u64,
        }),
        attempt + 1 == max_attempts ==> d == RetryDecision::GiveUp,
{
    if attempt + 1 < max_attempts {
        RetryDecision::Retry { backoff_secs: pow2(attempt + 1) }
    } else {
        RetryDecision::GiveUp
    }
}

/// How the "empty" query placeholders are written on a given attempt.
#[derive(Debug, PartialEq, Eq, Structural)]
pub enum EmptyParamEncoding {
    Undefined,
    EmptyString,
    Null,
}

/// The placeholder text of each encoding.
pub open spec fn spec_placeholder(e: EmptyParamEncoding) -> Seq<char> {
    match e {
        EmptyParamEncoding::Undefined => "undefined"@,
        EmptyParamEncoding::EmptyString => ""@,
        EmptyParamEncoding::Null => "null"@,
    }
}

/// The strategy table of attempt diversity: the placeholder encoding
/// rotates with the attempt number, starting from `undefined`.
pub fn encoding_for_attempt(attempt: u32) -> (e: EmptyParamEncoding)
    ensures
        attempt % 3 == 0 ==> e == EmptyParamEncoding::Undefined,
        attempt % 3 == 1 ==> e == EmptyParamEncoding::EmptyString,
        attempt % 3 == 2 ==> e == EmptyParamEncoding::Null,
{
    let m = attempt % 3;
    if m == 0 {
        EmptyParamEncoding::Undefined
    } else if m == 1 {
        EmptyParamEncoding::EmptyString
    } else {
        EmptyParamEncoding::Null
    }
}

/// The placeholder text used for an encoding.
pub fn placeholder(e: &EmptyParamEncoding) -> (r: &'static str)
    ensures
        r@ == spec_placeholder(*e),
{
    match e {
        EmptyParamEncoding::Undefined => "undefined",
        EmptyParamEncoding::EmptyString => "",
        EmptyParamEncoding::Null => "null",
    }
}

/// The short delay before a single attempt, from a random draw:
/// 100 to 400 milliseconds.
pub fn attempt_delay_ms(draw: u128) -> (d: u64)
    ensures
        d == 100 + (draw % 301),
        100 <= d <= 400,
{
    100 + ((draw % 301) as u64)
}

/// The longer pacing delay between consecutive distinct vendor calls,
/// from a random draw: 500 to 1499 milliseconds.
pub fn pacing_delay_ms(draw: u128) -> (d: u64)
    ensures
        d == 500 + (draw % 1000),
        500 <= d < 1500,
{
    500 + ((draw % 1000) as u64)
}

} // verus!

//! When a failed fetch is repeated.
//!
//! A fetch that fails with a retryable error (see
//! [`PrehrajtoError::is_retryable`]) is repeated after a pause of `2^n`
//! seconds, `n` being the number of attempts before it, as long as fewer than
//! `max_retries` repetitions were made; any other outcome ends it.

use vstd::prelude::*;
use vstd::arithmetic::power2::pow2;
use crate::error::{HttpFailure, PrehrajtoError};

verus! {

/// Whether, after attempt number `attempt` (from 0) ended with `outcome`,
/// another attempt follows.
pub open spec fn continues(
    attempt: nat,
    max_retries: nat,
    outcome: Result<String, PrehrajtoError>,
) -> bool {
    &&& outcome matches Err(e)
    &&& e.spec_retryable()
    &&& attempt < max_retries
}

/// The pause before attempt `attempt + 1`, in seconds, does not fit the
/// shift that computes it (only from the 65th attempt on).
pub open spec fn backoff_overflows(
    attempt: nat,
    max_retries: nat,
    outcome: Result<String, PrehrajtoError>,
) -> bool {
    continues(attempt, max_retries, outcome) && attempt >= 64
}

/// The number of attempts made when the attempts from number `attempt` on
/// end with `outcomes`, in order, until one of them ends the fetch.
pub open spec fn attempts_used(
    attempt: nat,
    max_retries: nat,
    outcomes: Seq<Result<String, PrehrajtoError>>,
) -> nat
    decreases outcomes.len(),
{
    if outcomes.len() == 0 {
        0
    } else if continues(attempt, max_retries, outcomes[0]) {
        1 + attempts_used(attempt + 1, max_retries, outcomes.drop_first())
    } else {
        1
    }
}

/// What follows an attempt.
pub enum RetryDecision {
    /// The fetch ends with this result.
    Finish(Result<String, PrehrajtoError>),
    /// Wait this many seconds, then make the next attempt.
    Retry { backoff_secs: u64 },
}

/// The attempts of one fetch.
pub struct RetryState {
    attempt: u32,
    max_retries: u32,
}

impl RetryState {
    #[verifier::type_invariant]
    spec fn within_budget(self) -> bool {
        self.attempt <= self.max_retries
    }

    /// The number of the current attempt, from 0.
    pub closed spec fn attempt(&self) -> nat {
        self.attempt as nat
    }

    /// The most repetitions allowed.
    pub closed spec fn max_retries(&self) -> nat {
        self.max_retries as nat
    }

    /// A fetch before its first attempt.
    pub fn new(max_retries: u32) -> (s: Self)
        ensures
            s.attempt() == 0,
            s.max_retries() == max_retries,
    {
        RetryState { attempt: 0, max_retries }
    }

    /// The number of the current attempt, from 0.
    pub fn attempt_number(&self) -> (n: u32)
        ensures
            n == self.attempt(),
            n <= self.max_retries(),
    {
        proof {
            use_type_invariant(self);
        }
        self.attempt
    }

    /// Decides what follows the current attempt, which ended with
    /// `outcome`.
    pub fn on_outcome(&mut self, outcome: Result<String, PrehrajtoError>) -> (d: RetryDecision)
        requires
            !backoff_overflows(old(self).attempt(), old(self).max_retries(), outcome),
        ensures
            final(self).max_retries() == old(self).max_retries(),
            old(self).attempt() <= old(self).max_retries(),
            final(self).attempt() <= final(self).max_retries(),
            continues(old(self).attempt(), old(self).max_retries(), outcome) ==> d
                == (RetryDecision::Retry { backoff_secs: pow2(old(self).attempt()) as u64 })
                && final(self).attempt() == old(self).attempt() + 1,
            !continues(old(self).attempt(), old(self).max_retries(), outcome) ==> d
                == RetryDecision::Finish(outcome) && final(self).attempt() == old(self).attempt(),
    {
        proof {
            use_type_invariant(&*self);
        }
        match outcome {
            Ok(body) => RetryDecision::Finish(Ok(body)),
            Err(e) => {
                if e.is_retryable() && self.attempt < self.max_retries {
                    let secs = backoff_secs(self.attempt);
                    self.attempt = self.attempt + 1;
                    RetryDecision::Retry { backoff_secs: secs }
                } else {
                    RetryDecision::Finish(Err(e))
                }
            },
        }
    }
}

/// The pause before the attempt after attempt number `attempt`, in
/// seconds: `2^attempt`.
pub fn backoff_secs(attempt: u32) -> (secs: u64)
    requires
        attempt < 64,
    ensures
        secs == pow2(attempt as nat),
{
    proof {
        vstd::bits::lemma_u64_pow2_no_overflow(attempt as nat);
        vstd::bits::lemma_u64_shl_is_mul(1, attempt as u64);
    }
    1u64 << (attempt as u64)
}

/// Whatever the attempts return, a fetch makes at most `max_retries + 1`
/// attempts, counted from the current one.
pub proof fn lemma_attempts_bounded(
    attempt: nat,
    max_retries: nat,
    outcomes: Seq<Result<String, PrehrajtoError>>,
)
    requires
        attempt <= max_retries,
    ensures
        attempts_used(attempt, max_retries, outcomes) <= max_retries + 1 - attempt,
    decreases outcomes.len(),
{
    if outcomes.len() > 0 && continues(attempt, max_retries, outcomes[0]) {
        lemma_attempts_bounded(attempt + 1, max_retries, outcomes.drop_first());
    }
}

/// Each pause is twice the one before it.
pub proof fn lemma_backoff_doubles(attempt: nat)
    ensures
        pow2(attempt + 1) == 2 * pow2(attempt),
{
    vstd::arithmetic::power2::lemma_pow2_unfold(attempt + 1);
}

/// An attempt that failed with any 5xx answer, a timeout, a failed
/// connection or rate limiting is repeated while fewer than `max_retries`
/// repetitions were made; the pauses before the repetitions are 1, 2, 4, ...
/// seconds.
pub proof fn lemma_transient_failure_retried(attempt: nat, max_retries: nat, f: HttpFailure)
    requires
        attempt < max_retries,
    ensures
        (f.timeout || f.connect || (f.status matches Some(s) && 500 <= s && s <= 599))
            ==> continues(attempt, max_retries, Err(PrehrajtoError::HttpError(f))),
        continues(attempt, max_retries, Err(PrehrajtoError::RateLimited)),
        pow2(0) == 1 && pow2(1) == 2 && pow2(2) == 4,
{
    vstd::arithmetic::power2::lemma2_to64();
}

} // verus!

//! Retrying a failed page with linear back-off.
//!
//! The caller makes the attempts and does the waiting; this module decides,
//! after each attempt, what comes next.

use vstd::prelude::*;

verus! {

/// Number of attempts made for a page unless the caller says otherwise.
pub const DEFAULT_ATTEMPTS: u32 = 3;

/// What went wrong in an attempt at a page.
#[derive(Clone, Copy, Debug, PartialEq, Eq, Structural)]
pub enum FailureKind {
    /// The page could not be fetched.
    Fetch,
    /// The bytes that were fetched could not be decoded.
    Decode,
    /// The recogniser could not be reached or refused.
    Recognition,
}

/// A failed attempt: what went wrong, and the cause as the caller holds it.
#[derive(Debug, PartialEq, Eq)]
pub struct Failure<E> {
    pub kind: FailureKind,
    pub error: E,
}

/// What follows an attempt.
#[derive(Debug, PartialEq, Eq)]
pub enum RetryStep<T, E> {
    /// The attempt succeeded: its value is the result.
    Done(T),
    /// The attempt failed: wait `delay` time units, then make attempt
    /// `next_attempt`.
    Retry { delay: u64, next_attempt: u32, error: E },
    /// The last attempt failed: wait `delay` time units, then give the
    /// error out as the result.
    GiveUp { delay: u64, error: E },
    /// The attempt failed for good: give the error out as the result at
    /// once, without a wait and without another attempt.
    Abort { error: E },
}

/// Whether another attempt can end otherwise: fetching and recognising may
/// fail for a moment, but the same bytes never decode better.
pub open spec fn retryable(kind: FailureKind) -> bool {
    kind != FailureKind::Decode
}

/// The step after attempt number `attempt` (counted from one) of at most
/// `max_attempts`. A failure that is not retryable ends the run at once. Any
/// other failed attempt is followed by a wait of as many time units as its
/// number, and by the next attempt if one is left.
pub open spec fn next_step<T, E>(attempt: u32, max_attempts: u32, outcome: Result<T, Failure<E>>) -> RetryStep<
    T,
    E,
> {
    match outcome {
        Ok(value) => RetryStep::Done(value),
        Err(failure) => if !retryable(failure.kind) {
            RetryStep::Abort { error: failure.error }
        } else if attempt < max_attempts {
            RetryStep::Retry {
                delay: attempt as u64,
                next_attempt: (attempt + 1) as u32,
                error: failure.error,
            }
        } else {
            RetryStep::GiveUp { delay: attempt as u64, error: failure.error }
        },
    }
}

/// Time waited after the first `failures` attempts, all of which failed.
pub open spec fn total_delay(failures: nat) -> nat
    decreases failures,
{
    if failures == 0 {
        0
    } else {
        total_delay((failures - 1) as nat) + failures
    }
}

/// Whether a failure of this kind is worth another attempt.
pub fn is_retryable(kind: FailureKind) -> (yes: bool)
    ensures
        yes == retryable(kind),
{
    match kind {
        FailureKind::Decode => false,
        FailureKind::Fetch => true,
        FailureKind::Recognition => true,
    }
}

/// Decides what follows attempt number `attempt` with the given outcome.
pub fn after_attempt<T, E>(attempt: u32, max_attempts: u32, outcome: Result<T, Failure<E>>) -> (step:
    RetryStep<T, E>)
    ensures
        step == next_step(attempt, max_attempts, outcome),
{
    match outcome {
        Ok(value) => RetryStep::Done(value),
        Err(failure) => {
            if !is_retryable(failure.kind) {
                RetryStep::Abort { error: failure.error }
            } else if attempt < max_attempts {
                RetryStep::Retry {
                    delay: attempt as u64,
                    next_attempt: attempt + 1,
                    error: failure.error,
                }
            } else {
                RetryStep::GiveUp { delay: attempt as u64, error: failure.error }
            }
        },
    }
}

/// A decode failure is never retried: whatever the attempt and however many
/// are left, the run ends with the error, without a wait.
pub proof fn lemma_decode_failure_aborts<T, E>(attempt: u32, max_attempts: u32, error: E)
    ensures
        next_step::<T, E>(
            attempt,
            max_attempts,
            Err(Failure { kind: FailureKind::Decode, error }),
        ) == (RetryStep::<T, E>::Abort { error }),
{
}

/// The waits grow by one time unit with each failure: after `failures`
/// failed attempts they add up to `failures * (failures + 1) / 2`.
pub proof fn lemma_total_delay(failures: nat)
    ensures
        2 * total_delay(failures) == failures * (failures + 1),
    decreases failures,
{
    if failures == 0 {
        assert(0 * (0 + 1) == 0) by (nonlinear_arith);
        assert(failures * (failures + 1) == 0);
    } else {
        lemma_total_delay((failures - 1) as nat);
        assert(2 * (total_delay((failures - 1) as nat) + failures) == failures * (failures + 1))
            by (nonlinear_arith)
            requires
                2 * total_delay((failures - 1) as nat) == (failures - 1) * failures,
        ;
    }
}

} // verus!

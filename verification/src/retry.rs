//! Retrying an operation on a remote backend: when to try again, after what
//! delay, and when to give up.
//!
//! The library decides; the caller runs the operation and sleeps. An
//! operation is tried at most `MAX_ATTEMPTS` times. After the failure of
//! attempt `k` the caller waits for the initial interval times the
//! multiplier to the power `k - 1`, and tries again.

use vstd::prelude::*;

verus! {

/// How often an operation is tried at most.
pub const MAX_ATTEMPTS: u32 = 3;

/// The delays between attempts. Times are in milliseconds.
#[derive(Debug, Clone, Copy, PartialEq, Eq, Structural)]
pub struct RetryPolicy {
    /// The delay after the first failure.
    pub initial_interval_ms: u64,
    /// The factor by which the delay grows from one failure to the next.
    pub multiplier: u32,
}

/// How many attempts of an operation have failed.
#[derive(Debug, Clone, Copy, PartialEq, Eq, Structural)]
pub struct RetryState {
    pub failed_attempts: u32,
}

/// What to do after an attempt.
#[derive(Debug)]
pub enum RetryDecision<T, E> {
    /// Hand this result to the caller: the value of the attempt that
    /// succeeded, or the error of the last attempt.
    Return(Result<T, E>),
    /// Wait for so many milliseconds and try again.
    RetryAfter(u64),
}

/// The power of `base`, held at the largest `u32` after each multiplication.
pub open spec fn capped_power(base: nat, exponent: nat) -> nat
    decreases exponent,
{
    if exponent == 0 {
        1
    } else {
        let product = capped_power(base, (exponent - 1) as nat) * base;
        if product > u32::MAX {
            u32::MAX as nat
        } else {
            product
        }
    }
}

/// The delay after the failure of attempt `attempt`, counted from 1: the
/// initial interval times the multiplier to the power `attempt - 1`, held
/// at the largest `u64`.
pub open spec fn backoff_delay(policy: RetryPolicy, attempt: nat) -> nat
    recommends
        attempt >= 1,
{
    let delay = policy.initial_interval_ms as nat * capped_power(
        policy.multiplier as nat,
        (attempt - 1) as nat,
    );
    if delay > u64::MAX {
        u64::MAX as nat
    } else {
        delay
    }
}

/// Computes the delay after the failure of attempt `attempt`.
pub fn delay_after(policy: &RetryPolicy, attempt: u32) -> (delay: u64)
    requires
        attempt >= 1,
    ensures
        delay == backoff_delay(*policy, attempt as nat),
{
    let mut factor: u64 = 1;
    let mut k: u32 = 1;
    while k < attempt
        invariant
            1 <= k <= attempt,
            factor == capped_power(policy.multiplier as nat, (k - 1) as nat),
            factor <= u32::MAX,
        decreases attempt - k,
    {
        assert(factor * (policy.multiplier as u64) <= (u32::MAX as u64) * (u32::MAX as u64))
            by (nonlinear_arith)
            requires
                factor <= u32::MAX,
                policy.multiplier <= u32::MAX,
        ;
        let product: u64 = factor * (policy.multiplier as u64);
        factor = if product > 0xffff_ffff {
            0xffff_ffff
        } else {
            product
        };
        k += 1;
    }
    assert((policy.initial_interval_ms as nat) * (factor as nat) <= (u64::MAX as nat) * (
    u32::MAX as nat)) by (nonlinear_arith)
        requires
            factor <= u32::MAX,
            policy.initial_interval_ms <= u64::MAX,
    ;
    let wide: u128 = (policy.initial_interval_ms as u128) * (factor as u128);
    if wide > 0xffff_ffff_ffff_ffff {
        0xffff_ffff_ffff_ffff
    } else {
        wide as u64
    }
}

impl RetryState {
    /// The state before the first attempt.
    pub fn new() -> (state: RetryState)
        ensures
            state.failed_attempts == 0,
    {
        RetryState { failed_attempts: 0 }
    }
}

/// The number of failed attempts after one more failure; it is not counted
/// beyond `MAX_ATTEMPTS`.
pub open spec fn failed_after(failed_attempts: u32) -> u32 {
    if failed_attempts < MAX_ATTEMPTS {
        (failed_attempts + 1) as u32
    } else {
        failed_attempts
    }
}

/// Decides what follows an attempt.
///
/// A value is handed to the caller. After a failure the operation is tried
/// again, after the delay of the policy, unless `MAX_ATTEMPTS` attempts
/// have failed by then: the error of the last attempt is then handed to
/// the caller as it is.
pub fn decide<T, E>(policy: &RetryPolicy, state: &mut RetryState, outcome: Result<T, E>) -> (r:
    RetryDecision<T, E>)
    ensures
        match outcome {
            Ok(value) => r == RetryDecision::Return(Ok::<T, E>(value)) && *final(state) == *old(
                state,
            ),
            Err(error) => {
                &&& final(state).failed_attempts == failed_after(old(state).failed_attempts)
                &&& if failed_after(old(state).failed_attempts) >= MAX_ATTEMPTS {
                    r == RetryDecision::Return(Err::<T, E>(error))
                } else {
                    r == RetryDecision::<T, E>::RetryAfter(
                        backoff_delay(
                            *policy,
                            failed_after(old(state).failed_attempts) as nat,
                        ) as u64,
                    )
                }
            },
        },
{
    match outcome {
        Ok(value) => RetryDecision::Return(Ok(value)),
        Err(error) => {
            if state.failed_attempts < MAX_ATTEMPTS {
                state.failed_attempts = state.failed_attempts + 1;
            }
            if state.failed_attempts >= MAX_ATTEMPTS {
                RetryDecision::Return(Err(error))
            } else {
                RetryDecision::RetryAfter(delay_after(policy, state.failed_attempts))
            }
        },
    }
}

/// An operation is tried at most `MAX_ATTEMPTS` times: whatever has failed
/// before, after so many further failures none is retried.
pub proof fn lemma_attempts_are_bounded(failed_attempts: u32)
    ensures
        failed_after(failed_after(failed_after(failed_attempts))) >= MAX_ATTEMPTS,
        failed_attempts == 0 ==> failed_after(failed_attempts) < MAX_ATTEMPTS && failed_after(
            failed_after(failed_attempts),
        ) < MAX_ATTEMPTS,
{
}

} // verus!

//! The connection accessor's retry policy.
//!
//! Acquiring a pooled connection is retried up to a fixed budget with a
//! fixed delay between attempts — no jitter, no exponential backoff. The
//! policy is a small state machine; the I/O loop that drives it against the
//! live pool performs each attempt and sleep, and feeds the outcome back in.

use vstd::prelude::*;
use crate::errors::RepoError;

verus! {

/// Number of acquisition attempts before the accessor gives up.
pub const RETRY_LIMIT: usize = 5;

/// Seconds slept after each failed acquisition attempt.
pub const RETRY_DELAY_SECS: u64 = 3;

/// Where the accessor stands; `Attempting(n)` is about to make attempt `n`
/// (1-based).
#[derive(Clone, Copy, Debug, PartialEq, Eq, Structural)]
pub enum AcquireState {
    Attempting(usize),
    Acquired,
    Exhausted,
}

/// The outcome of one attempt against the pool.
#[derive(Clone, Copy, Debug, PartialEq, Eq, Structural)]
pub enum AcquireEvent {
    Success,
    Failure,
}

/// What the driving loop must do after a step: use the fresh connection, or
/// sleep for the given seconds and then consult the new state — attempt
/// again from `Attempting`, give up from `Exhausted`.
#[derive(Clone, Copy, Debug, PartialEq, Eq, Structural)]
pub enum AcquireAction {
    UseConnection,
    Backoff(u64),
}

/// A state the accessor can actually reach.
pub open spec fn state_wf(s: AcquireState) -> bool {
    s matches AcquireState::Attempting(n) ==> 1 <= n <= RETRY_LIMIT
}

/// The accessor's transition relation: success acquires; failure backs off,
/// moving to the next attempt while budget remains and to `Exhausted` on
/// the last.
pub open spec fn spec_step(s: AcquireState, e: AcquireEvent) -> (AcquireState, AcquireAction) {
    match (s, e) {
        (AcquireState::Attempting(n), AcquireEvent::Success) => (
            AcquireState::Acquired,
            AcquireAction::UseConnection,
        ),
        (AcquireState::Attempting(n), AcquireEvent::Failure) => if n < RETRY_LIMIT {
            (AcquireState::Attempting((n + 1) as usize), AcquireAction::Backoff(RETRY_DELAY_SECS))
        } else {
            (AcquireState::Exhausted, AcquireAction::Backoff(RETRY_DELAY_SECS))
        },
        _ => (s, AcquireAction::Backoff(RETRY_DELAY_SECS)),
    }
}

/// The state before the first attempt.
pub fn initial_state() -> (r: AcquireState)
    ensures
        r == AcquireState::Attempting(1usize),
        state_wf(r),
{
    AcquireState::Attempting(1)
}

/// One step of the retry state machine.
pub fn step(s: AcquireState, e: AcquireEvent) -> (r: (AcquireState, AcquireAction))
    requires
        state_wf(s),
    ensures
        r == spec_step(s, e),
        state_wf(r.0),
{
    match (s, e) {
        (AcquireState::Attempting(n), AcquireEvent::Success) => (
            AcquireState::Acquired,
            AcquireAction::UseConnection,
        ),
        (AcquireState::Attempting(n), AcquireEvent::Failure) => {
            if n < RETRY_LIMIT {
                (AcquireState::Attempting(n + 1), AcquireAction::Backoff(RETRY_DELAY_SECS))
            } else {
                (AcquireState::Exhausted, AcquireAction::Backoff(RETRY_DELAY_SECS))
            }
        },
        _ => (s, AcquireAction::Backoff(RETRY_DELAY_SECS)),
    }
}

/// What one full acquisition came to.
#[derive(Debug, PartialEq)]
pub struct AcquireRun {
    /// `Ok(k)`: attempt with index `k` (0-based) returned a connection;
    /// `Err(PoolExhausted)`: the whole budget failed.
    pub outcome: Result<usize, RepoError>,
    /// Attempts actually made.
    pub attempts: usize,
    /// Seconds spent sleeping between attempts.
    pub slept_secs: u64,
}

/// Runs the whole acquisition against a recorded sequence of per-attempt
/// outcomes: attempts are made in order until the first success, at most
/// `RETRY_LIMIT` of them, with `RETRY_DELAY_SECS` of sleep after every
/// failure; if the whole budget fails the accessor reports `PoolExhausted`.
pub fn run_acquisition(outcomes: &Vec<AcquireEvent>) -> (r: AcquireRun)
    requires
        outcomes@.len() >= RETRY_LIMIT,
    ensures
        r.attempts <= RETRY_LIMIT,
        r.outcome matches Ok(k) ==> {
            &&& k < RETRY_LIMIT
            &&& r.attempts == k + 1
            &&& outcomes@[k as int] is Success
            &&& (forall|j: int| 0 <= j < k ==> outcomes@[j] is Failure)
            &&& r.slept_secs == k as int * RETRY_DELAY_SECS as int
        },
        r.outcome is Err ==> {
            &&& r.outcome->Err_0 is PoolExhausted
            &&& (forall|j: int| 0 <= j < RETRY_LIMIT ==> outcomes@[j] is Failure)
            &&& r.attempts == RETRY_LIMIT
            &&& r.slept_secs == RETRY_LIMIT as int * RETRY_DELAY_SECS as int
        },
        (exists|j: int| 0 <= j < RETRY_LIMIT && outcomes@[j] is Success) ==> r.outcome is Ok,
{
    let mut slept: u64 = 0;
    let mut i: usize = 0;
    while i < RETRY_LIMIT
        invariant
            outcomes@.len() >= RETRY_LIMIT,
            0 <= i <= RETRY_LIMIT,
            slept == i as int * RETRY_DELAY_SECS as int,
            forall|j: int| 0 <= j < i ==> outcomes@[j] is Failure,
        decreases RETRY_LIMIT - i,
    {
        match outcomes[i] {
            AcquireEvent::Success => {
                return AcquireRun { outcome: Ok(i), attempts: i + 1, slept_secs: slept };
            },
            AcquireEvent::Failure => {
                slept = slept + RETRY_DELAY_SECS;
                i = i + 1;
            },
        }
    }
    AcquireRun {
        outcome: Err(RepoError::PoolExhausted),
        attempts: RETRY_LIMIT,
        slept_secs: slept,
    }
}

} // verus!

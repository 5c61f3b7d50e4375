//! The one-shot failover decision after an upstream call.

use vstd::prelude::*;

verus! {

/// Retries allowed after a retryable failure of one request.
pub const MAX_RETRIES: u32 = 1;

/// Failures after which another account may serve the request.
#[derive(Clone, Copy, Debug, PartialEq, Eq, Structural)]
pub enum RetryableError {
    Timeout,
    ServerError,
    ConnectionReset,
    RateLimited,
}

/// What came of one upstream call.
#[derive(Clone, Copy, Debug, PartialEq, Eq, Structural)]
pub enum UpstreamOutcome {
    Success,
    Retryable(RetryableError),
    /// A failure that another account would not mend (a client error).
    Fatal,
}

/// What the caller does next.
#[derive(Clone, Copy, Debug, PartialEq, Eq, Structural)]
pub enum FailoverAction {
    /// Hand the response to the client.
    Deliver,
    /// Dispatch again, excluding the account that failed.
    RetryExcluding(u64),
    /// Hand the failure to the client.
    Surface,
}

/// Retries already made for the current request.
#[derive(Clone, Copy, Debug, PartialEq, Eq, Structural)]
pub struct FailoverState {
    pub retries: u32,
}

pub open spec fn failover_step(state: FailoverState, account: u64, outcome: UpstreamOutcome) -> (
    FailoverAction,
    FailoverState,
) {
    match outcome {
        UpstreamOutcome::Success => (FailoverAction::Deliver, state),
        UpstreamOutcome::Fatal => (FailoverAction::Surface, state),
        UpstreamOutcome::Retryable(_) => if state.retries < MAX_RETRIES {
            (FailoverAction::RetryExcluding(account), FailoverState { retries: (state.retries + 1) as u32 })
        } else {
            (FailoverAction::Surface, state)
        },
    }
}

impl FailoverState {
    pub fn new() -> (r: Self)
        ensures
            r.retries == 0,
    {
        FailoverState { retries: 0 }
    }
}

/// The error class of an HTTP status from the upstream, if it is retryable:
/// 429 signals a rate limit, any 5xx a server error.
pub fn classify_status(status: u16) -> (r: Option<RetryableError>)
    ensures
        status == 429 ==> r == Some(RetryableError::RateLimited),
        500 <= status <= 599 ==> r == Some(RetryableError::ServerError),
        status != 429 && !(500 <= status <= 599) ==> r is None,
{
    if status == 429 {
        Some(RetryableError::RateLimited)
    } else if 500 <= status && status <= 599 {
        Some(RetryableError::ServerError)
    } else {
        None
    }
}

/// Decides what follows an upstream call made through `account`.
pub fn next_action(state: &FailoverState, account: u64, outcome: UpstreamOutcome) -> (r: (
    FailoverAction,
    FailoverState,
))
    ensures
        r == failover_step(*state, account, outcome),
{
    match outcome {
        UpstreamOutcome::Success => (FailoverAction::Deliver, *state),
        UpstreamOutcome::Fatal => (FailoverAction::Surface, *state),
        UpstreamOutcome::Retryable(_) => {
            if state.retries < MAX_RETRIES {
                (FailoverAction::RetryExcluding(account), FailoverState { retries: state.retries + 1 })
            } else {
                (FailoverAction::Surface, *state)
            }
        },
    }
}

/// A retryable failure of a fresh request is retried once, on another
/// account; a second retryable failure, on whatever account, is surfaced and
/// not retried again, and so is every later one.
pub proof fn lemma_failover_retries_once(
    first: u64,
    second: u64,
    e1: RetryableError,
    e2: RetryableError,
)
    ensures
        ({
            let (a1, s1) = failover_step(
                FailoverState { retries: 0 },
                first,
                UpstreamOutcome::Retryable(e1),
            );
            let (a2, s2) = failover_step(s1, second, UpstreamOutcome::Retryable(e2));
            &&& a1 == FailoverAction::RetryExcluding(first)
            &&& a2 == FailoverAction::Surface
            &&& forall|acc: u64, e: RetryableError|
                (#[trigger] failover_step(s2, acc, UpstreamOutcome::Retryable(e))).0
                    == FailoverAction::Surface
        }),
{
}

} // verus!

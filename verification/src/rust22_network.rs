//! The decisions of a retrying HTTP client: after each attempt, either the
//! answer is in, or another attempt follows, or the client gives up. The
//! requests and the pauses between them are made by the caller.
use vstd::prelude::*;

verus! {

/// What to do after an attempt.
#[derive(Debug, Clone, Copy, PartialEq, Eq, Structural)]
pub enum RetryDecision {
    /// The request succeeded with this HTTP status: return it.
    Done(u16),
    /// The attempt failed and attempts are left: pause, then try again.
    Retry,
    /// The last allowed attempt failed: report its error.
    GiveUp,
}

/// The decision after attempt number `attempt` (counting from 1) out of
/// `attempts`, given the status it obtained or `None` when it failed.
pub fn retry_decision(attempt: u32, attempts: u32, outcome: Option<u16>) -> (d: RetryDecision)
    requires
        1 <= attempt <= attempts,
    ensures
        outcome matches Some(status) ==> d == RetryDecision::Done(status),
        outcome is None && attempt < attempts ==> d == RetryDecision::Retry,
        outcome is None && attempt == attempts ==> d == RetryDecision::GiveUp,
{
    match outcome {
        Some(status) => RetryDecision::Done(status),
        None => {
            if attempt < attempts {
                RetryDecision::Retry
            } else {
                RetryDecision::GiveUp
            }
        },
    }
}

} // verus!

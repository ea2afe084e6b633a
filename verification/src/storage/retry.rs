//! Retry policy for storage operations: which failures are worth retrying,
//! and whether another attempt is allowed.
//!
//! Waiting between attempts, and the growth of the wait, belong to the
//! program that performs the operations.

use vstd::prelude::*;

use crate::utils::error::ObsFuseError;

verus! {

/// Trait for determining if an error is retryable
pub trait IsRetryable {
    fn is_retryable(&self) -> bool;
}

impl IsRetryable for ObsFuseError {
    /// Rate limiting and unexpected storage failures, and interrupted or
    /// reset connections (see `ObsFuseError::is_retryable`).
    fn is_retryable(&self) -> (r: bool)
        ensures
            r == ObsFuseError::retryable(*self),
    {
        ObsFuseError::is_retryable(self)
    }
}

/// Whether the operation is tried again after failing on attempt number
/// `attempt` (counting from one) with an error that is `retryable`: only
/// retryable errors are, up to `max_retries` retries.
pub open spec fn retry_allowed(attempt: u32, max_retries: u32, retryable: bool) -> bool {
    attempt <= max_retries && retryable
}

/// Count a failed attempt: returns the number of attempts made so far and
/// whether to try again.
pub fn after_failure(attempts: u32, max_retries: u32, retryable: bool) -> (r: (u32, bool))
    requires
        attempts < u32::MAX,
    ensures
        r.0 == attempts + 1,
        r.1 == retry_allowed(r.0, max_retries, retryable),
{
    let attempt = attempts + 1;
    (attempt, !(attempt > max_retries || !retryable))
}

/// How many attempts an operation gets, `attempts` having been made, when
/// its next failures are retryable or not as `rs` says (in order) and it
/// succeeds once they run out: each failure is counted as `after_failure`
/// counts it, and the attempts stop at the first failure not to be retried.
pub open spec fn attempts_made(attempts: nat, max_retries: u32, rs: Seq<bool>) -> nat
    decreases rs.len(),
{
    if rs.len() == 0 {
        attempts + 1
    } else if retry_allowed((attempts + 1) as u32, max_retries, rs[0]) {
        attempts_made(attempts + 1, max_retries, rs.drop_first())
    } else {
        attempts + 1
    }
}

/// An operation is attempted at most `max_retries + 1` times, whatever its
/// failures; and a failure that is not retryable ends it at once.
pub proof fn lemma_attempts_are_bounded(max_retries: u32, rs: Seq<bool>)
    requires
        max_retries < u32::MAX,
    ensures
        1 <= attempts_made(0, max_retries, rs) <= max_retries + 1,
        rs.len() > 0 && !rs[0] ==> attempts_made(0, max_retries, rs) == 1,
{
    lemma_attempts_bounded_from(0, max_retries, rs);
}

proof fn lemma_attempts_bounded_from(attempts: nat, max_retries: u32, rs: Seq<bool>)
    requires
        attempts <= max_retries,
        max_retries < u32::MAX,
    ensures
        attempts + 1 <= attempts_made(attempts, max_retries, rs) <= max_retries + 1,
    decreases rs.len(),
{
    if rs.len() > 0 && retry_allowed((attempts + 1) as u32, max_retries, rs[0]) {
        lemma_attempts_bounded_from(attempts + 1, max_retries, rs.drop_first());
    }
}

} // verus!

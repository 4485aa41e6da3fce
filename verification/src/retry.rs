//! Retry policies: how often a thing is tried, and how long to wait between
//! two tries.

use vstd::prelude::*;

verus! {

/// The number of polls for a reply.
pub const RECV_RETRIES: u8 = 2;

/// The wait after a poll that brought nothing but the flag, in microseconds.
pub const RECV_RETRY_WAIT: u64 = 50_000;

/// The number of times a command is tried.
pub const CMD_RETRIES: u8 = 10;

/// The wait before a command is tried again, in microseconds.
pub const CMD_RETRY_WAIT: u64 = 100_000;

/// The number of times the two phases of a signature are tried.
pub const SIGN_RETRIES: u8 = 4;

/// A bound on attempts, with the wait that follows a failed one.
#[derive(Clone, Copy, Debug, PartialEq, Eq)]
pub struct RetryPolicy {
    /// The number of attempts allowed.
    pub max_attempts: u8,
    /// The wait after a failed attempt, in microseconds.
    pub delay: u64,
}

impl RetryPolicy {
    /// Whether another attempt may follow the one numbered `attempt`, the
    /// first being number 0.
    pub open spec fn allows_after_spec(self, attempt: u8) -> bool {
        attempt + 1 < self.max_attempts
    }

    /// The policy for polling for a reply.
    pub open spec fn receive_spec() -> RetryPolicy {
        RetryPolicy { max_attempts: RECV_RETRIES, delay: RECV_RETRY_WAIT }
    }

    /// The policy for polling for a reply.
    pub fn receive() -> (policy: RetryPolicy)
        ensures
            policy == RetryPolicy::receive_spec(),
    {
        RetryPolicy { max_attempts: RECV_RETRIES, delay: RECV_RETRY_WAIT }
    }

    /// The policy for a command that is tried `retries` times.
    pub open spec fn command_spec(retries: u8) -> RetryPolicy {
        RetryPolicy { max_attempts: retries, delay: CMD_RETRY_WAIT }
    }

    /// The policy for a command that is tried `retries` times.
    pub fn command(retries: u8) -> (policy: RetryPolicy)
        ensures
            policy == RetryPolicy::command_spec(retries),
    {
        RetryPolicy { max_attempts: retries, delay: CMD_RETRY_WAIT }
    }

    /// The policy for the two phases of a signature: no wait, since the device
    /// is put to sleep between two tries.
    pub open spec fn signing_spec() -> RetryPolicy {
        RetryPolicy { max_attempts: SIGN_RETRIES, delay: 0 }
    }

    /// The policy for the two phases of a signature: no wait, since the device
    /// is put to sleep between two tries.
    pub fn signing() -> (policy: RetryPolicy)
        ensures
            policy == RetryPolicy::signing_spec(),
    {
        RetryPolicy { max_attempts: SIGN_RETRIES, delay: 0 }
    }

    /// Whether another attempt may follow the one numbered `attempt`, the
    /// first being number 0.
    pub fn allows_after(&self, attempt: u8) -> (more: bool)
        ensures
            more == self.allows_after_spec(attempt),
    {
        attempt < u8::MAX && attempt + 1 < self.max_attempts
    }
}

} // verus!

//! When a client gives up connecting to a server: each failed attempt, a
//! refusal or a timeout, counts against a limit of attempts.

use vstd::prelude::*;

verus! {

/// What comes after a failed connection attempt.
#[derive(Clone, Copy, Debug, PartialEq, Eq, Structural)]
pub enum RetryDecision {
    /// Wait, then make attempt number `attempt + 1`.
    Retry { attempt: u32 },
    /// Stop: the limit is reached. `timed_out` tells whether the last
    /// attempt timed out rather than failed.
    GiveUp { timed_out: bool },
}

/// The decision after a failure that makes `failures` failures in all.
pub open spec fn decision_after(failures: nat, limit: u32, timed_out: bool) -> RetryDecision {
    if failures >= limit {
        RetryDecision::GiveUp { timed_out }
    } else {
        RetryDecision::Retry { attempt: failures as u32 }
    }
}

/// The count of failed attempts to connect, and how many are allowed.
pub struct ConnectRetry {
    pub attempts: u32,
    pub limit: u32,
}

impl ConnectRetry {
    /// No failure yet, with `limit` failures allowed before giving up.
    pub fn new(limit: u32) -> (r: Self)
        ensures
            r.attempts == 0,
            r.limit == limit,
    {
        ConnectRetry { attempts: 0, limit }
    }

    /// Counts one failed attempt and says whether to try again.
    pub fn on_failure(&mut self, timed_out: bool) -> (r: RetryDecision)
        requires
            old(self).attempts < u32::MAX,
        ensures
            final(self).attempts == old(self).attempts + 1,
            final(self).limit == old(self).limit,
            r == decision_after(final(self).attempts as nat, final(self).limit, timed_out),
    {
        self.attempts = self.attempts + 1;
        if self.attempts >= self.limit {
            RetryDecision::GiveUp { timed_out }
        } else {
            RetryDecision::Retry { attempt: self.attempts }
        }
    }
}

} // verus!

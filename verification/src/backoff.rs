//! The retry schedule for a push that a full queue turned down.

use vstd::prelude::*;

verus! {

/// How often a rejected push is tried again before the batch gives up.
pub const RETRY_LIMIT: u8 = 6;

/// The pause after the first failed retry, in milliseconds.
pub const INITIAL_DELAY_MS: u64 = 50;

/// The pause after the failed retry number `attempt` (counted from zero), in
/// milliseconds: it doubles with every failure.
pub open spec fn retry_delay_ms(attempt: nat) -> nat
    decreases attempt,
{
    if attempt == 0 {
        INITIAL_DELAY_MS as nat
    } else {
        2 * retry_delay_ms((attempt - 1) as nat)
    }
}

/// The pauses of the first `attempts` failed retries, added up.
pub open spec fn retry_window_ms(attempts: nat) -> nat
    decreases attempts,
{
    if attempts == 0 {
        0
    } else {
        retry_window_ms((attempts - 1) as nat) + retry_delay_ms((attempts - 1) as nat)
    }
}

/// The pauses are 50, 100, 200, 400, 800 and 1600 ms.
pub proof fn lemma_retry_delays()
    ensures
        retry_delay_ms(0) == 50,
        retry_delay_ms(1) == 100,
        retry_delay_ms(2) == 200,
        retry_delay_ms(3) == 400,
        retry_delay_ms(4) == 800,
        retry_delay_ms(5) == 1600,
{
    reveal_with_fuel(retry_delay_ms, 7);
}

/// A push that keeps failing is given up after 3150 ms of pauses in all.
pub proof fn lemma_retry_window()
    ensures
        retry_window_ms(RETRY_LIMIT as nat) == 3150,
{
    lemma_retry_delays();
    reveal_with_fuel(retry_window_ms, 7);
}

/// Where one item stands in its retry schedule.
#[derive(Debug, Clone, Copy, PartialEq, Eq)]
pub struct Backoff {
    attempts: u8,
    delay_ms: u64,
}

impl Backoff {
    /// The number of retries that have failed.
    pub closed spec fn spec_attempts(&self) -> u8 {
        self.attempts
    }

    /// The next pause is the one the schedule gives for this many failures.
    pub closed spec fn wf(&self) -> bool {
        &&& self.attempts <= RETRY_LIMIT
        &&& self.delay_ms == retry_delay_ms(self.attempts as nat)
    }

    /// The schedule of an item that has not been retried yet.
    pub fn new() -> (backoff: Self)
        ensures
            backoff.wf(),
            backoff.spec_attempts() == 0,
    {
        Backoff { attempts: 0, delay_ms: INITIAL_DELAY_MS }
    }

    /// The number of retries that have failed.
    #[verifier::when_used_as_spec(spec_attempts)]
    pub fn attempts(&self) -> (attempts: u8)
        ensures
            attempts == self.spec_attempts(),
    {
        self.attempts
    }

    /// Whether every retry has been used up.
    pub fn exhausted(&self) -> (exhausted: bool)
        ensures
            exhausted == (self.spec_attempts() >= RETRY_LIMIT),
    {
        self.attempts >= RETRY_LIMIT
    }

    /// Records one more failed retry and returns the pause to take before
    /// anything else is tried. Once every retry is used up nothing is
    /// recorded and no pause is due.
    pub fn fail(&mut self) -> (delay_ms: Option<u64>)
        requires
            old(self).wf(),
        ensures
            final(self).wf(),
            old(self).spec_attempts() < RETRY_LIMIT ==> {
                &&& final(self).spec_attempts() == old(self).spec_attempts() + 1
                &&& delay_ms == Some(retry_delay_ms(old(self).spec_attempts() as nat) as u64)
            },
            old(self).spec_attempts() >= RETRY_LIMIT ==> {
                &&& final(self).spec_attempts() == old(self).spec_attempts()
                &&& delay_ms is None
            },
    {
        if self.attempts >= RETRY_LIMIT {
            return None;
        }
        proof {
            lemma_retry_delays();
            reveal_with_fuel(retry_delay_ms, 2);
        }
        let delay_ms = self.delay_ms;
        self.attempts = self.attempts + 1;
        self.delay_ms = delay_ms * 2;
        Some(delay_ms)
    }
}

} // verus!

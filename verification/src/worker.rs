//! How the workers wait between two attempts at a session.

use vstd::prelude::*;

verus! {

/// Shortest wait between two sessions, in seconds.
pub const FIRST_WAIT_SECS: u64 = 1;

/// Longest wait between two sessions, in seconds.
pub const LONGEST_WAIT_SECS: u64 = 30;

/// Doubles the wait with every session that fails, up to a limit.
pub struct Backoff {
    pub secs: u64,
}

/// Twice the wait, but not more than the limit.
pub open spec fn longer(secs: int) -> int {
    if secs * 2 < LONGEST_WAIT_SECS {
        secs * 2
    } else {
        LONGEST_WAIT_SECS as int
    }
}

/// The wait after `failures` sessions in a row have failed.
pub open spec fn wait_after(failures: nat) -> int
    decreases failures,
{
    if failures == 0 {
        FIRST_WAIT_SECS as int
    } else {
        longer(wait_after((failures - 1) as nat))
    }
}

impl Backoff {
    /// The wait lies between the shortest and the longest one.
    pub open spec fn wf(self) -> bool {
        FIRST_WAIT_SECS <= self.secs <= LONGEST_WAIT_SECS
    }

    /// Nothing has failed yet.
    pub fn new() -> (backoff: Backoff)
        ensures
            backoff.wf(),
            backoff.secs == wait_after(0),
    {
        Backoff { secs: FIRST_WAIT_SECS }
    }

    /// A session is over: it was asked to stop (`Ok(true)`), it came to its end
    /// (`Ok(false)`) or it failed. Gives the wait before the next one in seconds, or
    /// `None` if there is to be no next one.
    pub fn session_over(&mut self, outcome: &Result<bool, String>) -> (wait: Option<u64>)
        requires
            old(self).wf(),
        ensures
            final(self).wf(),
            match outcome {
                Ok(true) => wait is None && final(self).secs == old(self).secs,
                Ok(false) => wait == Some(final(self).secs) && final(self).secs == wait_after(0),
                Err(_) => wait == Some(final(self).secs) && final(self).secs == longer(
                    old(self).secs as int,
                ),
            },
    {
        match outcome {
            Ok(true) => None,
            Ok(false) => {
                self.secs = FIRST_WAIT_SECS;
                Some(self.secs)
            },
            Err(_) => {
                let twice: u64 = self.secs * 2;
                self.secs = if twice < LONGEST_WAIT_SECS {
                    twice
                } else {
                    LONGEST_WAIT_SECS
                };
                Some(self.secs)
            },
        }
    }
}

/// After `n` failures in a row the wait is two to the power of `n` seconds, but not
/// more than thirty.
pub proof fn law_wait_doubles(n: nat)
    ensures
        n < 5 ==> wait_after(n) == vstd::arithmetic::power2::pow2(n),
        n >= 5 ==> wait_after(n) == 30,
    decreases n,
{
    vstd::arithmetic::power2::lemma2_to64();
    if n > 0 {
        law_wait_doubles((n - 1) as nat);
        vstd::arithmetic::power2::lemma_pow2_unfold(n);
        reveal_with_fuel(wait_after, 6);
    }
}

/// After a failure the wait is twice as long as before it, or thirty seconds if that is
/// less; it never shrinks by a failure.
pub proof fn law_failure_lengthens_the_wait(secs: int)
    requires
        1 <= secs <= 30,
    ensures
        secs <= 15 ==> longer(secs) == secs + secs,
        secs >= 15 ==> longer(secs) == 30,
        secs <= longer(secs) <= 30,
        wait_after(0) == 1,
{
}

} // verus!

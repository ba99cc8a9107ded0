//! When a sender tries again, and when it gives up.
use vstd::prelude::*;
use crate::abi::{
    LENNY_REASON_LINK_LOST, LENNY_REASON_PAIR_DENIED, LENNY_REASON_ROLE, LENNY_REASON_USER,
    LENNY_REASON_VERSION,
};

verus! {

/// How long to wait before the next attempt.
pub open spec fn backoff_ms(attempt: nat) -> u64 {
    if attempt == 0 {
        250
    } else if attempt == 1 {
        500
    } else if attempt == 2 {
        1000
    } else {
        2000
    }
}

/// Reasons after which trying again is no use.
pub open spec fn fatal(reason: i32) -> bool {
    reason == LENNY_REASON_VERSION || reason == LENNY_REASON_ROLE || reason
        == LENNY_REASON_PAIR_DENIED || reason == LENNY_REASON_USER
}

pub fn fatal_for_sender(reason: i32) -> (r: bool)
    ensures
        r == fatal(reason),
{
    reason == LENNY_REASON_VERSION || reason == LENNY_REASON_ROLE || reason
        == LENNY_REASON_PAIR_DENIED || reason == LENNY_REASON_USER
}

/// How an attempt to connect ended.
#[derive(Clone, Copy, Debug, PartialEq, Eq, Structural)]
pub enum Outcome {
    /// There was no connection.
    Unreachable,
    /// There was one, which ended for this reason. It got to streaming, or not.
    Ended { reason: i32, streamed: bool },
}

/// What to do after an attempt.
#[derive(Clone, Copy, Debug, PartialEq, Eq, Structural)]
pub enum Next {
    /// Give up, for this reason.
    Close(i32),
    /// Report the reason, wait, and try again.
    Retry { reason: i32, wait_ms: u64 },
}

/// The attempts of a sender.
#[derive(Clone, Copy, Debug, PartialEq, Eq, Structural)]
pub struct Attempts {
    /// How many came to nothing in a row. Only the first few make a difference.
    pub failed: u32,
}

pub open spec fn outcome_reason(o: Outcome) -> i32 {
    match o {
        Outcome::Unreachable => LENNY_REASON_LINK_LOST,
        Outcome::Ended { reason, .. } => reason,
    }
}

/// How many attempts have failed before the wait that follows this one: a link that got to
/// streaming starts the count over.
pub open spec fn failed_before(failed: u32, o: Outcome) -> u32 {
    match o {
        Outcome::Ended { streamed: true, .. } => 0,
        _ => failed,
    }
}

pub open spec fn next_of(failed: u32, o: Outcome, stopped: bool) -> Next {
    if stopped {
        Next::Close(LENNY_REASON_USER)
    } else if o is Ended && fatal(outcome_reason(o)) {
        Next::Close(outcome_reason(o))
    } else {
        Next::Retry {
            reason: outcome_reason(o),
            wait_ms: backoff_ms(failed_before(failed, o) as nat),
        }
    }
}

impl Attempts {
    pub fn new() -> (r: Attempts)
        ensures
            r.failed == 0,
    {
        Attempts { failed: 0 }
    }

    /// What to do after an attempt. `stopped`: the session was told to stop.
    pub fn after(&mut self, o: Outcome, stopped: bool) -> (r: Next)
        ensures
            r == next_of(old(self).failed, o, stopped),
            final(self).failed == (if r is Close {
                failed_before(old(self).failed, o) as int
            } else if failed_before(old(self).failed, o) >= 3 {
                3
            } else {
                failed_before(old(self).failed, o) + 1
            }),
    {
        let mut reason: i32 = LENNY_REASON_LINK_LOST;
        if let Outcome::Ended { reason: why, streamed } = o {
            reason = why;
            if streamed {
                self.failed = 0;
            }
            if fatal_for_sender(why) && !stopped {
                return Next::Close(why);
            }
        }
        if stopped {
            return Next::Close(LENNY_REASON_USER);
        }
        let wait_ms: u64 = if self.failed == 0 {
            250
        } else if self.failed == 1 {
            500
        } else if self.failed == 2 {
            1000
        } else {
            2000
        };
        self.failed = if self.failed >= 3 {
            3
        } else {
            self.failed + 1
        };
        Next::Retry { reason, wait_ms }
    }
}

/// The wait never gets shorter while attempts fail, and never longer than two seconds.
pub proof fn law_waits_grow_to_two_seconds(a: nat, b: nat)
    requires
        a <= b,
    ensures
        250 <= backoff_ms(a) <= backoff_ms(b) <= 2000,
        b >= 3 ==> backoff_ms(b) == 2000,
{
}

/// A sender gives up only when it is stopped or a reason makes trying again no use.
pub proof fn law_only_fatal_reasons_end_retrying(failed: u32, o: Outcome, stopped: bool)
    ensures
        next_of(failed, o, stopped) is Close <==> stopped || (o is Ended && fatal(
            outcome_reason(o),
        )),
{
}

/// A sender that is stopped closes for the user (7). Else it gives up after a link that ended for another version (1),
/// the same role (2), a denial (3) or the user (7), for that reason, and tries again after any other, and where there
/// was no connection (100): after 250, 500, 1000 and then 2000 ms, beginning anew after a link that streamed.
pub proof fn law_when_a_sender_tries_again(failed: u32, o: Outcome, stopped: bool)
    ensures
        ({
            let next = next_of(failed, o, stopped);
            let streamed = o matches Outcome::Ended { streamed: true, .. };
            let n = if streamed {
                0
            } else {
                failed
            };
            let wait = if n == 0 {
                250
            } else if n == 1 {
                500
            } else if n == 2 {
                1000
            } else {
                2000u64
            };
            &&& stopped ==> next == Next::Close(7)
            &&& !stopped && o is Unreachable ==> next == (Next::Retry { reason: 100, wait_ms: wait })
            &&& !stopped ==> (o matches Outcome::Ended { reason, .. } ==> next == (if 1 <= reason <= 3 || reason == 7 {
                Next::Close(reason)
            } else {
                Next::Retry { reason, wait_ms: wait }
            }))
        }),
{
}

} // verus!

//! One fetch: a request that is repeated, after a fixed delay, for as long as its attempts end
//! in a transient way.

use crate::trusted::{
    error_from_connect, error_is_connect, error_is_timeout, error_timed_out, status_number,
    status_value,
};
use reqwest::StatusCode;
use vstd::prelude::*;

verus! {

/// The delay before a request is repeated, in milliseconds.
pub const RETRY_DELAY_MS: u64 = 1000;

/// The status by which a server says that requests come too fast.
pub const RATE_LIMITED: u16 = 429;

/// How one attempt at a request ended.
#[derive(Clone, Copy, Debug, PartialEq, Eq, Structural)]
pub enum Outcome {
    /// A response arrived, with this status.
    Status(u16),
    /// No response arrived. The flags tell whether the failure is related to a timeout and
    /// whether it is related to connecting.
    Transport { timeout: bool, connect: bool },
}

/// Why a request is repeated.
#[derive(Clone, Copy, Debug, PartialEq, Eq, Structural)]
pub enum RetryReason {
    /// The server answered with `RATE_LIMITED`.
    RateLimited,
    /// The request timed out, or no connection was made.
    Unreachable,
}

/// What to do after an attempt.
#[derive(Clone, Copy, Debug, PartialEq, Eq, Structural)]
pub enum Decision {
    /// Wait `delay_ms` milliseconds and send the same request again. `attempt` counts the
    /// repetitions of this fetch, this one included, as far as the count goes.
    Retry { attempt: u32, delay_ms: u64, reason: RetryReason },
    /// The fetch is over, and this is its status.
    Done { status: u16 },
    /// The fetch has failed for good.
    Fail,
}

/// The state of one fetch.
#[derive(Clone, Copy, Debug, PartialEq, Eq, Structural)]
pub struct RetryState {
    /// How often the request has been repeated. The count stops at the largest number that
    /// it can hold; the repetitions do not.
    pub retry_count: u32,
    /// The delay before each repetition, in milliseconds.
    pub retry_delay_ms: u64,
}

/// The count after one more repetition: one more, unless the count stands at the largest
/// number that it can hold, where it stays.
pub open spec fn count_up(count: nat) -> nat {
    if count < u32::MAX {
        count + 1
    } else {
        count
    }
}

impl Outcome {
    /// Whether waiting may help: the server limits the rate, the request timed out, or no
    /// connection was made.
    pub open spec fn is_transient(self) -> bool {
        match self {
            Outcome::Status(status) => status == RATE_LIMITED,
            Outcome::Transport { timeout, connect } => timeout || connect,
        }
    }

    /// Why a request that ended in this transient way is repeated.
    pub open spec fn retry_reason(self) -> RetryReason {
        match self {
            Outcome::Status(_) => RetryReason::RateLimited,
            Outcome::Transport { .. } => RetryReason::Unreachable,
        }
    }

    /// The outcome of an attempt that was answered with `status`.
    pub fn from_status(status: &StatusCode) -> (outcome: Outcome)
        ensures
            outcome == Outcome::Status(status_value(*status)),
    {
        Outcome::Status(status_number(status))
    }

    /// The outcome of an attempt that failed with `error`.
    pub fn from_error(error: &reqwest::Error) -> (outcome: Outcome)
        ensures
            outcome == (Outcome::Transport {
                timeout: error_timed_out(*error),
                connect: error_from_connect(*error),
            }),
    {
        Outcome::Transport { timeout: error_is_timeout(error), connect: error_is_connect(error) }
    }

    /// Whether waiting may help.
    pub fn transient(&self) -> (transient: bool)
        ensures
            transient == self.is_transient(),
    {
        match self {
            Outcome::Status(status) => *status == RATE_LIMITED,
            Outcome::Transport { timeout, connect } => *timeout || *connect,
        }
    }
}

impl RetryState {
    /// The state in which every fetch begins.
    pub open spec fn fresh() -> RetryState {
        RetryState { retry_count: 0, retry_delay_ms: RETRY_DELAY_MS }
    }

    /// The state after an attempt that ended in `outcome`: a transient outcome counts as one
    /// more repetition, any other leaves the state as it is.
    pub open spec fn after(self, outcome: Outcome) -> RetryState {
        if outcome.is_transient() {
            RetryState { retry_count: count_up(self.retry_count as nat) as u32, ..self }
        } else {
            self
        }
    }

    /// What to do after an attempt that ended in `outcome`: repeat the request after a
    /// transient outcome, end with any other status, and fail for good after any other
    /// failure.
    pub open spec fn decision(self, outcome: Outcome) -> Decision {
        if outcome.is_transient() {
            Decision::Retry {
                attempt: count_up(self.retry_count as nat) as u32,
                delay_ms: self.retry_delay_ms,
                reason: outcome.retry_reason(),
            }
        } else {
            match outcome {
                Outcome::Status(status) => Decision::Done { status },
                Outcome::Transport { .. } => Decision::Fail,
            }
        }
    }

    /// The state in which every fetch begins: nothing repeated yet, and the fixed delay.
    pub fn new() -> (state: RetryState)
        ensures
            state == RetryState::fresh(),
    {
        RetryState { retry_count: 0, retry_delay_ms: RETRY_DELAY_MS }
    }

    /// Counts one more repetition.
    fn count_retry(&mut self)
        ensures
            final(self).retry_count == count_up(old(self).retry_count as nat),
            final(self).retry_delay_ms == old(self).retry_delay_ms,
    {
        if self.retry_count < u32::MAX {
            self.retry_count = self.retry_count + 1;
        }
    }

    /// Takes in how an attempt ended, and says what to do next. There is no number of
    /// repetitions after which a transient outcome is not repeated.
    pub fn on_outcome(&mut self, outcome: Outcome) -> (decision: Decision)
        ensures
            *final(self) == old(self).after(outcome),
            decision == old(self).decision(outcome),
    {
        match outcome {
            Outcome::Status(status) => {
                if status == RATE_LIMITED {
                    self.count_retry();
                    Decision::Retry {
                        attempt: self.retry_count,
                        delay_ms: self.retry_delay_ms,
                        reason: RetryReason::RateLimited,
                    }
                } else {
                    Decision::Done { status }
                }
            },
            Outcome::Transport { timeout, connect } => {
                if timeout || connect {
                    self.count_retry();
                    Decision::Retry {
                        attempt: self.retry_count,
                        delay_ms: self.retry_delay_ms,
                        reason: RetryReason::Unreachable,
                    }
                } else {
                    Decision::Fail
                }
            },
        }
    }
}

/// The state of a fetch whose attempts so far ended in `outcomes`, in that order.
pub open spec fn state_after(outcomes: Seq<Outcome>) -> RetryState
    decreases outcomes.len(),
{
    if outcomes.len() == 0 {
        RetryState::fresh()
    } else {
        state_after(outcomes.drop_last()).after(outcomes.last())
    }
}

/// The count after `more` repetitions of a fetch: their number, as far as the count goes.
pub open spec fn counted(more: nat) -> nat {
    if more < u32::MAX {
        more
    } else {
        u32::MAX as nat
    }
}

/// A fetch repeats its request once for each transient outcome, however many there are, and
/// always after the same delay: after any number of transient outcomes the count stands at
/// their number, as far as it goes, and the delay is the fixed one.
pub proof fn lemma_one_retry_per_transient_outcome(outcomes: Seq<Outcome>)
    requires
        forall|i: int| 0 <= i < outcomes.len() ==> (#[trigger] outcomes[i]).is_transient(),
    ensures
        state_after(outcomes).retry_count == counted(outcomes.len()),
        state_after(outcomes).retry_delay_ms == RETRY_DELAY_MS,
    decreases outcomes.len(),
{
    if outcomes.len() > 0 {
        let before = outcomes.drop_last();
        assert forall|i: int| 0 <= i < before.len() implies (
        #[trigger] before[i]).is_transient() by {
            assert(before[i] == outcomes[i]);
        }
        lemma_one_retry_per_transient_outcome(before);
        assert(outcomes.last() == outcomes[outcomes.len() - 1]);
    }
}

/// A fetch lasts until the first outcome that is not transient, however late it comes. After
/// any number of attempts that all ended in a transient way, an attempt that ends in another
/// status ends the fetch with that status, one that fails in another way makes the fetch
/// fail, and one that is transient again is repeated like those before it, after the fixed
/// delay.
pub proof fn lemma_fetch_ends_with_first_lasting_outcome(outcomes: Seq<Outcome>, next: Outcome)
    requires
        forall|i: int| 0 <= i < outcomes.len() ==> (#[trigger] outcomes[i]).is_transient(),
    ensures
        state_after(outcomes).decision(next) == if next.is_transient() {
            Decision::Retry {
                attempt: counted(outcomes.len() + 1) as u32,
                delay_ms: RETRY_DELAY_MS,
                reason: next.retry_reason(),
            }
        } else {
            match next {
                Outcome::Status(status) => Decision::Done { status },
                Outcome::Transport { .. } => Decision::Fail,
            }
        },
        !next.is_transient() ==> state_after(outcomes.push(next)) == state_after(outcomes),
{
    lemma_one_retry_per_transient_outcome(outcomes);
    assert(outcomes.push(next).drop_last() =~= outcomes);
}

} // verus!

//! Accepting an invitation: retries with a doubling delay, abandoned once
//! the delay would pass a ceiling.

use vstd::prelude::*;

verus! {

/// The delay after the first failed attempt.
pub const INITIAL_JOIN_DELAY: u64 = 2;

/// The largest delay that is still waited out before another attempt.
pub const MAX_JOIN_DELAY: u64 = 3600;

/// Where accepting an invitation stands.
#[derive(Clone, Copy, Debug, PartialEq, Eq, Structural)]
pub enum JoinState {
    /// The next attempt, if it fails, waits `delay` time units.
    Pending { delay: u64 },
    Joined,
    Abandoned,
}

/// The state after an attempt, and how long to wait before the next one.
#[derive(Clone, Copy, Debug, PartialEq, Eq, Structural)]
pub struct JoinStep {
    pub next: JoinState,
    pub wait: u64,
}

/// The first state: nothing tried yet.
pub fn join_start() -> (r: JoinState)
    ensures
        r == (JoinState::Pending { delay: INITIAL_JOIN_DELAY }),
{
    JoinState::Pending { delay: INITIAL_JOIN_DELAY }
}

pub open spec fn join_step_of(state: JoinState, accepted: bool) -> JoinStep {
    match state {
        JoinState::Pending { delay } => if accepted {
            JoinStep { next: JoinState::Joined, wait: 0 }
        } else if delay > MAX_JOIN_DELAY {
            JoinStep { next: JoinState::Abandoned, wait: 0 }
        } else {
            JoinStep { next: JoinState::Pending { delay: (2 * delay) as u64 }, wait: delay }
        },
        _ => JoinStep { next: state, wait: 0 },
    }
}

/// Advances after an attempt that succeeded (`accepted`) or failed. After a
/// failed attempt whose delay is within the ceiling, the delay is waited out
/// and the next attempt gets twice that delay; once the delay exceeds the
/// ceiling the invitation is abandoned at once. Joined and abandoned are
/// final.
pub fn join_step(state: JoinState, accepted: bool) -> (r: JoinStep)
    ensures
        r == join_step_of(state, accepted),
{
    match state {
        JoinState::Pending { delay } => if accepted {
            JoinStep { next: JoinState::Joined, wait: 0 }
        } else if delay > MAX_JOIN_DELAY {
            JoinStep { next: JoinState::Abandoned, wait: 0 }
        } else {
            JoinStep { next: JoinState::Pending { delay: 2 * delay }, wait: delay }
        },
        _ => JoinStep { next: state, wait: 0 },
    }
}

} // verus!

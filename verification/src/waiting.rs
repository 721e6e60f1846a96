//! How long a caller waits: first for a policy UI to appear, then for a decision.

use vstd::prelude::*;

verus! {

/// The longest wait for a policy UI, in nanoseconds.
pub const UI_WAIT_LIMIT: u64 = 60_000_000_000;

/// How long to sleep between two looks for a policy UI, in nanoseconds.
pub const POLL_INTERVAL: u64 = 50_000_000;

/// What a caller waits for, and until when.
#[derive(Clone, Copy, Debug, PartialEq, Eq, Structural)]
pub enum WaitPhase {
    /// A policy UI.
    ForUi { deadline: u64 },
    /// A decision.
    ForVerdict { deadline: u64 },
}

/// What a look at the clock and at the UIs comes to.
#[derive(Clone, Copy, Debug, PartialEq, Eq, Structural)]
pub enum WaitPoll {
    /// Sleep for so long, then look again.
    Sleep(u64),
    /// Wait for the decision for so long.
    Await(u64),
    /// No policy UI appeared in time.
    NoUi,
    /// No decision was made in time.
    TimedOut,
}

/// The time of the wait for a policy UI.
pub open spec fn ui_wait(approval_timeout: u64) -> u64 {
    if approval_timeout < UI_WAIT_LIMIT {
        approval_timeout
    } else {
        UI_WAIT_LIMIT
    }
}

/// Begin to wait.
pub fn begin_wait(now: u64, approval_timeout: u64) -> (r: WaitPhase)
    requires
        now + ui_wait(approval_timeout) <= u64::MAX,
    ensures
        r == (WaitPhase::ForUi { deadline: (now + ui_wait(approval_timeout)) as u64 }),
{
    let wait: u64 = if approval_timeout < UI_WAIT_LIMIT {
        approval_timeout
    } else {
        UI_WAIT_LIMIT
    };
    WaitPhase::ForUi { deadline: now + wait }
}

/// What a look comes to, and what is waited for afterwards.
pub open spec fn looked(phase: WaitPhase, now: u64, has_ui: bool, approval_timeout: u64) -> (
    WaitPoll,
    WaitPhase,
) {
    match phase {
        WaitPhase::ForUi { deadline } => if has_ui {
            (
                WaitPoll::Await(approval_timeout),
                WaitPhase::ForVerdict { deadline: (now + approval_timeout) as u64 },
            )
        } else if now >= deadline {
            (WaitPoll::NoUi, phase)
        } else if deadline - now < POLL_INTERVAL {
            (WaitPoll::Sleep((deadline - now) as u64), phase)
        } else {
            (WaitPoll::Sleep(POLL_INTERVAL), phase)
        },
        WaitPhase::ForVerdict { deadline } => if now >= deadline {
            (WaitPoll::TimedOut, phase)
        } else {
            (WaitPoll::Await((deadline - now) as u64), phase)
        },
    }
}

/// Look at the clock and at the UIs.
pub fn look(phase: WaitPhase, now: u64, has_ui: bool, approval_timeout: u64) -> (r: (
    WaitPoll,
    WaitPhase,
))
    requires
        now + approval_timeout <= u64::MAX,
    ensures
        r == looked(phase, now, has_ui, approval_timeout),
{
    match phase {
        WaitPhase::ForUi { deadline } => {
            if has_ui {
                return (
                    WaitPoll::Await(approval_timeout),
                    WaitPhase::ForVerdict { deadline: now + approval_timeout },
                );
            }
            if now >= deadline {
                return (WaitPoll::NoUi, phase);
            }
            let left: u64 = deadline - now;
            if left < POLL_INTERVAL {
                (WaitPoll::Sleep(left), phase)
            } else {
                (WaitPoll::Sleep(POLL_INTERVAL), phase)
            }
        },
        WaitPhase::ForVerdict { deadline } => {
            if now >= deadline {
                (WaitPoll::TimedOut, phase)
            } else {
                (WaitPoll::Await(deadline - now), phase)
            }
        },
    }
}

/// A sleep is never empty, never longer than the poll interval and never past the deadline.
pub proof fn law_sleep_is_bounded(
    deadline: u64,
    now: u64,
    has_ui: bool,
    approval_timeout: u64,
)
    ensures
        looked(WaitPhase::ForUi { deadline }, now, has_ui, approval_timeout).0 matches WaitPoll::Sleep(
            duration,
        ) ==> 0 < duration <= POLL_INTERVAL && now + duration <= deadline,
{
}

/// A UI that is there ends the wait for one, however late it came.
pub proof fn law_ui_starts_the_verdict_wait(deadline: u64, now: u64, approval_timeout: u64)
    requires
        now + approval_timeout <= u64::MAX,
    ensures
        looked(WaitPhase::ForUi { deadline }, now, true, approval_timeout).1
            == (WaitPhase::ForVerdict { deadline: (now + approval_timeout) as u64 }),
{
}

} // verus!

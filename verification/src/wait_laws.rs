//! What holds of waiting: how long for a policy UI, how long for a decision, and how often the
//! caller looks.

use vstd::prelude::*;

use crate::waiting;
use crate::waiting::WaitPhase;
use crate::waiting::WaitPoll;

verus! {

/// A caller first waits for a UI: for the time that decisions may take, and at most a minute.
pub proof fn law_ui_is_waited_for_a_minute(now: u64, approval_timeout: u64, r: WaitPhase)
    requires
        call_ensures(waiting::begin_wait, (now, approval_timeout), r),
        now + approval_timeout <= u64::MAX,
    ensures
        r is ForUi,
        approval_timeout <= 60_000_000_000 ==> r->ForUi_deadline == now + approval_timeout,
        approval_timeout > 60_000_000_000 ==> r->ForUi_deadline == now + 60_000_000_000,
{
}

/// A caller gives up only when its time is up: without a UI when the wait for one is over, with
/// one when the wait for the decision is. Until then it waits, never past its time and without a
/// UI never longer than a twentieth of a second at once. A UI starts the wait for the decision
/// once, for its whole time.
pub proof fn law_caller_gives_up_only_in_time(
    phase: WaitPhase,
    now: u64,
    has_ui: bool,
    approval_timeout: u64,
    r: (WaitPoll, WaitPhase),
)
    requires
        call_ensures(waiting::look, (phase, now, has_ui, approval_timeout), r),
        now + approval_timeout <= u64::MAX,
    ensures
        r.0 is NoUi <==> phase is ForUi && !has_ui && now >= phase->ForUi_deadline,
        r.0 is TimedOut <==> phase is ForVerdict && now >= phase->ForVerdict_deadline,
        phase is ForUi && has_ui ==> {
            &&& r.0 == WaitPoll::Await(approval_timeout)
            &&& r.1 is ForVerdict
            &&& r.1->ForVerdict_deadline == now + approval_timeout
        },
        phase is ForUi && !has_ui && now < phase->ForUi_deadline ==> {
            &&& r.0 is Sleep
            &&& 0 < r.0->Sleep_0 <= 50_000_000
            &&& now + r.0->Sleep_0 <= phase->ForUi_deadline
            &&& r.1 == phase
        },
        phase is ForVerdict && now < phase->ForVerdict_deadline ==> {
            &&& r.0 is Await
            &&& now + r.0->Await_0 == phase->ForVerdict_deadline
            &&& r.1 == phase
        },
{
}

} // verus!

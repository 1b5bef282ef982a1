//! Finishing the slide of a monitor, and the lock that a slide holds while it runs.
use vstd::prelude::*;

use crate::registry::{SlideState, SlideStateModel};
use crate::settings::AnimationPrefix;

verus! {

/// What names one animation: its kind, and the monitor that it runs on.
#[derive(Clone, Copy, Debug, PartialEq, Eq, Structural)]
pub struct AnimationKey {
    pub prefix: AnimationPrefix,
    pub id: isize,
}

/// What finishing a slide does next.
#[derive(Clone, Copy, Debug, PartialEq, Eq, Structural)]
pub enum SettleSlide {
    /// Find out whether the animation is in progress.
    Check { key: AnimationKey },
    /// Cancel the animation. Whether that works does not matter.
    Cancel { key: AnimationKey },
    /// Wait for the slide lock, no longer than [`crate::registry::SETTLE_WAIT`], and let it go. A
    /// slide leaves the animation manager before it reveals, hides and fades its windows. Without
    /// this wait it would uncloak windows that the next slide just hid.
    Wait,
    Done,
}

/// Start to finish a slide on this monitor before a new layout moves the same windows.
pub fn settle_slide(state: &mut SlideState, monitor_id: isize) -> (r: SettleSlide)
    ensures
        r == (SettleSlide::Check {
            key: AnimationKey { prefix: AnimationPrefix::Workspace, id: monitor_id },
        }),
        final(state)@ == (SlideStateModel {
            settle_requests: old(state)@.settle_requests.wrapping_add(1),
            ..old(state)@
        }),
{
    state.settle_requests = state.settle_requests.wrapping_add(1);
    SettleSlide::Check { key: AnimationKey { prefix: AnimationPrefix::Workspace, id: monitor_id } }
}

impl SettleSlide {
    /// What comes next; `in_progress` is what the check has found.
    pub open spec fn next(self, in_progress: bool) -> SettleSlide {
        match self {
            SettleSlide::Check { key } => if in_progress {
                SettleSlide::Cancel { key }
            } else {
                SettleSlide::Wait
            },
            SettleSlide::Cancel { .. } => SettleSlide::Wait,
            SettleSlide::Wait => SettleSlide::Done,
            SettleSlide::Done => SettleSlide::Done,
        }
    }

    /// Go on. The request is withdrawn when the wait is over.
    pub fn resume(self, state: &mut SlideState, in_progress: bool) -> (r: SettleSlide)
        ensures
            r == self.next(in_progress),
            final(state)@ == if self is Wait {
                SlideStateModel {
                    settle_requests: old(state)@.settle_requests.wrapping_sub(1),
                    ..old(state)@
                }
            } else {
                old(state)@
            },
    {
        match self {
            SettleSlide::Check { key } => if in_progress {
                SettleSlide::Cancel { key }
            } else {
                SettleSlide::Wait
            },
            SettleSlide::Cancel { .. } => SettleSlide::Wait,
            SettleSlide::Wait => {
                state.settle_requests = state.settle_requests.wrapping_sub(1);
                SettleSlide::Done
            },
            SettleSlide::Done => SettleSlide::Done,
        }
    }
}

/// Whether this thread holds the slide lock.
#[derive(Debug, PartialEq, Eq)]
pub struct SlideGuard {
    pub held: bool,
}

/// Hold the slide lock: `true` when the caller has to lock it, `false` when it holds it already.
pub fn hold_slide_lock(guard: &mut SlideGuard) -> (lock: bool)
    ensures
        lock == !old(guard).held,
        final(guard).held,
{
    let lock = !guard.held;
    guard.held = true;
    lock
}

/// Let the slide lock go: `true` when the caller has to unlock it, `false` when it holds none.
pub fn release_slide_lock(guard: &mut SlideGuard) -> (unlock: bool)
    ensures
        unlock == old(guard).held,
        !final(guard).held,
{
    let unlock = guard.held;
    guard.held = false;
    unlock
}

/// A request to settle is withdrawn as often as it is made: after the request and its withdrawal
/// the count is what it was, however many other requests there are.
pub proof fn law_settle_requests_balance(requests: usize)
    ensures
        requests.wrapping_add(1).wrapping_sub(1) == requests,
        requests < usize::MAX ==> requests.wrapping_add(1) > 0,
{
}

/// Finishing a slide always waits for the slide lock, and cancels an animation that is in progress
/// before it does.
pub proof fn law_settle_waits(key: AnimationKey, in_progress: bool, later: bool)
    ensures
        ({
            let checked = SettleSlide::Check { key }.next(in_progress);
            &&& in_progress ==> checked == (SettleSlide::Cancel { key }) && checked.next(later)
                is Wait
            &&& !in_progress ==> checked is Wait
        }),
        SettleSlide::Wait.next(later) is Done,
        SettleSlide::Done.next(later) is Done,
{
}

} // verus!

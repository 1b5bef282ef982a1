//! The ghost owner: how one command becomes a sequence of window-system calls.
//!
//! A task never calls the window system itself. Each step gives the calls to make, whose results do
//! not matter, and one question whose answer decides what comes next.
use vstd::multiset::Multiset;
use vstd::prelude::*;

use crate::geometry::Rect;
use crate::ghost::ThumbnailProperties;

verus! {

/// Hide the window.
pub const HIDE: i32 = 0;

/// Show the window at its size and place, without activating it.
pub const SHOW_NO_ACTIVATE: i32 = 4;

/// Show the window in its state, without activating it.
pub const SHOW_NA: i32 = 8;

/// The extended style of a window that can be transparent as a whole.
pub const LAYERED: isize = 0x80000;

/// Where a window goes in the stacking order.
#[derive(Clone, Copy, Debug, PartialEq, Eq, Structural)]
pub enum ZOrder {
    Keep,
    Top,
    Topmost,
    Behind(isize),
}

/// What moving a window leaves out or adds.
#[derive(Clone, Copy, Debug, PartialEq, Eq, Structural)]
pub struct PosFlags {
    pub no_activate: bool,
    pub no_z_order: bool,
    pub no_redraw: bool,
    pub show_window: bool,
}

/// A call whose result does not matter.
#[derive(Clone, Copy, Debug, PartialEq, Eq, Structural)]
pub enum OwnerCall {
    SetPos { hwnd: isize, z: ZOrder, rect: Rect, flags: PosFlags },
    Show { hwnd: isize, command: i32 },
    Unregister { hthumb: isize },
    DestroyWindow { hwnd: isize },
    SetExStyle { hwnd: isize, style: isize },
    EndBatch { batch: isize },
    Flush,
}

/// A call whose result decides what comes next.
#[derive(Clone, Copy, Debug, PartialEq, Eq, Structural)]
pub enum OwnerAsk {
    /// No question: the task goes on at once.
    Nothing,
    /// The task is over.
    Finished,
    Instance,
    CreateHost { instance: isize },
    SetPos { hwnd: isize, z: ZOrder, rect: Rect, flags: PosFlags },
    RegisterThumb { host_hwnd: isize, src_hwnd: isize },
    UpdateThumb { hthumb: isize, props: ThumbnailProperties },
    ShellWindow,
    OuterRect { hwnd: isize },
    ExStyle { hwnd: isize },
    SetTransparent { hwnd: isize, alpha: u8 },
    BeginBatch { count: i32 },
    Defer { batch: isize, hwnd: isize, rect: Rect, flags: PosFlags },
}

/// The answer to a question. `E` is whatever error the window system reports.
#[derive(Debug, PartialEq, Eq)]
pub enum OwnerAnswer<E> {
    /// There was no question, or there is no such window.
    Nothing,
    Done,
    Handle(isize),
    Area(Rect),
    Failed(E),
}

/// What to do next: the calls in order, then the question.
#[derive(Debug, PartialEq, Eq)]
pub struct OwnerStep {
    pub calls: Vec<OwnerCall>,
    pub ask: OwnerAsk,
}

/// `answer` is of the kind that `ask` is answered with.
pub open spec fn answers<E>(ask: OwnerAsk, answer: OwnerAnswer<E>) -> bool {
    match ask {
        OwnerAsk::Nothing => answer is Nothing,
        OwnerAsk::Finished => false,
        OwnerAsk::Instance => answer is Handle || answer is Failed,
        OwnerAsk::CreateHost { .. } => answer is Handle || answer is Failed,
        OwnerAsk::SetPos { .. } => answer is Done || answer is Failed,
        OwnerAsk::RegisterThumb { .. } => answer is Handle || answer is Failed,
        OwnerAsk::UpdateThumb { .. } => answer is Done || answer is Failed,
        OwnerAsk::ShellWindow => answer is Handle || answer is Nothing,
        OwnerAsk::OuterRect { .. } => answer is Area || answer is Failed,
        OwnerAsk::ExStyle { .. } => answer is Handle,
        OwnerAsk::SetTransparent { .. } => answer is Done || answer is Failed,
        OwnerAsk::BeginBatch { .. } => answer is Handle || answer is Failed,
        OwnerAsk::Defer { .. } => answer is Handle || answer is Failed,
    }
}

/// Whether `answer` is of the kind that `ask` is answered with.
pub fn is_answer<E>(ask: &OwnerAsk, answer: &OwnerAnswer<E>) -> (r: bool)
    ensures
        r == answers(*ask, *answer),
{
    match ask {
        OwnerAsk::Nothing => matches!(answer, OwnerAnswer::Nothing),
        OwnerAsk::Finished => false,
        OwnerAsk::Instance => matches!(answer, OwnerAnswer::Handle(_) | OwnerAnswer::Failed(_)),
        OwnerAsk::CreateHost { .. } => matches!(
            answer,
            OwnerAnswer::Handle(_) | OwnerAnswer::Failed(_)
        ),
        OwnerAsk::SetPos { .. } => matches!(answer, OwnerAnswer::Done | OwnerAnswer::Failed(_)),
        OwnerAsk::RegisterThumb { .. } => matches!(
            answer,
            OwnerAnswer::Handle(_) | OwnerAnswer::Failed(_)
        ),
        OwnerAsk::UpdateThumb { .. } => matches!(
            answer,
            OwnerAnswer::Done | OwnerAnswer::Failed(_)
        ),
        OwnerAsk::ShellWindow => matches!(answer, OwnerAnswer::Handle(_) | OwnerAnswer::Nothing),
        OwnerAsk::OuterRect { .. } => matches!(
            answer,
            OwnerAnswer::Area(_) | OwnerAnswer::Failed(_)
        ),
        OwnerAsk::ExStyle { .. } => matches!(answer, OwnerAnswer::Handle(_)),
        OwnerAsk::SetTransparent { .. } => matches!(
            answer,
            OwnerAnswer::Done | OwnerAnswer::Failed(_)
        ),
        OwnerAsk::BeginBatch { .. } => matches!(
            answer,
            OwnerAnswer::Handle(_) | OwnerAnswer::Failed(_)
        ),
        OwnerAsk::Defer { .. } => matches!(answer, OwnerAnswer::Handle(_) | OwnerAnswer::Failed(_)),
    }
}

/// One step made of the given calls.
pub(crate) fn step(calls: Vec<OwnerCall>, ask: OwnerAsk) -> (r: OwnerStep)
    ensures
        r.calls == calls,
        r.ask == ask,
{
    OwnerStep { calls, ask }
}

/// The windows and thumbnails that a task has made and not given back. The window system may hand
/// out one number more than once, so each counts as often as it was made.
#[verifier::ext_equal]
pub struct Holdings {
    pub hosts: Multiset<isize>,
    pub thumbs: Multiset<isize>,
}

impl Holdings {
    pub open spec fn none() -> Holdings {
        Holdings { hosts: Multiset::empty(), thumbs: Multiset::empty() }
    }

    pub open spec fn host(hwnd: isize) -> Holdings {
        Holdings { hosts: Multiset::singleton(hwnd), thumbs: Multiset::empty() }
    }

    pub open spec fn thumb(hthumb: isize) -> Holdings {
        Holdings { hosts: Multiset::empty(), thumbs: Multiset::singleton(hthumb) }
    }

    pub open spec fn plus(self, other: Holdings) -> Holdings {
        Holdings { hosts: self.hosts.add(other.hosts), thumbs: self.thumbs.add(other.thumbs) }
    }
}

/// What answering `ask` with `answer` has made.
pub open spec fn made<E>(ask: OwnerAsk, answer: OwnerAnswer<E>) -> Holdings {
    match (ask, answer) {
        (OwnerAsk::CreateHost { .. }, OwnerAnswer::Handle(hwnd)) => Holdings::host(hwnd),
        (OwnerAsk::RegisterThumb { .. }, OwnerAnswer::Handle(hthumb)) => Holdings::thumb(hthumb),
        _ => Holdings::none(),
    }
}

/// What the calls give back.
pub open spec fn given_back(calls: Seq<OwnerCall>) -> Holdings
    decreases calls.len(),
{
    if calls.len() == 0 {
        Holdings::none()
    } else {
        given_back(calls.drop_last()).plus(one_back(calls.last()))
    }
}

/// What a sequence of at most three calls gives back, call by call.
pub(crate) proof fn lemma_given_back_unfolds(calls: Seq<OwnerCall>)
    requires
        calls.len() <= 3,
    ensures
        calls.len() == 0 ==> given_back(calls) == Holdings::none(),
        calls.len() == 1 ==> given_back(calls) == one_back(calls[0]),
        calls.len() == 2 ==> given_back(calls) == one_back(calls[0]).plus(one_back(calls[1])),
        calls.len() == 3 ==> given_back(calls) == one_back(calls[0]).plus(
            one_back(calls[1]),
        ).plus(one_back(calls[2])),
{
    reveal_with_fuel(given_back, 4);
    if calls.len() == 1 {
        assert(given_back(calls) =~= one_back(calls[0]));
    } else if calls.len() == 2 {
        assert(given_back(calls) =~= one_back(calls[0]).plus(one_back(calls[1])));
    } else if calls.len() == 3 {
        assert(given_back(calls) =~= one_back(calls[0]).plus(one_back(calls[1])).plus(
            one_back(calls[2]),
        ));
    }
}

/// What one call gives back.
pub open spec fn one_back(call: OwnerCall) -> Holdings {
    match call {
        OwnerCall::DestroyWindow { hwnd } => Holdings::host(hwnd),
        OwnerCall::Unregister { hthumb } => Holdings::thumb(hthumb),
        _ => Holdings::none(),
    }
}

/// A question to the window system is answered by a success of its own kind, whatever it brings, or
/// by a failure where the call can fail; by nothing else.
pub proof fn law_owner_answers_are_of_the_kind_asked_for<E>(
    ask: OwnerAsk,
    hwnd: isize,
    answer: OwnerAnswer<E>,
)
    ensures
        answers(OwnerAsk::Nothing, answer) <==> answer is Nothing,
        !answers(OwnerAsk::Finished, answer),
        answers(OwnerAsk::ShellWindow, answer) <==> answer is Handle || answer is Nothing,
        answers(OwnerAsk::ExStyle { hwnd }, answer) <==> answer is Handle,
        ask is Instance || ask is CreateHost || ask is RegisterThumb || ask is BeginBatch || ask
            is Defer ==> (answers(ask, answer) <==> answer is Handle || answer is Failed),
        ask is SetPos || ask is UpdateThumb || ask is SetTransparent ==> (answers(ask, answer)
            <==> answer is Done || answer is Failed),
        ask is OuterRect ==> (answers(ask, answer) <==> answer is Area || answer is Failed),
{
}

} // verus!

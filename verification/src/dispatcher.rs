//! A workspace slide, from its first window to the last fade.
//!
//! A slide never calls the window system itself. Each step gives the calls to make, whose results do
//! not matter, the frame to present after them, and one question whose answer decides what comes
//! next.
use std::collections::{HashMap, HashSet};
use vstd::prelude::*;

use crate::geometry::Rect;
use crate::ghost::{GhostClip, RevealOverlay};
use crate::window::{
    fresh_window, tracked_window, Ask, RectRead, Settling, SlideCall, TrackedWindow,
};

verus! {

broadcast use vstd::std_specs::hash::group_hash_axioms;

/// How long a reveal fade takes at most.
pub const REVEAL_FADE: u128 = 200_000_000;

/// A workspace change that is to be animated.
#[derive(Debug)]
pub struct SlideRequest {
    pub monitor_id: isize,
    pub outgoing: Vec<isize>,
    pub incoming: Vec<isize>,
    pub focus_hwnd: Option<isize>,
    pub mouse_follows_focus: bool,
    pub offset: i32,
    pub monitor_bounds: Rect,
    /// In nanoseconds.
    pub duration: u128,
    /// Visible rect of each incoming window before the destination was laid out.
    /// Missing entries fall back to the post-layout rect, a pure horizontal slide.
    pub incoming_from: HashMap<isize, Rect>,
    pub floating: HashSet<isize>,
    /// Outer rect of floating windows, captured before anything moves them.
    pub floating_outer: HashMap<isize, Rect>,
}

/// What is still to do once a slide has finished.
#[derive(Clone, Copy, Debug, PartialEq, Eq, Structural)]
pub enum Ending {
    /// Nothing.
    Plain,
    /// Let the slide lock go.
    Release,
    /// Finalise the managers once more, then let the slide lock go.
    FinaliseAndRelease,
}

/// Where a slide stands.
#[derive(Clone, Copy, Debug, PartialEq, Eq, Structural)]
pub enum Phase {
    /// Nothing is under way.
    Idle,
    /// Preparing: the events of the windows are to be ignored.
    Suppress,
    /// Preparing: window `index` is next.
    Look { index: usize },
    /// Preparing: the visible rect of window `index` is being read.
    Rect { index: usize, read: RectRead },
    /// Preparing: waits for the outer rect of window `index`.
    Outer { index: usize, rect: Rect },
    /// Preparing: waits for the ghost of window `index`.
    Create { index: usize },
    /// Preparing: window `index` cannot slide and is put back.
    Unready { index: usize, settling: Settling },
    /// Preparing: every window has been looked at.
    Opened,
    /// Finishing: the windows that the slide still owns are to be found.
    Begin,
    /// Finishing: window `index` is next to be covered.
    Cover { index: usize },
    /// Finishing: waits for the overlay of window `index`.
    Overlay { index: usize },
    /// Finishing: window `index` is next to be let go of.
    Clear { index: usize },
    /// Finishing: window `index` is put back.
    Clearing { index: usize, settling: Settling },
    /// Finishing: the shared state is to be updated.
    Release,
    /// Finishing: waits for the rect of the focused window.
    Cursor,
    /// Finishing: the fade is to begin.
    FadeStart,
    /// Finishing: the overlays fade.
    Fading { started: u128 },
    /// Finalising: waits for whether another workspace slide is in progress.
    BusyWorkspace,
    /// Finalising: waits for whether a movement is in progress.
    BusyMovement,
    /// Finalising: waits for the foreground window.
    Foreground,
}

/// One workspace slide. `S` is an animation style.
#[derive(Debug)]
pub struct WorkspaceSlideDispatcher<S> {
    pub slide_id: usize,
    pub monitor_id: isize,
    pub windows: Vec<TrackedWindow>,
    pub style: S,
    pub focus_hwnd: Option<isize>,
    pub mouse_follows_focus: bool,
    pub offset: i32,
    pub monitor_bounds: Rect,
    /// In nanoseconds.
    pub duration: u128,
    pub incoming_from: HashMap<isize, Rect>,
    pub prepared: bool,
    pub settled: bool,
    pub borders_suppressed: bool,
    /// The clips of the opening frame.
    pub opening: Vec<GhostClip>,
    pub overlays: Vec<RevealOverlay>,
    /// The windows that the slide still owned when it began to finish.
    pub owned: HashSet<isize>,
    pub move_mouse: bool,
    pub ending: Ending,
    pub phase: Phase,
}

/// What to do next: the calls in order, then the frame where there is one, then the question.
#[derive(Debug, PartialEq, Eq)]
pub struct Step {
    pub calls: Vec<SlideCall>,
    pub frame: Vec<GhostClip>,
    pub ask: Ask,
}

/// A slide as plain mathematics.
#[verifier::ext_equal]
pub struct SlideModel {
    pub slide_id: usize,
    pub monitor_id: isize,
    pub windows: Seq<TrackedWindow>,
    pub focus_hwnd: Option<isize>,
    pub mouse_follows_focus: bool,
    pub offset: i32,
    pub monitor_bounds: Rect,
    pub duration: u128,
    pub incoming_from: Map<isize, Rect>,
    pub prepared: bool,
    pub settled: bool,
    pub borders_suppressed: bool,
    pub opening: Seq<GhostClip>,
    pub overlays: Seq<RevealOverlay>,
    pub owned: Set<isize>,
    pub move_mouse: bool,
    pub ending: Ending,
    pub phase: Phase,
}

impl<S> View for WorkspaceSlideDispatcher<S> {
    type V = SlideModel;

    open spec fn view(&self) -> SlideModel {
        SlideModel {
            slide_id: self.slide_id,
            monitor_id: self.monitor_id,
            windows: self.windows@,
            focus_hwnd: self.focus_hwnd,
            mouse_follows_focus: self.mouse_follows_focus,
            offset: self.offset,
            monitor_bounds: self.monitor_bounds,
            duration: self.duration,
            incoming_from: self.incoming_from@,
            prepared: self.prepared,
            settled: self.settled,
            borders_suppressed: self.borders_suppressed,
            opening: self.opening@,
            overlays: self.overlays@,
            owned: self.owned@,
            move_mouse: self.move_mouse,
            ending: self.ending,
            phase: self.phase,
        }
    }
}

// ---------------------------------------------------------------------------------------------
// Which windows a slide has
// ---------------------------------------------------------------------------------------------

/// The incoming windows that are not among the known ones, each once, in the order in which they
/// first occur.
pub open spec fn newcomers(known: Seq<isize>, incoming: Seq<isize>) -> Seq<isize>
    decreases incoming.len(),
{
    if incoming.len() == 0 {
        seq![]
    } else {
        let before = newcomers(known, incoming.drop_last());
        if known.contains(incoming.last()) || before.contains(incoming.last()) {
            before
        } else {
            before.push(incoming.last())
        }
    }
}

/// The windows of a slide: the outgoing ones, then the incoming ones that are not outgoing too.
pub open spec fn participants(outgoing: Seq<isize>, incoming: Seq<isize>) -> Seq<isize> {
    outgoing + newcomers(outgoing, incoming)
}

/// No earlier entry is the same window.
pub open spec fn is_first(hwnds: Seq<isize>, i: int) -> bool {
    forall|j: int| 0 <= j < i ==> hwnds[j] != hwnds[i]
}

pub open spec fn lookup<V>(map: Map<isize, V>, hwnd: isize) -> Option<V> {
    if map.contains_key(hwnd) {
        Some(map[hwnd])
    } else {
        None
    }
}

/// The tracked windows of a slide before it is prepared. A window that both leaves and enters
/// counts as incoming, where it first occurs.
pub open spec fn tracked_windows(
    outgoing: Seq<isize>,
    incoming: Seq<isize>,
    floating: Set<isize>,
    outer: Map<isize, Rect>,
) -> Seq<TrackedWindow> {
    let hwnds = participants(outgoing, incoming);
    Seq::new(
        hwnds.len(),
        |i: int|
            fresh_window(
                hwnds[i],
                incoming.contains(hwnds[i]) && is_first(hwnds, i),
                floating.contains(hwnds[i]),
                lookup(outer, hwnds[i]),
            ),
    )
}

fn find_window(windows: &Vec<TrackedWindow>, hwnd: isize) -> (r: Option<usize>)
    ensures
        match r {
            Some(i) => {
                &&& i < windows@.len()
                &&& windows@[i as int].hwnd == hwnd
                &&& forall|j: int| 0 <= j < i ==> (#[trigger] windows@[j]).hwnd != hwnd
            },
            None => forall|j: int|
                0 <= j < windows@.len() ==> (#[trigger] windows@[j]).hwnd != hwnd,
        },
{
    let mut index: usize = 0;
    while index < windows.len()
        invariant
            index <= windows@.len(),
            forall|j: int| 0 <= j < index ==> (#[trigger] windows@[j]).hwnd != hwnd,
        decreases windows@.len() - index,
    {
        if windows[index].hwnd == hwnd {
            return Some(index);
        }
        index = index + 1;
    }
    None
}

pub(crate) fn rect_of(rects: &HashMap<isize, Rect>, hwnd: isize) -> (r: Option<Rect>)
    ensures
        r == lookup(rects@, hwnd),
{
    match rects.get(&hwnd) {
        Some(rect) => Some(*rect),
        None => None,
    }
}

/// Tracking one outgoing window more appends it.
proof fn lemma_one_more_outgoing(
    outgoing: Seq<isize>,
    i: int,
    floating: Set<isize>,
    outer: Map<isize, Rect>,
)
    requires
        0 <= i < outgoing.len(),
    ensures
        tracked_windows(outgoing.take(i + 1), seq![], floating, outer) == tracked_windows(
            outgoing.take(i),
            seq![],
            floating,
            outer,
        ).push(
            fresh_window(
                outgoing[i],
                false,
                floating.contains(outgoing[i]),
                lookup(outer, outgoing[i]),
            ),
        ),
{
    let none = Seq::<isize>::empty();
    assert(newcomers(outgoing.take(i + 1), none) =~= none);
    assert(newcomers(outgoing.take(i), none) =~= none);
    assert(tracked_windows(outgoing.take(i + 1), none, floating, outer) =~= tracked_windows(
        outgoing.take(i),
        none,
        floating,
        outer,
    ).push(
        fresh_window(
            outgoing[i],
            false,
            floating.contains(outgoing[i]),
            lookup(outer, outgoing[i]),
        ),
    ));
}

/// Tracking one incoming window more marks it where it first occurs, or appends it.
proof fn lemma_one_more_incoming(
    outgoing: Seq<isize>,
    incoming: Seq<isize>,
    k: int,
    floating: Set<isize>,
    outer: Map<isize, Rect>,
)
    requires
        0 <= k < incoming.len(),
    ensures
        ({
            let hwnd = incoming[k];
            let before = tracked_windows(outgoing, incoming.take(k), floating, outer);
            let after = tracked_windows(outgoing, incoming.take(k + 1), floating, outer);
            let hwnds = participants(outgoing, incoming.take(k));
            &&& before.len() == hwnds.len()
            &&& forall|i: int| 0 <= i < hwnds.len() ==> (#[trigger] before[i]).hwnd == hwnds[i]
            &&& !hwnds.contains(hwnd) ==> after == before.push(
                fresh_window(hwnd, true, floating.contains(hwnd), lookup(outer, hwnd)),
            )
            &&& forall|i: int|
                0 <= i < hwnds.len() && hwnds[i] == hwnd && is_first(hwnds, i) ==> after
                    == before.update(
                    i,
                    TrackedWindow { incoming: true, ..#[trigger] before[i] },
                )
        }),
{
    let hwnd = incoming[k];
    let shorter = incoming.take(k);
    let longer = incoming.take(k + 1);
    assert(longer.drop_last() =~= shorter);
    assert(longer =~= shorter.push(hwnd));
    let before = tracked_windows(outgoing, shorter, floating, outer);
    let after = tracked_windows(outgoing, longer, floating, outer);
    let hwnds = participants(outgoing, shorter);
    let new_before = newcomers(outgoing, shorter);
    assert forall|h: isize| #[trigger] longer.contains(h) <==> shorter.contains(h) || h == hwnd by {
        if shorter.contains(h) {
            let j = choose|j: int| 0 <= j < shorter.len() && shorter[j] == h;
            assert(longer[j] == h);
        }
        assert(longer[k] == hwnd);
    }
    assert(hwnds.contains(hwnd) <==> outgoing.contains(hwnd) || new_before.contains(hwnd)) by {
        if outgoing.contains(hwnd) {
            let j = choose|j: int| 0 <= j < outgoing.len() && outgoing[j] == hwnd;
            assert(hwnds[j] == hwnd);
        }
        if new_before.contains(hwnd) {
            let j = choose|j: int| 0 <= j < new_before.len() && new_before[j] == hwnd;
            assert(hwnds[outgoing.len() + j] == hwnd);
        }
    }
    if !hwnds.contains(hwnd) {
        let wider = hwnds.push(hwnd);
        assert(participants(outgoing, longer) =~= wider);
        assert forall|i: int| 0 <= i < hwnds.len() implies #[trigger] after[i] == before[i] by {
            assert(wider[i] == hwnds[i]);
            assert(hwnds[i] != hwnd);
            assert(is_first(wider, i) == is_first(hwnds, i)) by {
                assert(forall|j: int| 0 <= j < i ==> wider[j] == hwnds[j]);
            }
        }
        assert(is_first(wider, hwnds.len() as int));
        assert(longer.contains(hwnd));
        assert(after =~= before.push(
            fresh_window(hwnd, true, floating.contains(hwnd), lookup(outer, hwnd)),
        ));
    } else {
        assert(participants(outgoing, longer) =~= hwnds);
        assert forall|i: int|
            0 <= i < hwnds.len() && hwnds[i] == hwnd && is_first(hwnds, i) implies after
            == before.update(i, TrackedWindow { incoming: true, ..#[trigger] before[i] }) by {
            assert(after =~= before.update(i, TrackedWindow { incoming: true, ..before[i] }));
        }
    }
}

impl SlideRequest {
    /// The request asks for these windows.
    pub open spec fn windows(self) -> Seq<TrackedWindow> {
        tracked_windows(
            self.outgoing@,
            self.incoming@,
            self.floating@,
            self.floating_outer@,
        )
    }

    /// The slide that the request asks for, before it is prepared.
    pub open spec fn slide(self, slide_id: usize) -> SlideModel {
        SlideModel {
            slide_id,
            monitor_id: self.monitor_id,
            windows: self.windows(),
            focus_hwnd: self.focus_hwnd,
            mouse_follows_focus: self.mouse_follows_focus,
            offset: self.offset,
            monitor_bounds: self.monitor_bounds,
            duration: self.duration,
            incoming_from: self.incoming_from@,
            prepared: false,
            settled: false,
            borders_suppressed: false,
            opening: seq![],
            overlays: seq![],
            owned: Set::empty(),
            move_mouse: false,
            ending: Ending::Plain,
            phase: Phase::Idle,
        }
    }
}

impl<S> WorkspaceSlideDispatcher<S> {
    pub fn new(request: SlideRequest, style: S, slide_id: usize) -> (r: Self)
        ensures
            r@ == request.slide(slide_id),
            r@.wf(),
            r.style == style,
    {
        let SlideRequest {
            monitor_id,
            outgoing,
            incoming,
            focus_hwnd,
            mouse_follows_focus,
            offset,
            monitor_bounds,
            duration,
            incoming_from,
            floating,
            floating_outer,
        } = request;
        let windows = track_windows(&outgoing, &incoming, &floating, &floating_outer);
        let dispatcher = WorkspaceSlideDispatcher {
            slide_id,
            monitor_id,
            windows,
            style,
            focus_hwnd,
            mouse_follows_focus,
            offset,
            monitor_bounds,
            duration,
            incoming_from,
            prepared: false,
            settled: false,
            borders_suppressed: false,
            opening: Vec::new(),
            overlays: Vec::new(),
            owned: HashSet::new(),
            move_mouse: false,
            ending: Ending::Plain,
            phase: Phase::Idle,
        };
        assert(dispatcher@ =~= request.slide(slide_id));
        dispatcher
    }
}

fn track_windows(
    outgoing: &Vec<isize>,
    incoming: &Vec<isize>,
    floating: &HashSet<isize>,
    floating_outer: &HashMap<isize, Rect>,
) -> (r: Vec<TrackedWindow>)
    ensures
        r@ == tracked_windows(outgoing@, incoming@, floating@, floating_outer@),
{
    let mut windows: Vec<TrackedWindow> = Vec::new();
    let ghost none = Seq::<isize>::empty();
    let mut index: usize = 0;
    assert(windows@ =~= tracked_windows(outgoing@.take(0), none, floating@, floating_outer@));
    while index < outgoing.len()
        invariant
            index <= outgoing@.len(),
            none == Seq::<isize>::empty(),
            windows@ == tracked_windows(
                outgoing@.take(index as int),
                none,
                floating@,
                floating_outer@,
            ),
        decreases outgoing@.len() - index,
    {
        let hwnd: isize = outgoing[index];
        proof {
            lemma_one_more_outgoing(outgoing@, index as int, floating@, floating_outer@);
        }
        windows.push(
            tracked_window(hwnd, false, floating.contains(&hwnd), rect_of(floating_outer, hwnd)),
        );
        index = index + 1;
    }
    assert(outgoing@.take(index as int) =~= outgoing@);
    assert(incoming@.take(0) =~= none);

    index = 0;
    while index < incoming.len()
        invariant
            index <= incoming@.len(),
            windows@ == tracked_windows(
                outgoing@,
                incoming@.take(index as int),
                floating@,
                floating_outer@,
            ),
        decreases incoming@.len() - index,
    {
        let hwnd: isize = incoming[index];
        let ghost hwnds = participants(outgoing@, incoming@.take(index as int));
        proof {
            lemma_one_more_incoming(
                outgoing@,
                incoming@,
                index as int,
                floating@,
                floating_outer@,
            );
        }
        match find_window(&windows, hwnd) {
            Some(existing) => {
                assert(is_first(hwnds, existing as int)) by {
                    assert forall|j: int| 0 <= j < existing implies hwnds[j] != hwnds[existing as int] by {
                        assert(windows@[j].hwnd != hwnd);
                    }
                }
                let ghost before = windows@;
                let known = &mut windows[existing];
                known.incoming = true;
                known.floating = floating.contains(&hwnd);
                known.outer = rect_of(floating_outer, hwnd);
                assert(windows@ =~= before.update(
                    existing as int,
                    TrackedWindow { incoming: true, ..before[existing as int] },
                ));
            },
            None => {
                assert(!hwnds.contains(hwnd)) by {
                    if hwnds.contains(hwnd) {
                        let j = choose|j: int| 0 <= j < hwnds.len() && hwnds[j] == hwnd;
                        assert(windows@[j].hwnd == hwnd);
                    }
                }
                windows.push(
                    tracked_window(
                        hwnd,
                        true,
                        floating.contains(&hwnd),
                        rect_of(floating_outer, hwnd),
                    ),
                );
            },
        }
        index = index + 1;
    }
    assert(incoming@.take(index as int) =~= incoming@);
    windows
}

} // verus!

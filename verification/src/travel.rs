//! Where the windows of a slide go, what of them the monitor shows, and whose windows they are.
use vstd::prelude::*;

use crate::course::{
    law_slide_keeps_invariant, lemma_preparing_comes_first, lemma_step_changes_one_window, Input,
};
use crate::dispatcher::{
    is_first, lookup, newcomers, participants, tracked_windows, Ending, Phase, SlideModel,
};
use crate::geometry::{
    crop_in_proportion, direction, law_clip_stays_inside_the_monitor, thumbnail_clip, window_clip,
    Rect,
};
use crate::ghost::GhostClip;
use crate::phases::{hwnds_of, origin_of, sliding};
use crate::registry::{is_ignored, Clock, SlideStateModel, EVENT_GRACE};
use crate::run::slide_started;
use crate::window::{law_clip_shows_what_the_monitor_shows, Answer, SlideCall, TrackedWindow};

verus! {

// ---------------------------------------------------------------------------------------------
// The way of a window
// ---------------------------------------------------------------------------------------------

/// Every window travels the way of the workspace: an outgoing one leaves its place by the offset, a
/// floating one or one without an earlier rect comes to its place by the offset, and neither its
/// height on the screen nor its size changes. A tiled window with an earlier rect starts one offset
/// away from there and ends where the layout put it.
pub proof fn law_windows_travel_with_the_workspace(
    slide: SlideModel,
    window: TrackedWindow,
    rect: Rect,
    outer: Option<Rect>,
)
    requires
        slide.ready_fits(window, rect, outer),
    ensures
        ({
            let ready = slide.ready_window(window, rect, outer);
            let origin = origin_of(slide.incoming_from, window.hwnd, rect);
            let straight = !window.incoming || window.floating || lookup(
                slide.incoming_from,
                window.hwnd,
            ) is None;
            &&& straight ==> {
                &&& ready.target.left - ready.start.left == -slide.offset
                &&& ready.target.top == ready.start.top
                &&& ready.target.right == ready.start.right
                &&& ready.target.bottom == ready.start.bottom
            }
            &&& !window.incoming ==> ready.start == rect
            &&& window.incoming ==> {
                &&& ready.start.left - origin.left == slide.offset
                &&& ready.start.top == origin.top
                &&& ready.start.right == origin.right
                &&& ready.start.bottom == origin.bottom
            }
            &&& window.incoming && !window.floating ==> ready.target == rect
            &&& window.incoming && window.floating ==> ready.target == origin
            &&& ready.cloaked
        }),
{
}

/// The rect lies on the monitor, from side to side.
pub open spec fn is_between_the_sides(rect: Rect, monitor: Rect) -> bool {
    monitor.left <= rect.left && rect.left + rect.right <= monitor.left + monitor.right
}

/// The current workspace slides off one side of the monitor and the next one slides in from the
/// other: to a higher index everything leaves over the left side and enters over the right one, to
/// a lower index the other way round. What has left, or has yet to enter, is not shown at all.
pub proof fn law_workspaces_cross_the_monitor(
    slide: SlideModel,
    window: TrackedWindow,
    rect: Rect,
    outer: Option<Rect>,
    from_idx: int,
    to_idx: int,
)
    requires
        slide.ready_fits(window, rect, outer),
        from_idx != to_idx,
        slide.offset == direction(from_idx, to_idx) * slide.monitor_bounds.right,
        is_between_the_sides(rect, slide.monitor_bounds),
        is_between_the_sides(
            origin_of(slide.incoming_from, window.hwnd, rect),
            slide.monitor_bounds,
        ),
    ensures
        ({
            let ready = slide.ready_window(window, rect, outer);
            let monitor = slide.monitor_bounds;
            let away = if window.incoming {
                ready.start
            } else {
                ready.target
            };
            &&& window_clip(away, monitor) is None
            &&& (to_idx > from_idx) == window.incoming ==> away.left >= monitor.left + monitor.right
            &&& (to_idx > from_idx) != window.incoming ==> away.left + away.right <= monitor.left
        }),
{
    let width: int = slide.monitor_bounds.right as int;
    if to_idx > from_idx {
        assert(direction(from_idx, to_idx) * width == width);
    } else {
        assert(direction(from_idx, to_idx) * width == -width);
    }
}

// ---------------------------------------------------------------------------------------------
// Frames
// ---------------------------------------------------------------------------------------------

/// A frame has one clip for each shown window, and no clip reaches outside the monitor. A slide
/// that is finishing shows nothing.
pub proof fn law_frame_stays_on_the_monitor(slide: SlideModel, visuals: Seq<Rect>, i: int)
    requires
        slide.frame_fits(visuals),
        0 <= i < visuals.len(),
    ensures
        slide.frame(visuals).len() == slide.shown_windows().len(),
        !slide.settled,
        slide.frame(visuals)[i].host matches Some(host) ==> {
            let monitor = slide.monitor_bounds;
            &&& host.right > 0 && host.bottom > 0
            &&& monitor.left <= host.left
            &&& host.left + host.right <= monitor.left + monitor.right
            &&& monitor.top <= host.top
            &&& host.top + host.bottom <= monitor.top + monitor.bottom
        },
{
    let window = slide.shown_windows()[i];
    let (width, height) = window.source_size();
    if thumbnail_clip(visuals[i], slide.monitor_bounds, width as int, height as int) is Some {
        law_clip_stays_inside_the_monitor(visuals[i], slide.monitor_bounds);
    }
}

/// The windows that a frame shows are those of the slide that take part and have a ghost, all of
/// them, in the order in which they stand, whether they leave or enter. A slide that is finishing
/// shows none.
pub proof fn law_frame_is_of_the_windows_with_ghosts(slide: SlideModel)
    ensures
        !slide.settled ==> slide.shown_windows() == slide.windows.filter(
            |window: TrackedWindow| window.active && window.ghost_window is Some,
        ),
        slide.settled ==> slide.shown_windows().len() == 0,
{
    lemma_sliding_filters(slide.windows);
}

proof fn lemma_sliding_filters(windows: Seq<TrackedWindow>)
    ensures
        sliding(windows) == windows.filter(
            |window: TrackedWindow| window.active && window.ghost_window is Some,
        ),
    decreases windows.len(),
{
    reveal(Seq::filter);
    if windows.len() > 0 {
        lemma_sliding_filters(windows.drop_last());
    }
}

/// A frame with one rect for each shown window is refused only if one of them cannot be clipped.
pub proof fn law_frame_is_refused_for_one_of_its_windows(slide: SlideModel, visuals: Seq<Rect>)
    requires
        visuals.len() == slide.shown_windows().len(),
        !slide.frame_fits(visuals),
    ensures
        exists|i: int|
            0 <= i < visuals.len() && !(#[trigger] slide.shown_windows()[i]).shown_fits(
                visuals[i],
                slide.monitor_bounds,
            ),
{
}

/// In a frame, every shown window, outgoing or incoming, is shown by its own ghost, on exactly the
/// pixels that its rect in this frame shares with the monitor. Only where there are none is the
/// ghost hidden. The thumbnail is cropped in proportion, from where the visible part begins.
pub proof fn law_frame_shows_what_the_monitor_shows(
    slide: SlideModel,
    visuals: Seq<Rect>,
    i: int,
    x: int,
    y: int,
)
    requires
        slide.frame_fits(visuals),
        0 <= i < visuals.len(),
        x < i32::MAX,
        y < i32::MAX,
    ensures
        ({
            let window = slide.shown_windows()[i];
            let clip = slide.frame(visuals)[i];
            let (visual, monitor) = (visuals[i], slide.monitor_bounds);
            let sized = if window.incoming && !window.floating {
                window.target
            } else {
                window.start
            };
            &&& slide.frame(visuals).len() == visuals.len() == slide.shown_windows().len()
            &&& window.ghost_window matches Some(ghost) && clip.host_hwnd == ghost.host_hwnd
                && clip.hthumb == ghost.hthumb
            &&& match clip.host {
                Some(host) => {
                    &&& host.covers(x, y) <==> visual.covers(x, y) && monitor.covers(x, y)
                    &&& host.right > 0 && host.bottom > 0
                    &&& crop_in_proportion(
                        clip.source_x - window.source_offset.0,
                        clip.source_width as int,
                        host.left - visual.left,
                        host.right as int,
                        sized.right as int,
                        visual.right as int,
                    )
                    &&& crop_in_proportion(
                        clip.source_y - window.source_offset.1,
                        clip.source_height as int,
                        host.top - visual.top,
                        host.bottom as int,
                        sized.bottom as int,
                        visual.bottom as int,
                    )
                },
                None => !(visual.covers(x, y) && monitor.covers(x, y)),
            }
        }),
{
    let window = slide.shown_windows()[i];
    lemma_sliding_have_ghosts(slide.windows, i);
    law_clip_shows_what_the_monitor_shows(
        window,
        window.ghost_window->0,
        visuals[i],
        slide.monitor_bounds,
        x,
        y,
    );
}

proof fn lemma_sliding_have_ghosts(windows: Seq<TrackedWindow>, i: int)
    requires
        0 <= i < sliding(windows).len(),
    ensures
        sliding(windows)[i].active,
        sliding(windows)[i].ghost_window is Some,
    decreases windows.len(),
{
    if windows.len() > 0 && i < sliding(windows.drop_last()).len() {
        lemma_sliding_have_ghosts(windows.drop_last(), i);
    }
}

/// The clips of the windows that have a ghost, each at its start.
pub open spec fn start_clips(windows: Seq<TrackedWindow>, monitor: Rect) -> Seq<GhostClip> {
    sliding(windows).map_values(
        |window: TrackedWindow| window.shown(window.ghost_window->0, window.start, monitor),
    )
}

impl SlideModel {
    /// The opening frame so far has a clip for each ghost so far.
    spec fn opens_well(self) -> bool {
        &&& !self.settled
        &&& self.phase is Suppress ==> self.opening.len() == 0
        &&& !(self.phase is Opened) && !self.is_finishing() ==> self.opening == start_clips(
            self.windows.take(self.opened()),
            self.monitor_bounds,
        )
    }
}

/// One window more, at the end: its clip joins if it has a ghost.
proof fn lemma_start_clips_extend(windows: Seq<TrackedWindow>, i: int, monitor: Rect)
    requires
        0 <= i < windows.len(),
        windows[i].active == (windows[i].ghost_window is Some),
    ensures
        start_clips(windows.take(i + 1), monitor) == if windows[i].ghost_window is Some {
            start_clips(windows.take(i), monitor).push(
                windows[i].shown(windows[i].ghost_window->0, windows[i].start, monitor),
            )
        } else {
            start_clips(windows.take(i), monitor)
        },
{
    assert(windows.take(i + 1).drop_last() =~= windows.take(i));
    assert(start_clips(windows.take(i + 1), monitor) =~= if windows[i].ghost_window is Some {
        start_clips(windows.take(i), monitor).push(
            windows[i].shown(windows[i].ghost_window->0, windows[i].start, monitor),
        )
    } else {
        start_clips(windows.take(i), monitor)
    });
}

#[verifier::rlimit(40)]
proof fn lemma_opening_step(slide: SlideModel, input: Input)
    requires
        slide.wf(),
        slide.windows.len() <= usize::MAX,
        slide.accepts(input.clock, input.answer),
        slide.opens_well(),
        !(slide.phase is Opened),
        !slide.is_finishing(),
        slide.given(input).0.wf(),
    ensures
        slide.given(input).0.opens_well(),
        slide.given(input).0.monitor_bounds == slide.monitor_bounds,
{
    let after = slide.given(input).0;
    lemma_step_changes_one_window(slide, input);
    match slide.turn() {
        Some(index) => {
            assert(after.windows.take(index) =~= slide.windows.take(index));
            if after.phase is Look {
                lemma_start_clips_extend(after.windows, index, slide.monitor_bounds);
            }
        },
        None => {
            assert(slide.windows.take(0) =~= seq![]);
            assert(start_clips(slide.windows.take(0), slide.monitor_bounds) =~= seq![]);
        },
    }
}

proof fn lemma_opening_course(slide: SlideModel, inputs: Seq<Input>)
    requires
        slide.wf(),
        slide.windows.len() <= usize::MAX,
        slide.phase is Suppress,
        slide.opens_well(),
        slide.takes(inputs),
        !(slide.after(inputs).phase is Opened),
        !slide.after(inputs).is_finishing(),
    ensures
        slide.after(inputs).opens_well(),
        slide.after(inputs).monitor_bounds == slide.monitor_bounds,
    decreases inputs.len(),
{
    if inputs.len() > 0 {
        let shorter = inputs.drop_last();
        let before = slide.after(shorter);
        law_slide_keeps_invariant(slide, shorter);
        law_slide_keeps_invariant(slide, inputs);
        if before.phase is Opened || before.is_finishing() {
            lemma_preparing_comes_first(before, inputs.last());
        }
        lemma_opening_course(slide, shorter);
        lemma_opening_step(before, inputs.last());
    }
}

/// The opening frame shows every ghost where its window starts, each once, in the order of the
/// windows. It goes out when every window has been looked at.
pub proof fn law_opening_frame_shows_every_ghost(slide: SlideModel, inputs: Seq<Input>)
    requires
        slide.wf(),
        slide.windows.len() <= usize::MAX,
        slide.phase is Suppress,
        !slide.settled,
        slide.opening.len() == 0,
        slide.takes(inputs),
        slide.after(inputs).phase == (Phase::Look { index: slide.windows.len() as usize }),
    ensures
        slide.after(inputs).next_frame() == start_clips(
            slide.after(inputs).windows,
            slide.monitor_bounds,
        ),
{
    assert(slide.windows.take(0) =~= seq![]);
    assert(start_clips(slide.windows.take(0), slide.monitor_bounds) =~= slide.opening);
    lemma_opening_course(slide, inputs);
    law_slide_keeps_invariant(slide, inputs);
    let after = slide.after(inputs);
    assert(after.windows.take(after.windows.len() as int) =~= after.windows);
}

// ---------------------------------------------------------------------------------------------
// Whose windows they are
// ---------------------------------------------------------------------------------------------

/// The newcomers are the incoming windows that are not known, each once.
proof fn lemma_newcomers(known: Seq<isize>, incoming: Seq<isize>)
    ensures
        forall|hwnd: isize| #[trigger]
            newcomers(known, incoming).contains(hwnd) <==> incoming.contains(hwnd)
                && !known.contains(hwnd),
        newcomers(known, incoming).no_duplicates(),
    decreases incoming.len(),
{
    let new = newcomers(known, incoming);
    if incoming.len() > 0 {
        let shorter = incoming.drop_last();
        let before = newcomers(known, shorter);
        lemma_newcomers(known, shorter);
        assert forall|hwnd: isize| #[trigger]
            new.contains(hwnd) <==> incoming.contains(hwnd) && !known.contains(hwnd) by {
            assert(incoming =~= shorter.push(incoming.last()));
            lemma_push_contains(shorter, incoming.last(), hwnd);
            lemma_push_contains(before, incoming.last(), hwnd);
        }
    }
}

proof fn lemma_push_contains(s: Seq<isize>, x: isize, y: isize)
    ensures
        s.push(x).contains(y) <==> s.contains(y) || x == y,
{
    if s.contains(y) {
        let k = choose|k: int| 0 <= k < s.len() && s[k] == y;
        assert(s.push(x)[k] == y);
    }
    if x == y {
        assert(s.push(x)[s.len() as int] == y);
    }
    if s.push(x).contains(y) {
        let k = choose|k: int| 0 <= k < s.push(x).len() && s.push(x)[k] == y;
        if k < s.len() {
            assert(s[k] == y);
        }
    }
}

/// Of two newcomers, the one that comes first among the incoming windows stands first.
proof fn lemma_newcomers_keep_their_order(
    known: Seq<isize>,
    incoming: Seq<isize>,
    a: int,
    b: int,
) -> (p: int)
    requires
        0 <= a < b < newcomers(known, incoming).len(),
    ensures
        0 <= p < incoming.len(),
        incoming[p] == newcomers(known, incoming)[a],
        forall|q: int| 0 <= q <= p ==> #[trigger] incoming[q] != newcomers(known, incoming)[b],
    decreases incoming.len(),
{
    let shorter = incoming.drop_last();
    let before = newcomers(known, shorter);
    let new = newcomers(known, incoming);
    lemma_newcomers(known, shorter);
    if b < before.len() {
        let p = lemma_newcomers_keep_their_order(known, shorter, a, b);
        assert forall|q: int| 0 <= q <= p implies #[trigger] incoming[q] != new[b] by {
            assert(shorter[q] == incoming[q]);
        }
        p
    } else {
        assert(before.contains(before[a]));
        let p = choose|p: int| 0 <= p < shorter.len() && shorter[p] == before[a];
        assert forall|q: int| 0 <= q <= p implies #[trigger] incoming[q] != new[b] by {
            assert(shorter[q] == incoming[q]);
            if incoming[q] == new[b] {
                assert(shorter.contains(new[b]));
                assert(before.contains(new[b]));
            }
        }
        p
    }
}

/// The windows of a slide stand in the order of the request: first the outgoing ones as they are
/// listed, then the incoming ones that do not leave as well, in the order in which they are first
/// listed.
pub proof fn law_windows_keep_their_order(
    outgoing: Seq<isize>,
    incoming: Seq<isize>,
    floating: Set<isize>,
    outer: Map<isize, Rect>,
    i: int,
    j: int,
)
    requires
        0 <= i < j < tracked_windows(outgoing, incoming, floating, outer).len(),
    ensures
        ({
            let windows = tracked_windows(outgoing, incoming, floating, outer);
            &&& outgoing.len() <= windows.len()
            &&& i < outgoing.len() ==> windows[i].hwnd == outgoing[i]
            &&& j < outgoing.len() ==> windows[j].hwnd == outgoing[j]
            &&& j >= outgoing.len() ==> !outgoing.contains(windows[j].hwnd)
            &&& i >= outgoing.len() ==> exists|p: int|
                #![trigger incoming[p]]
                0 <= p < incoming.len() && incoming[p] == windows[i].hwnd && forall|q: int|
                    0 <= q <= p ==> #[trigger] incoming[q] != windows[j].hwnd
        }),
{
    let windows = tracked_windows(outgoing, incoming, floating, outer);
    let new = newcomers(outgoing, incoming);
    lemma_newcomers(outgoing, incoming);
    if j >= outgoing.len() {
        assert(new.contains(new[j - outgoing.len()]));
    }
    if i >= outgoing.len() {
        let p = lemma_newcomers_keep_their_order(
            outgoing,
            incoming,
            i - outgoing.len(),
            j - outgoing.len(),
        );
        assert(incoming[p] == windows[i].hwnd);
    }
}

/// The windows of a slide are the outgoing and the incoming ones, and no others.
proof fn lemma_participants(outgoing: Seq<isize>, incoming: Seq<isize>, hwnd: isize)
    ensures
        participants(outgoing, incoming).contains(hwnd) <==> outgoing.contains(hwnd)
            || incoming.contains(hwnd),
{
    lemma_newcomers(outgoing, incoming);
    let new = newcomers(outgoing, incoming);
    let all = participants(outgoing, incoming);
    if outgoing.contains(hwnd) {
        let k = choose|k: int| 0 <= k < outgoing.len() && outgoing[k] == hwnd;
        assert(all[k] == hwnd);
    }
    if new.contains(hwnd) {
        let k = choose|k: int| 0 <= k < new.len() && new[k] == hwnd;
        assert(all[outgoing.len() + k] == hwnd);
    }
    if all.contains(hwnd) {
        let k = choose|k: int| 0 <= k < all.len() && all[k] == hwnd;
        if k < outgoing.len() {
            assert(outgoing[k] == hwnd);
        } else {
            assert(new[k - outgoing.len()] == hwnd);
        }
    }
}

/// Every window that leaves or enters takes part in the slide, and no other does. A window that
/// enters is incoming in exactly one place, the first, even if it leaves as well; a window that
/// does not enter is incoming nowhere. Each starts out cloaked and without a ghost.
pub proof fn law_every_window_takes_part(
    outgoing: Seq<isize>,
    incoming: Seq<isize>,
    floating: Set<isize>,
    outer: Map<isize, Rect>,
    hwnd: isize,
)
    ensures
        ({
            let windows = tracked_windows(outgoing, incoming, floating, outer);
            &&& hwnds_of(windows).contains(hwnd) <==> outgoing.contains(hwnd) || incoming.contains(
                hwnd,
            )
            &&& incoming.contains(hwnd) ==> exists|i: int|
                #![trigger windows[i]]
                0 <= i < windows.len() && windows[i].hwnd == hwnd && windows[i].incoming
            &&& forall|i: int, j: int|
                0 <= i < windows.len() && 0 <= j < windows.len() && (#[trigger] windows[i]).incoming
                    && (#[trigger] windows[j]).incoming && windows[i].hwnd == windows[j].hwnd ==> i
                    == j
            &&& forall|i: int|
                0 <= i < windows.len() ==> {
                    let window = #[trigger] windows[i];
                    &&& window.incoming <==> incoming.contains(window.hwnd) && forall|j: int|
                        0 <= j < i ==> (#[trigger] windows[j]).hwnd != window.hwnd
                    &&& window.floating == floating.contains(window.hwnd)
                    &&& outer.contains_key(window.hwnd) ==> window.outer == Some(outer[window.hwnd])
                    &&& !outer.contains_key(window.hwnd) ==> window.outer is None
                    &&& window.cloaked && window.ghost_window is None && !window.active
                }
        }),
{
    let windows = tracked_windows(outgoing, incoming, floating, outer);
    let hwnds = participants(outgoing, incoming);
    lemma_participants(outgoing, incoming, hwnd);
    assert(hwnds_of(windows) =~= hwnds);
    if incoming.contains(hwnd) {
        let k = choose|k: int| 0 <= k < hwnds.len() && hwnds[k] == hwnd;
        let i = lemma_first_occurrence(hwnds, k);
        assert(windows[i].hwnd == hwnd && windows[i].incoming);
    }
    assert forall|i: int, j: int|
        0 <= i < windows.len() && 0 <= j < windows.len() && (#[trigger] windows[i]).incoming && (
        #[trigger] windows[j]).incoming && windows[i].hwnd == windows[j].hwnd implies i == j by {
        assert(is_first(hwnds, i) && is_first(hwnds, j));
        assert(hwnds[i] == hwnds[j]);
    }
    assert forall|i: int| 0 <= i < windows.len() implies {
        (#[trigger] windows[i]).incoming <==> incoming.contains(windows[i].hwnd) && forall|j: int|
            0 <= j < i ==> (#[trigger] windows[j]).hwnd != windows[i].hwnd
    } by {
        assert(forall|j: int| 0 <= j < i ==> (#[trigger] windows[j]).hwnd == hwnds[j]);
        if forall|j: int| 0 <= j < i ==> (#[trigger] windows[j]).hwnd != windows[i].hwnd {
            assert forall|j: int| 0 <= j < i implies hwnds[j] != hwnds[i] by {
                assert(windows[j].hwnd == hwnds[j]);
            }
        }
    }
}

/// What occurs has a first occurrence.
proof fn lemma_first_occurrence(hwnds: Seq<isize>, k: int) -> (i: int)
    requires
        0 <= k < hwnds.len(),
    ensures
        0 <= i <= k,
        hwnds[i] == hwnds[k],
        is_first(hwnds, i),
    decreases k,
{
    if is_first(hwnds, k) {
        k
    } else {
        let j = choose|j: int| 0 <= j < k && hwnds[j] == hwnds[k];
        lemma_first_occurrence(hwnds, j)
    }
}

/// A slide that no other has taken a window from owns every one of its windows when it finishes.
pub proof fn law_unchallenged_slide_owns_its_windows(
    slide: SlideModel,
    outgoing: Seq<isize>,
    incoming: Seq<isize>,
    state: SlideStateModel,
    duration: u128,
    clock: Clock,
    hwnd: isize,
)
    requires
        slide.slide_id == state.next_slide_id,
        hwnds_of(slide.windows) == participants(outgoing, incoming),
    ensures
        slide.owns(slide_started(state, outgoing + incoming, duration, clock).driven).contains(hwnd)
            <==> outgoing.contains(hwnd) || incoming.contains(hwnd),
{
    lemma_participants(outgoing, incoming, hwnd);
    if outgoing.contains(hwnd) {
        let k = choose|k: int| 0 <= k < outgoing.len() && outgoing[k] == hwnd;
        assert((outgoing + incoming)[k] == hwnd);
    }
    if incoming.contains(hwnd) {
        let k = choose|k: int| 0 <= k < incoming.len() && incoming[k] == hwnd;
        assert((outgoing + incoming)[outgoing.len() + k] == hwnd);
    }
}

/// A newer slide takes its windows over: the older one no longer owns them when it finishes, and
/// still owns what the newer one did not take. The newer slide has an id of its own.
pub proof fn law_newer_slide_takes_over(
    older: SlideModel,
    state: SlideStateModel,
    hwnds: Seq<isize>,
    duration: u128,
    clock: Clock,
    hwnd: isize,
)
    requires
        older.slide_id != state.next_slide_id,
    ensures
        ({
            let started = slide_started(state, hwnds, duration, clock);
            &&& hwnds.contains(hwnd) ==> !older.owns(started.driven).contains(hwnd)
            &&& !hwnds.contains(hwnd) ==> older.owns(started.driven).contains(hwnd) == older.owns(
                state.driven,
            ).contains(hwnd)
            &&& started.next_slide_id != state.next_slide_id
        }),
{
}

/// The events of a slide's windows are ignored for as long as the slide may run and a while longer,
/// counted from when it is prepared, and for that while again, counted from when it finishes.
pub proof fn law_slide_events_are_ignored(
    slide: SlideModel,
    state: SlideStateModel,
    clock: Clock,
    hwnd: isize,
    at: u128,
)
    requires
        hwnds_of(slide.windows).contains(hwnd),
        slide.accepts(clock, Answer::Nothing),
        clock.now <= at,
    ensures
        slide.phase is Suppress ==> (is_ignored(slide.next_state(state, clock), hwnd, at) <==> at
            < clock.asked + slide.duration + EVENT_GRACE),
        slide.phase is Begin ==> (is_ignored(slide.next_state(state, clock), hwnd, at) <==> at
            < clock.asked + EVENT_GRACE),
{
}

// ---------------------------------------------------------------------------------------------
// Once
// ---------------------------------------------------------------------------------------------

/// A slide is prepared once and finishes once: asked again, it does nothing to any window, and no
/// step takes it back to before.
pub proof fn law_slide_prepares_and_finishes_once(
    slide: SlideModel,
    move_mouse: bool,
    ending: Ending,
    input: Input,
)
    requires
        slide.wf(),
        slide.accepts(input.clock, input.answer) || slide.phase is Idle,
    ensures
        slide.prepared ==> slide.prepare_start() == (slide, Seq::<SlideCall>::empty()),
        slide.prepare_start().0.prepared,
        slide.settled ==> !(slide.finish_start(move_mouse, ending).0.phase is Begin),
        slide.finish_start(move_mouse, ending).0.settled,
        slide.prepared ==> slide.given(input).0.prepared,
        slide.settled ==> slide.given(input).0.settled,
{
}

} // verus!

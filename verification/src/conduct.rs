//! What a slide does in each of its phases, said of the windows, the calls and the answers
//! themselves.
use vstd::prelude::*;

use crate::course::{lemma_step_changes_one_window, Input};
use crate::dispatcher::{tracked_windows, Ending, Phase, SlideModel, SlideRequest};
use crate::geometry::Rect;
use crate::ghost::{GhostCmd, GhostWindow, RevealOverlay};
use crate::phases::{abandon_calls, hwnds_of, uncover_calls};
use crate::registry::{Clock, SlideStateModel};
use crate::run::slide_started;
use crate::settings::AnimationPrefix;
use crate::window::{
    answers, drop_calls, law_clip_shows_what_the_monitor_shows,
    law_window_is_revealed_in_its_place, reveals_from, Answer, Ask, Settling, SlideCall,
    TrackedWindow,
};

verus! {

impl SlideModel {
    /// The slide was made with the same request and the same id as the other.
    pub open spec fn is_made_like(self, other: SlideModel) -> bool {
        &&& self.slide_id == other.slide_id
        &&& self.monitor_id == other.monitor_id
        &&& self.focus_hwnd == other.focus_hwnd
        &&& self.mouse_follows_focus == other.mouse_follows_focus
        &&& self.offset == other.offset
        &&& self.monitor_bounds == other.monitor_bounds
        &&& self.duration == other.duration
        &&& self.incoming_from == other.incoming_from
    }
}

/// A new slide is the one that was requested, and nothing has happened to it yet.
pub proof fn law_slide_is_the_one_requested(request: SlideRequest, slide_id: usize)
    ensures
        ({
            let slide = request.slide(slide_id);
            &&& slide.slide_id == slide_id
            &&& slide.monitor_id == request.monitor_id
            &&& slide.focus_hwnd == request.focus_hwnd
            &&& slide.mouse_follows_focus == request.mouse_follows_focus
            &&& slide.offset == request.offset
            &&& slide.monitor_bounds == request.monitor_bounds
            &&& slide.duration == request.duration
            &&& slide.incoming_from == request.incoming_from@
            &&& slide.windows == tracked_windows(
                request.outgoing@,
                request.incoming@,
                request.floating@,
                request.floating_outer@,
            )
            &&& slide.owned == Set::<isize>::empty() && !slide.move_mouse
            &&& !slide.prepared && !slide.settled && !slide.borders_suppressed
            &&& slide.opening.len() == 0 && slide.overlays.len() == 0
            &&& slide.phase is Idle && slide.ending is Plain
        }),
{
}

/// A slide that begins counts as running, takes an id that no slide before it had last, drives
/// every window that leaves or enters, and has their events ignored until one and a half seconds
/// after it may have ended. Nothing else changes.
pub proof fn law_started_slide_is_counted(
    state: SlideStateModel,
    hwnds: Seq<isize>,
    duration: u128,
    clock: Clock,
    hwnd: isize,
)
    requires
        clock.asked + duration + 1_500_000_000 <= u128::MAX,
    ensures
        ({
            let started = slide_started(state, hwnds, duration, clock);
            &&& state.active < usize::MAX ==> started.active == state.active + 1
            &&& state.next_slide_id < usize::MAX ==> started.next_slide_id == state.next_slide_id
                + 1
            &&& started.settle_requests == state.settle_requests
            &&& started.instant_position == state.instant_position
            &&& hwnds.contains(hwnd) ==> {
                &&& started.driven.contains_key(hwnd)
                &&& started.driven[hwnd] == state.next_slide_id
                &&& started.ignored_events.contains_key(hwnd)
                &&& started.ignored_events[hwnd] == clock.asked + duration + 1_500_000_000
            }
            &&& !hwnds.contains(hwnd) ==> {
                &&& started.driven.contains_key(hwnd) == state.driven.contains_key(hwnd)
                &&& state.driven.contains_key(hwnd) ==> started.driven[hwnd] == state.driven[hwnd]
            }
        }),
{
}

/// Preparing begins with the stack bars out of the way and the borders hidden, once.
pub proof fn law_preparing_clears_the_desktop(slide: SlideModel)
    ensures
        ({
            let (after, calls) = slide.prepare_start();
            &&& !slide.prepared ==> {
                &&& calls == seq![
                    SlideCall::DisableStackbar { disabled: true },
                    SlideCall::NotifyStackbar,
                    SlideCall::SuppressBorders,
                ]
                &&& after.prepared && after.borders_suppressed && after.phase is Suppress
            }
            &&& slide.prepared ==> calls.len() == 0 && after == slide
            &&& after.windows == slide.windows && after.settled == slide.settled
            &&& after.overlays == slide.overlays && after.opening == slide.opening
        }),
{
}

/// Every question of a slide is about the window whose turn it is: its own rects, a ghost of it that
/// starts hidden where the window starts, and a cover of it where it ends. The cursor goes by the
/// focused window, and the managers by the animations that they share the screen with.
pub proof fn law_slide_asks_about_the_window_in_turn(slide: SlideModel)
    requires
        slide.wf(),
    ensures
        slide.phase is Idle <==> slide.asked() is Finished,
        slide.phase matches Phase::Rect { index, read } ==> slide.asked() == read.asked(),
        slide.phase matches Phase::Outer { index, .. } ==> slide.asked() == (Ask::OuterRect {
            hwnd: slide.windows[index as int].hwnd,
        }),
        slide.phase matches Phase::Create { index } ==> slide.asked() == (Ask::CreateGhost {
            cmd: GhostCmd::Create {
                src_hwnd: slide.windows[index as int].hwnd,
                start_rect: slide.windows[index as int].start,
                z_above: Some(slide.windows[index as int].hwnd),
                visible: false,
            },
        }),
        slide.phase matches Phase::Unready { index, settling } ==> slide.asked()
            == slide.windows[index as int].settling_asks(settling),
        slide.phase matches Phase::Clearing { index, settling } ==> slide.asked()
            == slide.windows[index as int].settling_asks(settling),
        slide.phase is Cursor ==> slide.asked() == (Ask::WindowRect { hwnd: slide.focus_hwnd->0 }),
        slide.phase is BusyWorkspace ==> slide.asked() == (Ask::InProgress {
            prefix: AnimationPrefix::Workspace,
        }),
        slide.phase is BusyMovement ==> slide.asked() == (Ask::InProgress {
            prefix: AnimationPrefix::Movement,
        }),
        slide.phase is Foreground ==> slide.asked() is Foreground,
        slide.phase is Suppress || slide.phase is Look || slide.phase is Opened || slide.phase
            is Begin || slide.phase is Cover || slide.phase is Clear || slide.phase is Release
            || slide.phase is FadeStart || slide.phase is Fading ==> slide.asked() is Nothing,
{
}

/// What a slide was made with never changes, whatever step it takes, and every other part of it
/// changes only in the phase that is about it.
pub proof fn law_slide_keeps_what_it_was_made_with(
    slide: SlideModel,
    input: Input,
    move_mouse: bool,
    ending: Ending,
)
    requires
        slide.wf(),
        slide.windows.len() <= usize::MAX,
        slide.accepts(input.clock, input.answer),
    ensures
        slide.given(input).0.is_made_like(slide),
        slide.prepare_start().0.is_made_like(slide),
        slide.finish_start(move_mouse, ending).0.is_made_like(slide),
        slide.finalise_start().is_made_like(slide),
        ({
            let after = slide.given(input).0;
            &&& after.windows.len() == slide.windows.len()
            &&& after.prepared == slide.prepared
            &&& !(slide.phase is Opened) ==> after.settled == slide.settled && after.move_mouse
                == slide.move_mouse
            &&& !(slide.phase is Release) ==> after.borders_suppressed == slide.borders_suppressed
            &&& !(slide.phase is Begin) ==> after.owned == slide.owned
            &&& !(slide.phase is Create || slide.phase is Look) ==> after.opening == slide.opening
            &&& !(slide.phase is Overlay || slide.phase is Fading) ==> after.overlays
                == slide.overlays
            &&& !(slide.phase is Opened || slide.phase is BusyWorkspace || slide.phase
                is BusyMovement || slide.phase is Foreground) ==> after.ending == slide.ending
        }),
{
}

/// The number is one of `i32`.
pub open spec fn is_in_range(x: int) -> bool {
    -0x8000_0000 <= x <= 0x7fff_ffff
}

/// A slide goes on with any answer of the kind that it asks for. It refuses one only where a
/// deadline, a shifted rect, a border or the corner of a clip cannot be named.
pub proof fn law_slide_goes_on_unless_out_of_range(slide: SlideModel, clock: Clock, answer: Answer)
    requires
        slide.wf(),
        answers(slide.asked(), answer),
        !slide.accepts(clock, answer),
    ensures
        match (slide.phase, answer) {
            (Phase::Suppress, _) => clock.asked + slide.duration + 1_500_000_000 > u128::MAX,
            (Phase::Begin, _) => clock.asked + 1_500_000_000 > u128::MAX,
            (Phase::Outer { index, rect }, Answer::Area(outer)) => {
                let window = slide.windows[index as int];
                let from = if slide.incoming_from.contains_key(window.hwnd) {
                    slide.incoming_from[window.hwnd]
                } else {
                    rect
                };
                ||| window.incoming && !is_in_range(from.left + slide.offset)
                ||| !window.incoming && !(is_in_range(-slide.offset) && is_in_range(
                    rect.left - slide.offset,
                ))
                ||| outer matches Some(outer) && !(is_in_range(rect.left - outer.left)
                    && is_in_range(rect.top - outer.top))
            },
            (Phase::Create { index }, Answer::Created(made)) => made is Some
                && !slide.windows[index as int].shown_fits(
                slide.windows[index as int].start,
                slide.monitor_bounds,
            ),
            (Phase::Cover { index }, _) => {
                let window = slide.windows[index as int];
                &&& index < slide.windows.len() && window.incoming && window.ghost_window is Some
                &&& !window.shown_fits(window.target, slide.monitor_bounds)
            },
            _ => false,
        },
{
}

/// The cover of a window is made of that window, and lies on exactly the pixels of the monitor that
/// the window has when it has arrived.
pub proof fn law_cover_lies_on_the_arrived_window(slide: SlideModel, index: usize, x: int, y: int)
    requires
        slide.wf(),
        slide.phase == (Phase::Overlay { index }),
        x < i32::MAX,
        y < i32::MAX,
    ensures
        slide.asked() matches Ask::CreateOverlay { cmd: GhostCmd::CreateOverlay { src_hwnd, clip } }
            && {
            let window = slide.windows[index as int];
            &&& src_hwnd == window.hwnd
            &&& clip.host_hwnd == window.ghost_window->0.host_hwnd
            &&& clip.hthumb == window.ghost_window->0.hthumb
            &&& match clip.host {
                Some(host) => host.covers(x, y) <==> window.target.covers(x, y)
                    && slide.monitor_bounds.covers(x, y),
                None => !(window.target.covers(x, y) && slide.monitor_bounds.covers(x, y)),
            }
        },
{
    let window = slide.windows[index as int];
    law_clip_shows_what_the_monitor_shows(
        window,
        window.ghost_window->0,
        window.target,
        slide.monitor_bounds,
        x,
        y,
    );
}

/// Preparing looks at every window in order: its rect first, then its border, then its ghost. The
/// rect that is read is the one that the slide goes by. The opening frame goes out when no window is
/// left, and at no other time.
pub proof fn law_preparing_looks_at_every_window(slide: SlideModel, input: Input)
    requires
        slide.wf(),
        slide.windows.len() <= usize::MAX,
        slide.accepts(input.clock, input.answer),
    ensures
        ({
            let (after, calls) = slide.given(input);
            &&& slide.phase is Suppress ==> after.phase == (Phase::Look { index: 0 })
                && calls.len() == 0 && after.windows == slide.windows
            &&& slide.phase matches Phase::Look { index } ==> {
                &&& calls.len() == 0 && after.windows == slide.windows
                &&& index < slide.windows.len() ==> after.asked() == (Ask::WindowRect {
                    hwnd: slide.windows[index as int].hwnd,
                }) && (after.phase matches Phase::Rect { index: same, .. } && same == index)
                &&& index == slide.windows.len() ==> after.phase is Opened && slide.next_frame()
                    == slide.opening && after.opening.len() == 0
            }
            &&& slide.phase matches Phase::Rect { index, read } ==> {
                let shown = input.answer matches Answer::Area(Some(rect)) && rect.left > -30_000
                    && rect.top > -30_000;
                &&& shown ==> after.phase == (Phase::Outer {
                    index,
                    rect: input.answer->Area_0->0,
                }) && calls.len() == 0 && after.windows == slide.windows
                &&& !shown ==> !(after.phase is Outer)
                &&& !shown && read is Second ==> !(after.phase is Rect)
                &&& input.answer matches Answer::Area(None) ==> !(after.phase is Rect)
            }
            &&& (slide.phase matches Phase::Look { index } && index == slide.windows.len())
                || slide.next_frame().len() == 0
        }),
{
}

/// A window that is measured is cloaked before its ghost is asked for. Its invisible border is what
/// its frame lies inside of its outer rect, and unknown where that is unknown. Nothing else changes
/// but where it starts and where it goes.
pub proof fn law_measured_window_is_cloaked(
    slide: SlideModel,
    input: Input,
    index: usize,
    rect: Rect,
)
    requires
        slide.wf(),
        slide.phase == (Phase::Outer { index, rect }),
        slide.accepts(input.clock, input.answer),
    ensures
        ({
            let (after, calls) = slide.given(input);
            let (window, was) = (after.windows[index as int], slide.windows[index as int]);
            &&& after.phase == (Phase::Create { index })
            &&& calls == seq![SlideCall::SetCloak { hwnd: was.hwnd, kind: 1, value: 2 }]
            &&& window.cloaked
            &&& window == (TrackedWindow {
                start: window.start,
                target: window.target,
                source_offset: window.source_offset,
                cloaked: true,
                ..was
            })
            &&& match input.answer->Area_0 {
                Some(outer) => {
                    &&& window.source_offset.0 >= 0 && window.source_offset.1 >= 0
                    &&& rect.left >= outer.left ==> outer.left + window.source_offset.0 == rect.left
                    &&& rect.left < outer.left ==> window.source_offset.0 == 0
                    &&& rect.top >= outer.top ==> outer.top + window.source_offset.1 == rect.top
                    &&& rect.top < outer.top ==> window.source_offset.1 == 0
                },
                None => window.source_offset == was.source_offset,
            }
            &&& !was.incoming ==> window.start == rect && window.target.left == rect.left
                - slide.offset
            &&& was.incoming && !was.floating ==> window.target == rect
            &&& was.incoming && slide.incoming_from.contains_key(was.hwnd) ==> {
                &&& window.start.left == slide.incoming_from[was.hwnd].left + slide.offset
                &&& was.floating ==> window.target == slide.incoming_from[was.hwnd]
            }
            &&& was.incoming && !slide.incoming_from.contains_key(was.hwnd) ==> {
                &&& window.start.left == rect.left + slide.offset
                &&& window.target == rect
            }
            &&& forall|i: int|
                0 <= i < slide.windows.len() && i != index ==> #[trigger] after.windows[i]
                    == slide.windows[i]
        }),
{
}

/// The ghost that the owner made is the one that the window gets, as it was made; the opening frame
/// shows it where the window starts. Without a ghost the window does not slide.
pub proof fn law_window_gets_the_ghost_that_was_made(
    slide: SlideModel,
    input: Input,
    index: usize,
    x: int,
    y: int,
)
    requires
        slide.wf(),
        slide.windows.len() <= usize::MAX,
        slide.phase == (Phase::Create { index }),
        slide.accepts(input.clock, input.answer),
        x < i32::MAX,
        y < i32::MAX,
    ensures
        ({
            let (after, calls) = slide.given(input);
            let (window, was) = (after.windows[index as int], slide.windows[index as int]);
            match input.answer->Created_0 {
                Some((host_hwnd, hthumb)) => {
                    &&& window == (TrackedWindow {
                        active: true,
                        ghost_window: Some(GhostWindow { host_hwnd, hthumb, disposed: false }),
                        ..was
                    })
                    &&& after.phase == (Phase::Look { index: (index + 1) as usize })
                    &&& calls.len() == 0
                    &&& after.opening.len() == slide.opening.len() + 1
                    &&& after.opening.drop_last() == slide.opening
                    &&& ({
                        let clip = after.opening.last();
                        &&& clip.host_hwnd == host_hwnd && clip.hthumb == hthumb
                        &&& match clip.host {
                            Some(host) => host.covers(x, y) <==> was.start.covers(x, y)
                                && slide.monitor_bounds.covers(x, y),
                            None => !(was.start.covers(x, y) && slide.monitor_bounds.covers(x, y)),
                        }
                    })
                },
                None => {
                    &&& window.ghost_window is None && !window.active
                    &&& after.opening == slide.opening
                    &&& after.phase is Unready || after.phase is Look
                },
            }
        }),
{
    if let Some((host_hwnd, hthumb)) = input.answer->Created_0 {
        let was = slide.windows[index as int];
        let made = GhostWindow { host_hwnd, hthumb, disposed: false };
        law_clip_shows_what_the_monitor_shows(was, made, was.start, slide.monitor_bounds, x, y);
        let after = slide.given(input).0;
        assert(after.opening.drop_last() =~= slide.opening);
    }
    lemma_step_changes_one_window(slide, input);
}

/// A slide that was prepared waits for its frames if any window slides, and finishes at once, with
/// everything that belongs to it, if none does.
pub proof fn law_prepared_slide_waits_for_its_frames(slide: SlideModel, input: Input)
    requires
        slide.wf(),
        slide.phase is Opened,
    ensures
        ({
            let (after, calls) = slide.given(input);
            let slides = exists|i: int|
                0 <= i < slide.windows.len() && (#[trigger] slide.windows[i]).ghost_window is Some;
            &&& calls.len() == 0 || slide.settled
            &&& after.windows == slide.windows
            &&& slides ==> after.phase is Idle && after.settled == slide.settled
            &&& !slides && !slide.settled ==> after.phase is Begin && after.settled
                && after.move_mouse && after.ending is Plain
        }),
{
    let slides = exists|i: int|
        0 <= i < slide.windows.len() && (#[trigger] slide.windows[i]).ghost_window is Some;
    let active = exists|i: int| 0 <= i < slide.windows.len() && (#[trigger] slide.windows[i]).active;
    if slides {
        let i = choose|i: int|
            0 <= i < slide.windows.len() && (#[trigger] slide.windows[i]).ghost_window is Some;
        assert(slide.windows[i].active);
    }
    if active {
        let i = choose|i: int| 0 <= i < slide.windows.len() && (#[trigger] slide.windows[i]).active;
        assert(slide.windows[i].ghost_window is Some);
    }
}

/// A slide that is asked to finish finishes if it was prepared and has not finished before, and
/// remembers whether the focus is to move; in any case it counts as settled from then on. What comes
/// after finishing comes then too.
pub proof fn law_finishing_begins_once(slide: SlideModel, move_mouse: bool, ending: Ending)
    ensures
        ({
            let (after, calls) = slide.finish_start(move_mouse, ending);
            &&& after.settled && after.windows == slide.windows && after.overlays == slide.overlays
            &&& after.borders_suppressed == slide.borders_suppressed
            &&& slide.prepared && !slide.settled ==> after.phase is Begin && after.move_mouse
                == move_mouse && after.ending == ending && calls.len() == 0
            &&& !(slide.prepared && !slide.settled) ==> match ending {
                Ending::Plain => after.phase is Idle && calls.len() == 0,
                Ending::Release => after.phase is Idle && calls == seq![SlideCall::ReleaseLock],
                Ending::FinaliseAndRelease => after.phase is BusyWorkspace && after.ending is Release
                    && calls.len() == 0,
            }
            &&& slide.finalise_start().phase is BusyWorkspace
            &&& slide.finalise_start().ending is Plain
            &&& slide.finalise_start().windows == slide.windows
        }),
{
}

/// The windows that a slide owns when it finishes are those of its windows that it still drives. It
/// covers the revealed windows only if the focus moves.
pub proof fn law_finishing_slide_owns_what_it_drives(slide: SlideModel, input: Input, hwnd: isize)
    requires
        slide.phase is Begin,
    ensures
        ({
            let (after, calls) = slide.given(input);
            &&& calls.len() == 0 && after.windows == slide.windows
            &&& after.owned.contains(hwnd) <==> input.driven.contains_key(hwnd)
                && input.driven[hwnd] == slide.slide_id && exists|i: int|
                0 <= i < slide.windows.len() && (#[trigger] slide.windows[i]).hwnd == hwnd
            &&& slide.move_mouse ==> after.phase == (Phase::Cover { index: 0 })
            &&& !slide.move_mouse ==> after.phase == (Phase::Clear { index: 0 })
        }),
{
    lemma_hwnds_of(slide.windows, hwnd);
}

/// A window is among the names of the windows exactly if one of them has that name.
proof fn lemma_hwnds_of(windows: Seq<TrackedWindow>, hwnd: isize)
    ensures
        hwnds_of(windows).contains(hwnd) <==> exists|i: int|
            0 <= i < windows.len() && (#[trigger] windows[i]).hwnd == hwnd,
{
    if hwnds_of(windows).contains(hwnd) {
        let i = choose|i: int| 0 <= i < hwnds_of(windows).len() && hwnds_of(windows)[i] == hwnd;
        assert(windows[i].hwnd == hwnd);
    }
    if exists|i: int| 0 <= i < windows.len() && (#[trigger] windows[i]).hwnd == hwnd {
        let i = choose|i: int| 0 <= i < windows.len() && (#[trigger] windows[i]).hwnd == hwnd;
        assert(hwnds_of(windows)[i] == hwnd);
    }
}

/// Exactly the incoming windows that the slide still owns and has a ghost of are covered, each in
/// its turn. The cover that the owner made is the one that the slide keeps, as it was made. Once
/// every window had its turn, the covers are waited for, if there are any.
pub proof fn law_revealed_windows_are_covered(slide: SlideModel, input: Input)
    requires
        slide.wf(),
        slide.windows.len() <= usize::MAX,
        slide.accepts(input.clock, input.answer),
    ensures
        ({
            let (after, calls) = slide.given(input);
            &&& slide.phase matches Phase::Cover { index } ==> {
                &&& after.windows == slide.windows && after.overlays == slide.overlays
                &&& index == slide.windows.len() ==> {
                    &&& after.phase == (Phase::Clear { index: 0 })
                    &&& slide.overlays.len() > 0 ==> calls == seq![SlideCall::Flush]
                    &&& slide.overlays.len() == 0 ==> calls.len() == 0
                }
                &&& index < slide.windows.len() ==> {
                    let window = slide.windows[index as int];
                    &&& calls.len() == 0
                    &&& if window.incoming && window.ghost_window is Some && slide.owned.contains(
                        window.hwnd,
                    ) {
                        after.phase == (Phase::Overlay { index })
                    } else {
                        after.phase == (Phase::Cover { index: (index + 1) as usize })
                    }
                }
            }
            &&& slide.phase matches Phase::Overlay { index } ==> {
                &&& after.windows == slide.windows && calls.len() == 0
                &&& after.phase == (Phase::Cover { index: (index + 1) as usize })
                &&& match input.answer->Overlaid_0 {
                    Some((host_hwnd, hdesktop, hthumb)) => after.overlays == slide.overlays.push(
                        RevealOverlay { host_hwnd, hdesktop, hthumb, disposed: false },
                    ),
                    None => after.overlays == slide.overlays,
                }
            }
        }),
{
}

/// A window that a newer slide has taken over is left alone: all that happens is that the older
/// slide's ghost of it goes.
pub proof fn law_taken_window_is_left_alone(slide: SlideModel, input: Input, index: usize)
    requires
        slide.wf(),
        slide.windows.len() <= usize::MAX,
        slide.phase == (Phase::Clear { index }),
        index < slide.windows.len(),
        !slide.owned.contains(slide.windows[index as int].hwnd),
    ensures
        ({
            let (after, calls) = slide.given(input);
            let (window, was) = (after.windows[index as int], slide.windows[index as int]);
            &&& window == (TrackedWindow { active: false, ghost_window: None, ..was })
            &&& match was.ghost_window {
                Some(ghost) => calls == seq![
                    SlideCall::Send {
                        cmd: GhostCmd::Destroy { host_hwnd: ghost.host_hwnd, hthumb: ghost.hthumb },
                    },
                ],
                None => calls.len() == 0,
            }
            &&& after.phase == (Phase::Clear { index: (index + 1) as usize })
        }),
{
}

/// When the windows are back, the borders come back if they were hidden, and the focus goes to its
/// window if the slide is to move it and still owns that window, whether or not the cursor follows.
/// The cursor follows, into the middle of that window, exactly if it is to follow.
pub proof fn law_focus_goes_to_its_window(slide: SlideModel, input: Input)
    requires
        slide.wf(),
        slide.accepts(input.clock, input.answer),
    ensures
        ({
            let (after, calls) = slide.given(input);
            let focuses = slide.move_mouse && slide.focus_hwnd is Some && slide.owned.contains(
                slide.focus_hwnd->0,
            );
            &&& slide.phase is Release ==> {
                &&& after.windows == slide.windows && after.overlays == slide.overlays
                &&& calls.len() == (if slide.borders_suppressed {
                    1int
                } else {
                    0int
                }) + (if focuses {
                    1int
                } else {
                    0int
                })
                &&& slide.borders_suppressed ==> calls[0] is RestoreBorders
                &&& !after.borders_suppressed
                &&& focuses ==> calls.last() == (SlideCall::Focus { hwnd: slide.focus_hwnd->0 })
                &&& after.phase is Cursor <==> focuses && slide.mouse_follows_focus
                &&& after.phase is Cursor || after.phase is FadeStart
            }
            &&& slide.phase is Cursor ==> {
                &&& after.phase is FadeStart && after.windows == slide.windows
                &&& input.answer->Area_0 matches Some(rect) ==> calls == seq![
                    SlideCall::CenterCursor { rect },
                ]
                &&& input.answer->Area_0 is None ==> calls.len() == 0
            }
        }),
{
}

/// A fade begins when there is something to fade, at the time of that moment. It takes half the
/// time of the slide, but never more than 200 milliseconds. As long as its time is not up and nobody
/// waits, every overlay that is up gets, on its own host, the alpha of the time that has passed, and
/// a frame is waited for. After that every overlay is taken down.
pub proof fn law_overlays_fade_on_their_hosts(slide: SlideModel, input: Input)
    requires
        slide.wf(),
        slide.accepts(input.clock, input.answer),
    ensures
        ({
            let (after, calls) = slide.given(input);
            let n: nat = slide.overlays.len();
            &&& slide.phase is FadeStart ==> {
                &&& calls.len() == 0 && after.overlays == slide.overlays
                &&& n > 0 ==> after.phase == (Phase::Fading { started: input.clock.now })
                &&& n == 0 ==> after.phase is BusyWorkspace
            }
            &&& slide.phase matches Phase::Fading { started } ==> {
                let passed: int = if input.clock.now >= started {
                    input.clock.now - started
                } else {
                    0
                };
                let whole: int = if slide.duration >= 400_000_000 {
                    200_000_000
                } else {
                    (slide.duration / 2) as int
                };
                if passed < whole && input.settle_requests == 0 {
                    &&& after == slide
                    &&& calls.len() == n + 1
                    &&& calls.last() is Flush
                    &&& forall|i: int|
                        0 <= i < n ==> (#[trigger] calls[i] matches SlideCall::FadeOverlay {
                            hwnd,
                            elapsed,
                            duration,
                        } && hwnd == slide.overlays[i].host_hwnd && elapsed == passed && duration
                            == whole)
                } else {
                    &&& after.phase is BusyWorkspace && after.overlays.len() == 0
                    &&& after.windows == slide.windows
                    &&& calls.len() == n
                    &&& forall|i: int|
                        0 <= i < n ==> #[trigger] calls[i] == (SlideCall::Send {
                            cmd: GhostCmd::DestroyOverlay {
                                host_hwnd: slide.overlays[i].host_hwnd,
                                hdesktop: slide.overlays[i].hdesktop,
                                hthumb: slide.overlays[i].hthumb,
                            },
                        })
                }
            }
        }),
{
}

/// The managers come back only when neither another slide nor a movement is under way. The window
/// in the foreground is announced exactly if it is the focused one; then the stack bars and the
/// transparency come back. In either case what is left to do after finishing is done: the slide lock
/// goes, or the managers get one more turn before it does.
pub proof fn law_managers_come_back_last(slide: SlideModel, input: Input)
    requires
        slide.wf(),
        slide.accepts(input.clock, input.answer),
        slide.phase is BusyWorkspace || slide.phase is BusyMovement || slide.phase is Foreground,
    ensures
        ({
            let (after, calls) = slide.given(input);
            let busy = input.answer == Answer::Flag(true);
            let notify = if slide.phase is Foreground && slide.focus_hwnd == Some(
                input.answer->Handle_0,
            ) {
                seq![SlideCall::NotifyFocus { hwnd: slide.focus_hwnd->0 }]
            } else {
                seq![]
            };
            let back = notify + seq![
                SlideCall::DisableStackbar { disabled: false },
                SlideCall::NotifyStackbar,
                SlideCall::NotifyTransparency,
            ];
            let goes_on = !busy && (slide.phase is BusyWorkspace || slide.phase is BusyMovement
                && slide.focus_hwnd is Some);
            &&& after.windows == slide.windows && after.overlays == slide.overlays
            &&& slide.phase is BusyWorkspace && !busy ==> after.phase is BusyMovement
            &&& slide.phase is BusyMovement && goes_on ==> after.phase is Foreground
            &&& goes_on ==> calls.len() == 0 && after.ending == slide.ending
            &&& !goes_on ==> {
                let said = if busy {
                    seq![]
                } else {
                    back
                };
                match slide.ending {
                    Ending::Plain => calls == said && after.phase is Idle,
                    Ending::Release => calls == said.push(SlideCall::ReleaseLock) && after.phase
                        is Idle,
                    Ending::FinaliseAndRelease => calls == said && after.phase is BusyWorkspace
                        && after.ending is Release,
                }
            }
        }),
{
    let (after, calls) = slide.given(input);
    let notify = if slide.phase is Foreground && slide.focus_hwnd == Some(input.answer->Handle_0) {
        seq![SlideCall::NotifyFocus { hwnd: slide.focus_hwnd->0 }]
    } else {
        seq![]
    };
    let back = notify + seq![
        SlideCall::DisableStackbar { disabled: false },
        SlideCall::NotifyStackbar,
        SlideCall::NotifyTransparency,
    ];
    if !(input.answer == Answer::Flag(true)) {
        match slide.ending {
            Ending::Release => {
                if after.phase is Idle {
                    assert(calls =~= back.push(SlideCall::ReleaseLock));
                }
            },
            _ => {
                if after.phase is Idle || after.phase is BusyWorkspace {
                    assert(calls =~= back);
                }
            },
        }
    } else {
        if slide.ending is Release {
            assert(calls =~= Seq::<SlideCall>::empty().push(SlideCall::ReleaseLock));
        }
    }
}

/// A window whose rect cannot be read, or that gets no ghost, is put back while the slide prepares,
/// and a window that the slide still owns is put back when it finishes, in the same way: an outgoing
/// one is hidden at once, an incoming one is looked at to put it in its place, and one that has no
/// place to be put in is revealed where it is.
pub proof fn law_window_is_put_back_at_once(slide: SlideModel, input: Input, index: usize)
    requires
        slide.wf(),
        slide.windows.len() <= usize::MAX,
        slide.accepts(input.clock, input.answer),
        index < slide.windows.len(),
        ({
            ||| slide.phase matches Phase::Rect { index: at, .. } && at == index && input.answer
                == Answer::Area(None)
            ||| slide.phase == (Phase::Create { index }) && input.answer == Answer::Created(None)
            ||| slide.phase == (Phase::Clear { index }) && slide.owned.contains(
                slide.windows[index as int].hwnd,
            )
        }),
    ensures
        ({
            let window = slide.windows[index as int];
            let (after, calls) = slide.given(input);
            let place = if window.floating {
                Ask::OuterRect { hwnd: window.hwnd }
            } else {
                Ask::IsMaximized { hwnd: window.hwnd }
            };
            let next: usize = (index + 1) as usize;
            if window.incoming && window.floating && window.outer is None {
                &&& reveals_from(window, calls, 0)
                &&& after.phase == if slide.phase is Clear {
                    Phase::Clear { index: next }
                } else {
                    Phase::Look { index: next }
                }
                &&& after.windows == slide.windows.update(
                    index as int,
                    (TrackedWindow { cloaked: false, active: false, ghost_window: None, ..window }),
                )
            } else {
                &&& after.windows == slide.windows
                &&& match after.phase {
                    Phase::Clearing { index: at, .. } => slide.phase is Clear && at == index,
                    Phase::Unready { index: at, .. } => !(slide.phase is Clear) && at == index,
                    _ => false,
                }
                &&& window.incoming ==> calls.len() == 0 && after.asked() == place
                &&& !window.incoming ==> calls == seq![SlideCall::Hide { hwnd: window.hwnd }]
                    && after.asked() is CloakHides
            }
        }),
{
    let after = slide.given(input).0;
    let window = slide.windows[index as int];
    assert(window.ghost_window matches Some(ghost) ==> !ghost.disposed);
    law_window_is_revealed_in_its_place(window, None, true);
    assert(slide.windows.update(index as int, window) =~= slide.windows);
}

/// A window that is being put back goes on being put back, and the slide turns to the next one
/// exactly when that is done.
pub proof fn law_put_back_window_is_left_behind(slide: SlideModel, input: Input, index: usize)
    requires
        slide.wf(),
        slide.windows.len() <= usize::MAX,
        slide.accepts(input.clock, input.answer),
        ({
            ||| slide.phase matches Phase::Unready { index: at, .. } && at == index
            ||| slide.phase matches Phase::Clearing { index: at, .. } && at == index
        }),
    ensures
        ({
            let settling = match slide.phase {
                Phase::Unready { settling, .. } => settling,
                Phase::Clearing { settling, .. } => settling,
                _ => Settling::Settled,
            };
            let (window, stage, moves) = slide.windows[index as int].settle_next(
                settling,
                input.answer,
            );
            let (after, calls) = slide.given(input);
            let next: usize = (index + 1) as usize;
            &&& calls == moves
            &&& after.windows == slide.windows.update(index as int, window)
            &&& after.overlays == slide.overlays && after.opening == slide.opening
            &&& match (slide.phase, stage) {
                (Phase::Unready { .. }, Settling::Settled) => after.phase == (Phase::Look {
                    index: next,
                }),
                (Phase::Unready { .. }, _) => after.phase == (Phase::Unready {
                    index,
                    settling: stage,
                }),
                (_, Settling::Settled) => after.phase == (Phase::Clear { index: next }),
                _ => after.phase == (Phase::Clearing { index, settling: stage }),
            }
        }),
{
}

/// When every window is back the slide lets go of them, with no call of its own; and not before.
pub proof fn law_slide_lets_go_when_every_window_is_back(slide: SlideModel, input: Input)
    requires
        slide.wf(),
        slide.windows.len() <= usize::MAX,
        slide.accepts(input.clock, input.answer),
    ensures
        slide.given(input).0.phase is Release <==> (slide.phase matches Phase::Clear { index }
            && index >= slide.windows.len()),
        slide.given(input).0.phase is Release ==> slide.given(input).1.len() == 0
            && slide.given(input).0.windows == slide.windows,
{
}

/// A slide touches the shared state three times: it has the events of its windows ignored when it is
/// prepared and again when it finishes, and it lets go of the windows that it still drives, and of
/// its place in the count, when they are back.
pub proof fn law_slide_touches_the_state_three_times(
    slide: SlideModel,
    state: SlideStateModel,
    clock: Clock,
    index: int,
    hwnd: isize,
)
    requires
        clock.asked + slide.duration + 1_500_000_000 <= u128::MAX,
        0 <= index < slide.windows.len(),
    ensures
        ({
            let after = slide.next_state(state, clock);
            let window = slide.windows[index].hwnd;
            &&& after.next_slide_id == state.next_slide_id
            &&& after.settle_requests == state.settle_requests
            &&& after.instant_position == state.instant_position
            &&& slide.phase is Suppress ==> {
                &&& after.ignored_events.contains_key(window)
                &&& after.ignored_events[window] == clock.asked + slide.duration + 1_500_000_000
            }
            &&& slide.phase is Begin ==> {
                &&& after.ignored_events.contains_key(window)
                &&& after.ignored_events[window] == clock.asked + 1_500_000_000
            }
            &&& slide.phase is Release ==> {
                &&& state.active > 0 ==> after.active == state.active - 1
                &&& state.active == 0 ==> after.active == 0
                &&& after.ignored_events == state.ignored_events
                &&& !(after.driven.contains_key(window) && after.driven[window] == slide.slide_id)
                &&& state.driven.contains_key(hwnd) && state.driven[hwnd] != slide.slide_id
                    ==> after.driven.contains_key(hwnd) && after.driven[hwnd] == state.driven[hwnd]
                &&& after.driven.contains_key(hwnd) ==> state.driven.contains_key(hwnd)
            }
            &&& !(slide.phase is Release) ==> after.active == state.active && after.driven
                == state.driven
            &&& !(slide.phase is Suppress || slide.phase is Begin || slide.phase is Release)
                ==> after == state
        }),
{
    lemma_hwnds_of(slide.windows, slide.windows[index].hwnd);
}

/// Whatever phase its run broke off in, an interrupted slide takes its overlays down and stands
/// still; its windows, and whether it was prepared or has settled, stay as they are. One that goes
/// away takes its ghosts down, in the order of its windows.
pub proof fn law_broken_off_slide_stands_still(slide: SlideModel, i: int)
    requires
        slide.wf(),
    ensures
        ({
            let after = slide.interrupted();
            let calls = uncover_calls(slide.overlays);
            &&& after.phase is Idle && after.overlays.len() == 0
            &&& after.windows == slide.windows && after.owned == slide.owned
            &&& after.prepared == slide.prepared && after.settled == slide.settled
            &&& after.borders_suppressed == slide.borders_suppressed
            &&& after.slide_id == slide.slide_id && after.focus_hwnd == slide.focus_hwnd
            &&& after.monitor_bounds == slide.monitor_bounds && after.offset == slide.offset
            &&& after.duration == slide.duration && after.incoming_from == slide.incoming_from
            &&& after.ending is Plain && after.opening.len() == 0
            &&& calls.len() == slide.overlays.len()
            &&& 0 <= i < calls.len() ==> calls[i] == (SlideCall::Send {
                cmd: GhostCmd::DestroyOverlay {
                    host_hwnd: slide.overlays[i].host_hwnd,
                    hdesktop: slide.overlays[i].hdesktop,
                    hthumb: slide.overlays[i].hthumb,
                },
            })
        }),
        ({
            let after = slide.abandoned();
            &&& after.windows.len() == slide.windows.len()
            &&& 0 <= i < after.windows.len() ==> after.windows[i] == (TrackedWindow {
                active: false,
                ghost_window: None,
                ..slide.windows[i]
            })
            &&& after.phase == slide.phase && after.settled == slide.settled
            &&& abandon_calls(slide.windows) == slide.windows.filter(
                |window: TrackedWindow| window.ghost_window is Some,
            ).map_values(
                |window: TrackedWindow|
                    SlideCall::Send {
                        cmd: GhostCmd::Destroy {
                            host_hwnd: window.ghost_window->0.host_hwnd,
                            hthumb: window.ghost_window->0.hthumb,
                        },
                    },
            )
            &&& 0 <= i < slide.windows.len() && slide.windows[i].ghost_window is Some
                ==> abandon_calls(slide.windows).contains(
                SlideCall::Send {
                    cmd: GhostCmd::Destroy {
                        host_hwnd: slide.windows[i].ghost_window->0.host_hwnd,
                        hthumb: slide.windows[i].ghost_window->0.hthumb,
                    },
                },
            )
        }),
{
    lemma_abandon_keeps_the_order(slide.windows);
    if 0 <= i < slide.windows.len() && slide.windows[i].ghost_window is Some {
        lemma_abandon_takes_each_down(slide.windows, i);
    }
}

proof fn lemma_abandon_keeps_the_order(windows: Seq<TrackedWindow>)
    requires
        forall|i: int|
            0 <= i < windows.len() ==> ((#[trigger] windows[i]).ghost_window matches Some(ghost)
                ==> !ghost.disposed),
    ensures
        abandon_calls(windows) == windows.filter(
            |window: TrackedWindow| window.ghost_window is Some,
        ).map_values(
            |window: TrackedWindow|
                SlideCall::Send {
                    cmd: GhostCmd::Destroy {
                        host_hwnd: window.ghost_window->0.host_hwnd,
                        hthumb: window.ghost_window->0.hthumb,
                    },
                },
        ),
    decreases windows.len(),
{
    reveal(Seq::filter);
    if windows.len() > 0 {
        let before = windows.drop_last();
        assert forall|i: int| 0 <= i < before.len() implies ((
        #[trigger] before[i]).ghost_window matches Some(ghost) ==> !ghost.disposed) by {
            assert(before[i] == windows[i]);
        }
        lemma_abandon_keeps_the_order(before);
        assert(windows.last() == windows[windows.len() - 1]);
    }
}

proof fn lemma_abandon_takes_each_down(windows: Seq<TrackedWindow>, i: int)
    requires
        0 <= i < windows.len(),
        windows[i].ghost_window matches Some(ghost) && !ghost.disposed,
    ensures
        abandon_calls(windows).contains(
            SlideCall::Send {
                cmd: GhostCmd::Destroy {
                    host_hwnd: windows[i].ghost_window->0.host_hwnd,
                    hthumb: windows[i].ghost_window->0.hthumb,
                },
            },
        ),
    decreases windows.len(),
{
    let call = SlideCall::Send {
        cmd: GhostCmd::Destroy {
            host_hwnd: windows[i].ghost_window->0.host_hwnd,
            hthumb: windows[i].ghost_window->0.hthumb,
        },
    };
    let (before, last) = (
        abandon_calls(windows.drop_last()),
        drop_calls(windows.last().ghost_window),
    );
    if i == windows.len() - 1 {
        assert(last[0] == call);
        assert((before + last)[before.len() as int] == call);
    } else {
        lemma_abandon_takes_each_down(windows.drop_last(), i);
        let k = choose|k: int| 0 <= k < before.len() && before[k] == call;
        assert((before + last)[k] == call);
    }
}

} // verus!

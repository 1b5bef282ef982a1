//! How a slide goes on: what each phase does with the answer to its question.
use vstd::prelude::*;

use crate::dispatcher::{lookup, Ending, Phase, SlideModel, REVEAL_FADE};
use crate::geometry::{fits_i32, larger, Rect};
use crate::ghost::{GhostClip, GhostCmd, GhostWindow, RevealOverlay};
use crate::registry::{
    drives, events_suppressed, released, Clock, SlideStateModel, EVENT_GRACE,
};
use crate::settings::AnimationPrefix;
use crate::window::{
    answers, cloak_call, drop_calls, dropped, Answer, Ask, RectRead, Settling, SlideCall,
    TrackedWindow,
};

verus! {

broadcast use vstd::std_specs::hash::group_hash_axioms;

/// The windows, by name.
pub open spec fn hwnds_of(windows: Seq<TrackedWindow>) -> Seq<isize> {
    windows.map_values(|window: TrackedWindow| window.hwnd)
}

/// How long the overlays of a slide of this duration fade.
pub open spec fn fade_of(duration: u128) -> u128 {
    if duration / 2 <= REVEAL_FADE {
        duration / 2
    } else {
        REVEAL_FADE
    }
}

/// How long a fade has run.
pub open spec fn elapsed_since(started: u128, now: u128) -> u128 {
    if now >= started {
        (now - started) as u128
    } else {
        0
    }
}

/// A fade is over when its time is up, or when another slide waits for this one.
pub open spec fn fade_is_over(elapsed: u128, duration: u128, settle_requests: usize) -> bool {
    duration == 0 || elapsed >= duration || settle_requests > 0
}

/// The calls that set the alpha of every overlay.
pub open spec fn alpha_calls(
    overlays: Seq<RevealOverlay>,
    elapsed: u128,
    duration: u128,
) -> Seq<SlideCall> {
    overlays.map_values(
        |overlay: RevealOverlay|
            SlideCall::FadeOverlay { hwnd: overlay.host_hwnd, elapsed, duration },
    )
}

/// The calls that set the alpha of every overlay and wait for the frame.
pub open spec fn fade_calls(
    overlays: Seq<RevealOverlay>,
    elapsed: u128,
    duration: u128,
) -> Seq<SlideCall> {
    alpha_calls(overlays, elapsed, duration).push(SlideCall::Flush)
}

/// The commands that take the overlays down.
pub open spec fn uncover_calls(overlays: Seq<RevealOverlay>) -> Seq<SlideCall> {
    overlays.map_values(
        |overlay: RevealOverlay|
            SlideCall::Send {
                cmd: GhostCmd::DestroyOverlay {
                    host_hwnd: overlay.host_hwnd,
                    hdesktop: overlay.hdesktop,
                    hthumb: overlay.hthumb,
                },
            },
    )
}

/// The calls that switch the stack bars and the transparency back on.
pub open spec fn finalise_calls() -> Seq<SlideCall> {
    seq![
        SlideCall::DisableStackbar { disabled: false },
        SlideCall::NotifyStackbar,
        SlideCall::NotifyTransparency,
    ]
}

/// The rect that a sliding window comes from: where it was before the layout, or where it is.
pub open spec fn origin_of(incoming_from: Map<isize, Rect>, hwnd: isize, rect: Rect) -> Rect {
    match lookup(incoming_from, hwnd) {
        Some(origin) => origin,
        None => rect,
    }
}

/// The border between the outer rect of a window and its visible frame, where the outer rect is
/// known.
pub open spec fn border_of(rect: Rect, outer: Rect) -> (i32, i32) {
    (
        larger(rect.left - outer.left, 0) as i32,
        larger(rect.top - outer.top, 0) as i32,
    )
}

/// The border between the rects is one of `i32`.
pub open spec fn border_fits(rect: Rect, outer: Rect) -> bool {
    fits_i32(rect.left - outer.left) && fits_i32(rect.top - outer.top)
}

impl SlideModel {
    pub open spec fn at(self, phase: Phase) -> SlideModel {
        SlideModel { phase, ..self }
    }

    pub open spec fn with_window(self, index: int, window: TrackedWindow) -> SlideModel {
        SlideModel { windows: self.windows.update(index, window), ..self }
    }

    /// A window that is ready to slide, with its visible rect and its outer rect, if known. An
    /// incoming tiled window slides from where it was to where the layout put it. A floating one is
    /// not retiled: it slides the rect it already had. An outgoing one leaves by the way that the
    /// incoming ones enter.
    pub open spec fn ready_window(
        self,
        window: TrackedWindow,
        rect: Rect,
        outer: Option<Rect>,
    ) -> TrackedWindow {
        let origin = origin_of(self.incoming_from, window.hwnd, rect);
        TrackedWindow {
            source_offset: match outer {
                Some(outer) => border_of(rect, outer),
                None => window.source_offset,
            },
            start: if window.incoming {
                origin.shifted(self.offset as int)
            } else {
                rect
            },
            target: if !window.incoming {
                rect.shifted(-self.offset)
            } else if window.floating {
                origin
            } else {
                rect
            },
            cloaked: true,
            ..window
        }
    }

    /// The rects of a window that is ready to slide are rects of `i32`.
    pub open spec fn ready_fits(
        self,
        window: TrackedWindow,
        rect: Rect,
        outer: Option<Rect>,
    ) -> bool {
        &&& outer matches Some(outer) ==> border_fits(rect, outer)
        &&& if window.incoming {
            fits_i32(origin_of(self.incoming_from, window.hwnd, rect).left + self.offset)
        } else {
            fits_i32(-self.offset) && fits_i32(rect.left - self.offset)
        }
    }

    /// The command that creates the ghost of a window.
    pub open spec fn create_command(window: TrackedWindow) -> GhostCmd {
        GhostCmd::Create {
            src_hwnd: window.hwnd,
            start_rect: window.start,
            z_above: Some(window.hwnd),
            visible: false,
        }
    }

    /// The command that creates the overlay of a window.
    pub open spec fn overlay_command(self, window: TrackedWindow) -> GhostCmd {
        GhostCmd::CreateOverlay {
            src_hwnd: window.hwnd,
            clip: window.shown(window.ghost_window->0, window.target, self.monitor_bounds),
        }
    }

    /// Window `index` is revealed under an overlay: it is incoming, still owned, and has a ghost.
    pub open spec fn is_covered(self, index: int) -> bool {
        let window = self.windows[index];
        window.incoming && self.owned.contains(window.hwnd) && window.ghost_window is Some
    }

    /// The question that the phase waits on.
    pub open spec fn asked(self) -> Ask {
        match self.phase {
            Phase::Idle => Ask::Finished,
            Phase::Rect { read, .. } => read.asked(),
            Phase::Outer { index, .. } => Ask::OuterRect { hwnd: self.windows[index as int].hwnd },
            Phase::Create { index } => Ask::CreateGhost {
                cmd: SlideModel::create_command(self.windows[index as int]),
            },
            Phase::Unready { index, settling } => self.windows[index as int].settling_asks(
                settling,
            ),
            Phase::Overlay { index } => Ask::CreateOverlay {
                cmd: self.overlay_command(self.windows[index as int]),
            },
            Phase::Clearing { index, settling } => self.windows[index as int].settling_asks(
                settling,
            ),
            Phase::Cursor => Ask::WindowRect { hwnd: self.focus_hwnd->0 },
            Phase::BusyWorkspace => Ask::InProgress { prefix: AnimationPrefix::Workspace },
            Phase::BusyMovement => Ask::InProgress { prefix: AnimationPrefix::Movement },
            Phase::Foreground => Ask::Foreground,
            _ => Ask::Nothing,
        }
    }

    /// The slide can go on with `answer` at this time: the answer is of the kind that the question
    /// asks for, and every coordinate and every deadline stays in the range of its type.
    pub open spec fn accepts(self, clock: Clock, answer: Answer) -> bool {
        &&& answers(self.asked(), answer)
        &&& match (self.phase, answer) {
            (Phase::Suppress, _) => clock.asked + self.duration + EVENT_GRACE <= u128::MAX,
            (Phase::Begin, _) => clock.asked + EVENT_GRACE <= u128::MAX,
            (Phase::Outer { index, rect }, Answer::Area(outer)) => self.ready_fits(
                self.windows[index as int],
                rect,
                outer,
            ),
            (Phase::Create { index }, Answer::Created(Some(_))) => {
                self.windows[index as int].shown_fits(
                    self.windows[index as int].start,
                    self.monitor_bounds,
                )
            },
            (Phase::Cover { index }, _) => index < self.windows.len() && self.is_covered(
                index as int,
            ) ==> self.windows[index as int].shown_fits(
                self.windows[index as int].target,
                self.monitor_bounds,
            ),
            _ => true,
        }
    }

    /// The index of the phase names a window that is at that stage.
    pub open spec fn phase_wf(self) -> bool {
        let n: nat = self.windows.len();
        match self.phase {
            Phase::Look { index } => index <= n,
            Phase::Rect { index, read } => {
                index < n && !(read is Done)
            },
            Phase::Outer { index, .. } => index < n && self.windows[index as int].ghost_window
                is None,
            Phase::Create { index } => index < n && self.windows[index as int].ghost_window is None
                && self.windows[index as int].cloaked,
            Phase::Unready { index, settling } => {
                &&& index < n
                &&& self.windows[index as int].settling_wf(settling)
                &&& !(settling is Settled)
            },
            Phase::Cover { index } => index <= n,
            Phase::Overlay { index } => {
                &&& index < n
                &&& self.is_covered(index as int)
                &&& self.windows[index as int].shown_fits(
                    self.windows[index as int].target,
                    self.monitor_bounds,
                )
            },
            Phase::Clear { index } => index <= n,
            Phase::Clearing { index, settling } => {
                &&& index < n
                &&& self.windows[index as int].settling_wf(settling)
                &&& !(settling is Settled)
            },
            Phase::Cursor => self.focus_hwnd is Some,
            Phase::Foreground => self.focus_hwnd is Some,
            _ => true,
        }
    }

    /// How many windows have certainly been let go of.
    pub open spec fn cleared(self) -> int {
        match self.phase {
            Phase::Clear { index } => index as int,
            Phase::Clearing { index, .. } => index as int,
            Phase::Release => self.windows.len() as int,
            Phase::Cursor => self.windows.len() as int,
            Phase::FadeStart => self.windows.len() as int,
            Phase::Fading { .. } => self.windows.len() as int,
            _ => 0,
        }
    }

    /// How many windows may have a ghost, counted from the first.
    pub open spec fn opened(self) -> int {
        match self.phase {
            Phase::Suppress => 0,
            Phase::Look { index } => index as int,
            Phase::Rect { index, .. } => index as int,
            Phase::Outer { index, .. } => index as int,
            Phase::Create { index } => index as int,
            Phase::Unready { index, .. } => index as int,
            _ => if self.prepared {
                self.windows.len() as int
            } else {
                0
            },
        }
    }

    /// The overlays are up.
    pub open spec fn may_have_overlays(self) -> bool {
        match self.phase {
            Phase::Cover { .. } => true,
            Phase::Overlay { .. } => true,
            Phase::Clear { .. } => true,
            Phase::Clearing { .. } => true,
            Phase::Release => true,
            Phase::Cursor => true,
            Phase::FadeStart => true,
            Phase::Fading { .. } => true,
            _ => false,
        }
    }

    /// What every phase of a slide keeps: a window is active exactly as long as it has a ghost, and
    /// is cloaked as long; ghosts and overlays that the slide holds have not been taken down; no
    /// window has a ghost before its turn to be prepared, nor after its turn to be let go of;
    /// overlays exist only while the slide finishes.
    pub open spec fn wf(self) -> bool {
        &&& self.phase_wf()
        &&& forall|i: int|
            0 <= i < self.windows.len() ==> {
                let window = #[trigger] self.windows[i];
                &&& window.active == (window.ghost_window is Some)
                &&& window.ghost_window matches Some(ghost) ==> !ghost.disposed && window.cloaked
                &&& i < self.cleared() || i >= self.opened() ==> window.ghost_window is None
            }
        &&& forall|i: int| 0 <= i < self.overlays.len() ==> !(#[trigger] self.overlays[i]).disposed
        &&& self.may_have_overlays() || self.overlays.len() == 0
        &&& self.borders_suppressed ==> self.prepared
        &&& !(self.phase is Idle) ==> self.prepared || self.phase is BusyWorkspace
            || self.phase is BusyMovement || self.phase is Foreground
    }

    /// Where preparing begins. A slide is prepared once.
    pub open spec fn prepare_start(self) -> (SlideModel, Seq<SlideCall>) {
        if self.prepared {
            (self, seq![])
        } else {
            (
                SlideModel { prepared: true, borders_suppressed: true, ..self }.at(Phase::Suppress),
                seq![
                    SlideCall::DisableStackbar { disabled: true },
                    SlideCall::NotifyStackbar,
                    SlideCall::SuppressBorders,
                ],
            )
        }
    }

    /// Where finalising begins when nothing is to be finished before it.
    pub open spec fn finalise_start(self) -> SlideModel {
        SlideModel { ending: Ending::Plain, ..self }.at(Phase::BusyWorkspace)
    }

    /// What is left to do after finishing: the calls, and where the slide stands then.
    pub open spec fn ended(self) -> (SlideModel, Seq<SlideCall>) {
        match self.ending {
            Ending::Plain => (self.at(Phase::Idle), seq![]),
            Ending::Release => (
                SlideModel { ending: Ending::Plain, ..self }.at(Phase::Idle),
                seq![SlideCall::ReleaseLock],
            ),
            Ending::FinaliseAndRelease => (
                SlideModel { ending: Ending::Release, ..self }.at(Phase::BusyWorkspace),
                seq![],
            ),
        }
    }

    /// Where finishing begins. A slide finishes once; one that was never prepared has nothing to
    /// put back.
    pub open spec fn finish_start(self, move_mouse: bool, ending: Ending) -> (
        SlideModel,
        Seq<SlideCall>,
    ) {
        let slide = SlideModel { settled: true, ending, ..self };
        if self.settled || !self.prepared {
            slide.ended()
        } else {
            (SlideModel { move_mouse, ..slide }.at(Phase::Begin), seq![])
        }
    }

    /// Window `index` has come to this stage of being put back, while the slide prepares or
    /// finishes.
    pub open spec fn settled_at(
        self,
        index: usize,
        at: (TrackedWindow, Settling, Seq<SlideCall>),
        preparing: bool,
    ) -> (SlideModel, Seq<SlideCall>) {
        let (window, settling, calls) = at;
        let next: usize = (index + 1) as usize;
        (
            self.with_window(index as int, window).at(
                if settling is Settled {
                    if preparing {
                        Phase::Look { index: next }
                    } else {
                        Phase::Clear { index: next }
                    }
                } else if preparing {
                    Phase::Unready { index, settling }
                } else {
                    Phase::Clearing { index, settling }
                },
            ),
            calls,
        )
    }

    /// Preparing: what reading a rect leads to.
    pub open spec fn rect_next(self, index: usize, read: RectRead, area: Option<Rect>) -> (
        SlideModel,
        Seq<SlideCall>,
    ) {
        let (read, calls) = read.next(area);
        match read {
            RectRead::Done { rect: None } => self.settled_at(
                index,
                self.windows[index as int].settle_start(),
                true,
            ),
            RectRead::Done { rect: Some(rect) } => (self.at(Phase::Outer { index, rect }), calls),
            _ => (self.at(Phase::Rect { index, read }), calls),
        }
    }

    /// Preparing: what the ghost owner's reply leads to.
    pub open spec fn create_next(self, index: usize, created: Option<(isize, isize)>) -> (
        SlideModel,
        Seq<SlideCall>,
    ) {
        let window = self.windows[index as int];
        match created {
            Some((host_hwnd, hthumb)) => {
                let made = GhostWindow { host_hwnd, hthumb, disposed: false };
                (
                    SlideModel {
                        opening: self.opening.push(
                            window.shown(made, window.start, self.monitor_bounds),
                        ),
                        ..self.with_window(
                            index as int,
                            TrackedWindow { active: true, ghost_window: Some(made), ..window },
                        )
                    }.at(Phase::Look { index: (index + 1) as usize }),
                    seq![],
                )
            },
            None => self.settled_at(index, window.settle_start(), true),
        }
    }

    /// Finishing: what becomes of window `index`. A newer slide that took it over decides where it
    /// ends up.
    pub open spec fn clear_next(self, index: usize) -> (SlideModel, Seq<SlideCall>) {
        if index >= self.windows.len() {
            (self.at(Phase::Release), seq![])
        } else {
            let window = self.windows[index as int];
            if self.owned.contains(window.hwnd) {
                self.settled_at(index, window.settle_start(), false)
            } else {
                (
                    self.with_window(index as int, dropped(window)).at(
                        Phase::Clear { index: (index + 1) as usize },
                    ),
                    drop_calls(window.ghost_window),
                )
            }
        }
    }

    /// Finishing: the focused window, if the slide is to focus one that it still owns.
    pub open spec fn focused(self) -> Option<isize> {
        match self.focus_hwnd {
            Some(hwnd) => if self.move_mouse && self.owned.contains(hwnd) {
                Some(hwnd)
            } else {
                None
            },
            None => None,
        }
    }

    /// Finishing: the borders come back, and the focus goes to its window.
    pub open spec fn release_next(self) -> (SlideModel, Seq<SlideCall>) {
        let borders = if self.borders_suppressed {
            seq![SlideCall::RestoreBorders]
        } else {
            seq![]
        };
        let slide = SlideModel { borders_suppressed: false, ..self };
        match self.focused() {
            Some(hwnd) => (
                slide.at(
                    if self.mouse_follows_focus {
                        Phase::Cursor
                    } else {
                        Phase::FadeStart
                    },
                ),
                borders.push(SlideCall::Focus { hwnd }),
            ),
            None => (slide.at(Phase::FadeStart), borders),
        }
    }

    /// Finalising: the notifications, unless another animation is still at work.
    pub open spec fn finalised(self, notify: Seq<SlideCall>) -> (SlideModel, Seq<SlideCall>) {
        let (slide, calls) = self.ended();
        (slide, notify + finalise_calls() + calls)
    }

    /// How the slide goes on with `answer`, and the calls to make on the way.
    pub open spec fn next(
        self,
        settle_requests: usize,
        driven: Map<isize, usize>,
        clock: Clock,
        answer: Answer,
    ) -> (SlideModel, Seq<SlideCall>) {
        let n: nat = self.windows.len();
        match (self.phase, answer) {
            (Phase::Suppress, _) => (self.at(Phase::Look { index: 0 }), seq![]),
            (Phase::Look { index }, _) => if index < n {
                let read = RectRead::First { hwnd: self.windows[index as int].hwnd };
                (self.at(Phase::Rect { index, read }), seq![])
            } else {
                (SlideModel { opening: seq![], ..self }.at(Phase::Opened), seq![])
            },
            (Phase::Rect { index, read }, Answer::Area(area)) => self.rect_next(index, read, area),
            (Phase::Outer { index, rect }, Answer::Area(outer)) => (
                self.with_window(
                    index as int,
                    self.ready_window(self.windows[index as int], rect, outer),
                ).at(Phase::Create { index }),
                seq![cloak_call(self.windows[index as int].hwnd)],
            ),
            (Phase::Create { index }, Answer::Created(created)) => self.create_next(index, created),
            (Phase::Unready { index, settling }, _) => self.settled_at(
                index,
                self.windows[index as int].settle_next(settling, answer),
                true,
            ),
            (Phase::Opened, _) => if exists|i: int|
                0 <= i < n && (#[trigger] self.windows[i]).active {
                (self.at(Phase::Idle), seq![])
            } else {
                self.finish_start(true, Ending::Plain)
            },
            (Phase::Begin, _) => (
                SlideModel {
                    owned: Set::new(
                        |hwnd: isize|
                            hwnds_of(self.windows).contains(hwnd) && drives(
                                driven,
                                hwnd,
                                self.slide_id,
                            ),
                    ),
                    ..self
                }.at(
                    if self.move_mouse {
                        Phase::Cover { index: 0 }
                    } else {
                        Phase::Clear { index: 0 }
                    },
                ),
                seq![],
            ),
            (Phase::Cover { index }, _) => if index >= n {
                (
                    self.at(Phase::Clear { index: 0 }),
                    if self.overlays.len() > 0 {
                        seq![SlideCall::Flush]
                    } else {
                        seq![]
                    },
                )
            } else if self.is_covered(index as int) {
                (self.at(Phase::Overlay { index }), seq![])
            } else {
                (self.at(Phase::Cover { index: (index + 1) as usize }), seq![])
            },
            (Phase::Overlay { index }, Answer::Overlaid(overlaid)) => {
                let slide = match overlaid {
                    Some((host_hwnd, hdesktop, hthumb)) => SlideModel {
                        overlays: self.overlays.push(
                            RevealOverlay { host_hwnd, hdesktop, hthumb, disposed: false },
                        ),
                        ..self
                    },
                    None => self,
                };
                (slide.at(Phase::Cover { index: (index + 1) as usize }), seq![])
            },
            (Phase::Clear { index }, _) => self.clear_next(index),
            (Phase::Clearing { index, settling }, _) => self.settled_at(
                index,
                self.windows[index as int].settle_next(settling, answer),
                false,
            ),
            (Phase::Release, _) => self.release_next(),
            (Phase::Cursor, Answer::Area(area)) => (
                self.at(Phase::FadeStart),
                match area {
                    Some(rect) => seq![SlideCall::CenterCursor { rect }],
                    None => seq![],
                },
            ),
            (Phase::FadeStart, _) => (
                self.at(
                    if self.overlays.len() > 0 {
                        Phase::Fading { started: clock.now }
                    } else {
                        Phase::BusyWorkspace
                    },
                ),
                seq![],
            ),
            (Phase::Fading { started }, _) => {
                let elapsed: u128 = elapsed_since(started, clock.now);
                let duration: u128 = fade_of(self.duration);
                if fade_is_over(elapsed, duration, settle_requests) {
                    (
                        SlideModel { overlays: seq![], ..self }.at(Phase::BusyWorkspace),
                        uncover_calls(self.overlays),
                    )
                } else {
                    (self, fade_calls(self.overlays, elapsed, duration))
                }
            },
            (Phase::BusyWorkspace, Answer::Flag(busy)) => if busy {
                self.ended()
            } else {
                (self.at(Phase::BusyMovement), seq![])
            },
            (Phase::BusyMovement, Answer::Flag(busy)) => if busy {
                self.ended()
            } else if self.focus_hwnd is Some {
                (self.at(Phase::Foreground), seq![])
            } else {
                self.finalised(seq![])
            },
            (Phase::Foreground, Answer::Handle(foreground)) => self.finalised(
                if self.focus_hwnd == Some(foreground) {
                    seq![SlideCall::NotifyFocus { hwnd: foreground }]
                } else {
                    seq![]
                },
            ),
            _ => (self, seq![]),
        }
    }

    /// The frame to present: the opening one, once every window has been looked at.
    pub open spec fn next_frame(self) -> Seq<GhostClip> {
        match self.phase {
            Phase::Look { index } => if index < self.windows.len() {
                seq![]
            } else {
                self.opening
            },
            _ => seq![],
        }
    }

    /// The shared state after this step of the slide. A slide that finishes lets its windows go and
    /// is no longer counted.
    pub open spec fn next_state(self, state: SlideStateModel, clock: Clock) -> SlideStateModel {
        let hwnds = hwnds_of(self.windows);
        match self.phase {
            Phase::Suppress => events_suppressed(
                state,
                hwnds,
                (self.duration + EVENT_GRACE) as u128,
                clock,
            ),
            Phase::Begin => events_suppressed(state, hwnds, EVENT_GRACE, clock),
            Phase::Release => SlideStateModel {
                driven: released(state.driven, hwnds, self.slide_id),
                active: if state.active > 0 {
                    (state.active - 1) as usize
                } else {
                    0
                },
                ..state
            },
            _ => state,
        }
    }
}

/// The windows that a frame of the slide shows, in order.
pub open spec fn sliding(windows: Seq<TrackedWindow>) -> Seq<TrackedWindow>
    decreases windows.len(),
{
    if windows.len() == 0 {
        seq![]
    } else {
        let before = sliding(windows.drop_last());
        if windows.last().active && windows.last().ghost_window is Some {
            before.push(windows.last())
        } else {
            before
        }
    }
}

impl SlideModel {
    /// The windows that the next frame shows: none once the slide is finishing.
    pub open spec fn shown_windows(self) -> Seq<TrackedWindow> {
        if self.settled {
            seq![]
        } else {
            sliding(self.windows)
        }
    }

    /// Every shown window can be clipped at its rect in this frame.
    pub open spec fn frame_fits(self, visuals: Seq<Rect>) -> bool {
        let windows = self.shown_windows();
        &&& visuals.len() == windows.len()
        &&& forall|i: int|
            0 <= i < windows.len() ==> (#[trigger] windows[i]).shown_fits(
                visuals[i],
                self.monitor_bounds,
            )
    }

    /// The clips of the frame in which each shown window is at its rect.
    pub open spec fn frame(self, visuals: Seq<Rect>) -> Seq<GhostClip> {
        let windows = self.shown_windows();
        Seq::new(
            windows.len(),
            |i: int|
                windows[i].shown(windows[i].ghost_window->0, visuals[i], self.monitor_bounds),
        )
    }

    /// The slide after its run broke off in the middle: nothing is under way, and no overlay is up.
    pub open spec fn interrupted(self) -> SlideModel {
        SlideModel { opening: seq![], overlays: seq![], ending: Ending::Plain, ..self }.at(
            Phase::Idle,
        )
    }

    /// The slide once it has let go of every ghost that it still has.
    pub open spec fn abandoned(self) -> SlideModel {
        SlideModel { windows: self.windows.map_values(|window: TrackedWindow| dropped(window)), ..self }
    }
}

/// The commands that take the ghosts of the windows down, in order.
pub open spec fn abandon_calls(windows: Seq<TrackedWindow>) -> Seq<SlideCall>
    decreases windows.len(),
{
    if windows.len() == 0 {
        seq![]
    } else {
        abandon_calls(windows.drop_last()) + drop_calls(windows.last().ghost_window)
    }
}

/// Where a window stands after a stage of being put back: let go of once it is settled, and as it
/// was before that.
proof fn lemma_settle_stages(window: TrackedWindow, settling: Settling, answer: Answer)
    requires
        window.settling_wf(settling),
        answers(window.settling_asks(settling), answer),
    ensures
        ({
            let (after, stage, calls) = window.settle_start();
            &&& after.settling_wf(stage)
            &&& stage is Settled ==> after.ghost_window is None && !after.active
            &&& !(stage is Settled) ==> after == window
        }),
        !(settling is Settled) ==> {
            let (after, stage, calls) = window.settle_next(settling, answer);
            &&& after.settling_wf(stage)
            &&& stage is Settled ==> after.ghost_window is None && !after.active
            &&& !(stage is Settled) ==> after == window
        },
{
}

/// Putting window `index` back keeps what `wf` says of a slide.
proof fn lemma_settled_at_keeps_invariant(
    slide: SlideModel,
    index: usize,
    at: (TrackedWindow, Settling, Seq<SlideCall>),
    preparing: bool,
)
    requires
        slide.wf(),
        slide.windows.len() <= usize::MAX,
        index < slide.windows.len(),
        at.0.settling_wf(at.1),
        at.1 is Settled ==> at.0.ghost_window is None && !at.0.active,
        !(at.1 is Settled) ==> at.0 == slide.windows[index as int],
        preparing ==> slide.opened() == index && slide.cleared() == 0 && slide.prepared
            && slide.overlays.len() == 0,
        !preparing ==> slide.opened() == slide.windows.len() && slide.cleared() == index
            && slide.prepared,
    ensures
        slide.settled_at(index, at, preparing).0.wf(),
{
    let after = slide.settled_at(index, at, preparing).0;
    assert(after.windows.len() == slide.windows.len());
    assert forall|i: int| 0 <= i < after.windows.len() implies {
        let window = #[trigger] after.windows[i];
        &&& window.active == (window.ghost_window is Some)
        &&& window.ghost_window matches Some(ghost) ==> !ghost.disposed && window.cloaked
        &&& i < after.cleared() || i >= after.opened() ==> window.ghost_window is None
    } by {
        let before = slide.windows[i];
        assert(before.active == (before.ghost_window is Some));
        if i != index {
            assert(after.windows[i] == before);
        }
    }
    assert(after.overlays == slide.overlays);
}

/// A step that leaves the windows alone keeps what `wf` says of them.
pub(crate) proof fn lemma_same_windows(slide: SlideModel, after: SlideModel)
    requires
        slide.wf(),
        after.windows == slide.windows,
        after.cleared() <= slide.cleared(),
        after.opened() >= slide.opened(),
        after.phase_wf(),
        forall|i: int| 0 <= i < after.overlays.len() ==> !(#[trigger] after.overlays[i]).disposed,
        after.may_have_overlays() || after.overlays.len() == 0,
        after.borders_suppressed ==> after.prepared,
        !(after.phase is Idle) ==> after.prepared || after.phase is BusyWorkspace || after.phase
            is BusyMovement || after.phase is Foreground,
    ensures
        after.wf(),
{
    assert forall|i: int| 0 <= i < after.windows.len() implies {
        let window = #[trigger] after.windows[i];
        &&& window.active == (window.ghost_window is Some)
        &&& window.ghost_window matches Some(ghost) ==> !ghost.disposed && window.cloaked
        &&& i < after.cleared() || i >= after.opened() ==> window.ghost_window is None
    } by {
        assert(after.windows[i] == slide.windows[i]);
    }
}

/// Every step of a slide keeps what `wf` says of it.
#[verifier::rlimit(40)]
pub proof fn law_step_keeps_invariant(
    slide: SlideModel,
    settle_requests: usize,
    driven: Map<isize, usize>,
    clock: Clock,
    answer: Answer,
)
    requires
        slide.wf(),
        slide.windows.len() <= usize::MAX,
        slide.accepts(clock, answer),
    ensures
        slide.next(settle_requests, driven, clock, answer).0.wf(),
{
    let after = slide.next(settle_requests, driven, clock, answer).0;
    match slide.phase {
        Phase::Rect { index, read } => {
            let window = slide.windows[index as int];
            lemma_settle_stages(window, Settling::Settled, Answer::Nothing);
            if let RectRead::Done { rect: None } = read.next(answer->Area_0).0 {
                lemma_settled_at_keeps_invariant(slide, index, window.settle_start(), true);
            } else {
                lemma_same_windows(slide, after);
            }
        },
        Phase::Outer { index, .. } => {
            lemma_window_changed(slide, after, index as int);
        },
        Phase::Create { index } => {
            let window = slide.windows[index as int];
            lemma_settle_stages(window, Settling::Settled, Answer::Nothing);
            if answer->Created_0 is None {
                lemma_settled_at_keeps_invariant(slide, index, window.settle_start(), true);
            } else {
                lemma_window_changed(slide, after, index as int);
            }
        },
        Phase::Unready { index, settling } => {
            let window = slide.windows[index as int];
            lemma_settle_stages(window, settling, answer);
            lemma_settled_at_keeps_invariant(
                slide,
                index,
                window.settle_next(settling, answer),
                true,
            );
        },
        Phase::Opened => {
            law_finish_keeps_invariant(slide, true, Ending::Plain);
            if exists|i: int| 0 <= i < slide.windows.len() && (#[trigger] slide.windows[i]).active {
                lemma_same_windows(slide, after);
            }
        },
        Phase::Clear { index } => {
            if index < slide.windows.len() {
                let window = slide.windows[index as int];
                lemma_settle_stages(window, Settling::Settled, Answer::Nothing);
                if slide.owned.contains(window.hwnd) {
                    lemma_settled_at_keeps_invariant(slide, index, window.settle_start(), false);
                } else {
                    lemma_window_changed(slide, after, index as int);
                }
            } else {
                lemma_same_windows(slide, after);
            }
        },
        Phase::Clearing { index, settling } => {
            let window = slide.windows[index as int];
            lemma_settle_stages(window, settling, answer);
            lemma_settled_at_keeps_invariant(
                slide,
                index,
                window.settle_next(settling, answer),
                false,
            );
        },
        _ => {
            lemma_same_windows(slide, after);
        },
    }
}

/// A step that changes one window, in its turn, keeps what `wf` says of the windows.
proof fn lemma_window_changed(slide: SlideModel, after: SlideModel, index: int)
    requires
        slide.wf(),
        0 <= index < slide.windows.len(),
        after.windows == slide.windows.update(index, after.windows[index]),
        after.windows[index].active == (after.windows[index].ghost_window is Some),
        after.windows[index].ghost_window matches Some(ghost) ==> !ghost.disposed
            && after.windows[index].cloaked,
        index < after.cleared() || index >= after.opened() ==> after.windows[index].ghost_window
            is None,
        forall|i: int|
            #![trigger slide.windows[i]]
            0 <= i < slide.windows.len() && i != index && (i < after.cleared() || i
                >= after.opened()) ==> i < slide.cleared() || i >= slide.opened(),
        after.phase_wf(),
        after.overlays == slide.overlays,
        after.may_have_overlays() == slide.may_have_overlays(),
        after.borders_suppressed == slide.borders_suppressed,
        after.prepared == slide.prepared,
        after.prepared,
    ensures
        after.wf(),
{
    assert forall|i: int| 0 <= i < after.windows.len() implies {
        let window = #[trigger] after.windows[i];
        &&& window.active == (window.ghost_window is Some)
        &&& window.ghost_window matches Some(ghost) ==> !ghost.disposed && window.cloaked
        &&& i < after.cleared() || i >= after.opened() ==> window.ghost_window is None
    } by {
        if i != index {
            assert(after.windows[i] == slide.windows[i]);
        }
    }
}

/// Beginning to finish keeps what `wf` says of a slide.
pub proof fn law_finish_keeps_invariant(slide: SlideModel, move_mouse: bool, ending: Ending)
    requires
        slide.wf(),
        slide.phase is Idle || slide.phase is Opened,
    ensures
        slide.finish_start(move_mouse, ending).0.wf(),
{
    let after = slide.finish_start(move_mouse, ending).0;
    assert forall|i: int| 0 <= i < after.windows.len() implies {
        let window = #[trigger] after.windows[i];
        &&& window.active == (window.ghost_window is Some)
        &&& window.ghost_window matches Some(ghost) ==> !ghost.disposed && window.cloaked
        &&& i < after.cleared() || i >= after.opened() ==> window.ghost_window is None
    } by {
        assert(after.windows[i] == slide.windows[i]);
    }
}

/// A slide whose run broke off, in whatever phase, keeps what `wf` says of it.
pub proof fn law_interrupt_keeps_invariant(slide: SlideModel)
    requires
        slide.wf(),
    ensures
        slide.interrupted().wf(),
{
    let after = slide.interrupted();
    assert forall|i: int| 0 <= i < after.windows.len() implies {
        let window = #[trigger] after.windows[i];
        &&& window.active == (window.ghost_window is Some)
        &&& window.ghost_window matches Some(ghost) ==> !ghost.disposed && window.cloaked
        &&& i < after.cleared() || i >= after.opened() ==> window.ghost_window is None
    } by {
        assert(after.windows[i] == slide.windows[i]);
    }
}

/// Beginning to prepare keeps what `wf` says of a slide.
pub proof fn law_prepare_keeps_invariant(slide: SlideModel)
    requires
        slide.wf(),
        slide.phase is Idle,
    ensures
        slide.prepare_start().0.wf(),
{
    let after = slide.prepare_start().0;
    assert forall|i: int| 0 <= i < after.windows.len() implies {
        let window = #[trigger] after.windows[i];
        &&& window.active == (window.ghost_window is Some)
        &&& window.ghost_window matches Some(ghost) ==> !ghost.disposed && window.cloaked
        &&& i < after.cleared() || i >= after.opened() ==> window.ghost_window is None
    } by {
        assert(after.windows[i] == slide.windows[i]);
    }
}

} // verus!

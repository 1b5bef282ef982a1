//! Running a slide: preparing, rendering and finishing it, one step at a time.
use std::collections::HashSet;
use vstd::prelude::*;

use crate::dispatcher::{
    rect_of, Ending, Phase, SlideModel, SlideRequest, Step, WorkspaceSlideDispatcher, REVEAL_FADE,
};
use crate::geometry::{is_i32, larger_of, shift_x, Rect};
use crate::ghost::{present_clips, GhostClip, GhostCmd, GhostWindow, RevealOverlay};
use crate::phases::{
    abandon_calls, alpha_calls, elapsed_since, fade_calls, fade_is_over, fade_of, finalise_calls,
    hwnds_of, law_finish_keeps_invariant, law_interrupt_keeps_invariant,
    law_prepare_keeps_invariant, law_step_keeps_invariant, lemma_same_windows, sliding, uncover_calls,
};
use crate::registry::{
    assigned, drive_slide_windows, drives, events_suppressed, lemma_take_one_more,
    release_slide_windows, slide_owns_window, suppress_slide_events, Clock, SlideState,
    SlideStateModel, EVENT_GRACE,
};
use crate::settings::AnimationPrefix;
use crate::settle::{hold_slide_lock, AnimationKey, SlideGuard};
use crate::window::{
    answers, ask_settling, clip_for, cloak_call, cloak_window, drop_ghost, dropped, is_answer,
    is_clip_nameable, settle_window_next, settle_window_now, Answer, Ask, RectRead, Settling,
    SlideCall, TrackedWindow,
};

verus! {

broadcast use vstd::std_specs::hash::group_hash_axioms;

impl<S> WorkspaceSlideDispatcher<S> {
    /// The windows of the slide, by name.
    fn hwnds(&self) -> (r: Vec<isize>)
        ensures
            r@ == hwnds_of(self@.windows),
    {
        let mut hwnds: Vec<isize> = Vec::new();
        let mut index: usize = 0;
        while index < self.windows.len()
            invariant
                index <= self.windows@.len(),
                hwnds@ == hwnds_of(self.windows@.take(index as int)),
            decreases self.windows@.len() - index,
        {
            hwnds.push(self.windows[index].hwnd);
            index = index + 1;
            assert(hwnds@ =~= hwnds_of(self.windows@.take(index as int)));
        }
        assert(self.windows@.take(index as int) =~= self.windows@);
        hwnds
    }

    /// Whether any window slides.
    fn any_active(&self) -> (r: bool)
        ensures
            r == exists|i: int| 0 <= i < self@.windows.len() && (#[trigger] self@.windows[i]).active,
    {
        let mut index: usize = 0;
        while index < self.windows.len()
            invariant
                index <= self.windows@.len(),
                forall|i: int| 0 <= i < index ==> !(#[trigger] self.windows@[i]).active,
            decreases self.windows@.len() - index,
        {
            if self.windows[index].active {
                assert(self@.windows[index as int].active);
                return true;
            }
            index = index + 1;
        }
        false
    }

    /// The question that the slide waits on.
    pub fn ask(&self) -> (r: Ask)
        requires
            self@.wf(),
        ensures
            r == self@.asked(),
    {
        match self.phase {
            Phase::Idle => Ask::Finished,
            Phase::Rect { read, .. } => match read {
                RectRead::First { hwnd } => Ask::WindowRect { hwnd },
                RectRead::Second { hwnd } => Ask::WindowRect { hwnd },
                RectRead::Done { .. } => Ask::Finished,
            },
            Phase::Outer { index, .. } => Ask::OuterRect { hwnd: self.windows[index].hwnd },
            Phase::Create { index } => {
                let window = &self.windows[index];
                let cmd = GhostWindow::create_with_visibility(
                    window.hwnd,
                    window.start,
                    Some(window.hwnd),
                    false,
                );
                Ask::CreateGhost { cmd }
            },
            Phase::Unready { index, settling } => ask_settling(&self.windows[index], settling),
            Phase::Overlay { index } => {
                let window = &self.windows[index];
                match &window.ghost_window {
                    Some(ghost) => {
                        let clip = clip_for(ghost, window, window.target, self.monitor_bounds);
                        Ask::CreateOverlay { cmd: RevealOverlay::create(window.hwnd, clip) }
                    },
                    None => Ask::Nothing,
                }
            },
            Phase::Clearing { index, settling } => ask_settling(&self.windows[index], settling),
            Phase::Cursor => match self.focus_hwnd {
                Some(hwnd) => Ask::WindowRect { hwnd },
                None => Ask::Nothing,
            },
            Phase::BusyWorkspace => Ask::InProgress { prefix: AnimationPrefix::Workspace },
            Phase::BusyMovement => Ask::InProgress { prefix: AnimationPrefix::Movement },
            Phase::Foreground => Ask::Foreground,
            _ => Ask::Nothing,
        }
    }

    /// What is left to do after finishing.
    fn end(&mut self) -> (calls: Vec<SlideCall>)
        ensures
            (final(self)@, calls@) == old(self)@.ended(),
            final(self).style == old(self).style,
    {
        let mut calls: Vec<SlideCall> = Vec::new();
        match self.ending {
            Ending::Plain => {
                self.phase = Phase::Idle;
            },
            Ending::Release => {
                self.ending = Ending::Plain;
                self.phase = Phase::Idle;
                calls.push(SlideCall::ReleaseLock);
            },
            Ending::FinaliseAndRelease => {
                self.ending = Ending::Release;
                self.phase = Phase::BusyWorkspace;
            },
        }
        calls
    }

    fn begin_finish(&mut self, move_mouse: bool, ending: Ending) -> (calls: Vec<SlideCall>)
        ensures
            (final(self)@, calls@) == old(self)@.finish_start(move_mouse, ending),
            final(self).style == old(self).style,
    {
        self.ending = ending;
        if self.settled {
            return self.end();
        }
        self.settled = true;
        if !self.prepared {
            return self.end();
        }
        self.move_mouse = move_mouse;
        self.phase = Phase::Begin;
        Vec::new()
    }

    /// Window `index` has come to this stage of being put back.
    fn go_on_settling(&mut self, index: usize, settling: Settling, preparing: bool)
        requires
            index < old(self)@.windows.len(),
        ensures
            final(self)@ == old(self)@.settled_at(
                index,
                (old(self)@.windows[index as int], settling, Seq::empty()),
                preparing,
            ).0,
            final(self).style == old(self).style,
    {
        assert(index < self.windows.len());
        self.phase = match settling {
            Settling::Settled => if preparing {
                Phase::Look { index: index + 1 }
            } else {
                Phase::Clear { index: index + 1 }
            },
            settling => if preparing {
                Phase::Unready { index, settling }
            } else {
                Phase::Clearing { index, settling }
            },
        };
        assert(self@ =~= old(self)@.settled_at(
            index,
            (old(self)@.windows[index as int], settling, Seq::empty()),
            preparing,
        ).0);
    }

    /// Begin to put window `index` back.
    fn settle(&mut self, index: usize, preparing: bool) -> (calls: Vec<SlideCall>)
        requires
            index < old(self)@.windows.len(),
        ensures
            (final(self)@, calls@) == old(self)@.settled_at(
                index,
                old(self)@.windows[index as int].settle_start(),
                preparing,
            ),
            final(self).style == old(self).style,
    {
        let (settling, calls) = settle_window_now(&mut self.windows[index]);
        self.go_on_settling(index, settling, preparing);
        assert(self@ =~= old(self)@.settled_at(
            index,
            old(self)@.windows[index as int].settle_start(),
            preparing,
        ).0);
        calls
    }

    /// Go on with putting window `index` back.
    fn settle_on(&mut self, index: usize, settling: Settling, answer: Answer, preparing: bool) -> (
    calls: Vec<SlideCall>)
        requires
            index < old(self)@.windows.len(),
            old(self)@.windows[index as int].settling_wf(settling),
            answers(old(self)@.windows[index as int].settling_asks(settling), answer),
        ensures
            (final(self)@, calls@) == old(self)@.settled_at(
                index,
                old(self)@.windows[index as int].settle_next(settling, answer),
                preparing,
            ),
            final(self).style == old(self).style,
    {
        let (settling, calls) = settle_window_next(&mut self.windows[index], settling, answer);
        self.go_on_settling(index, settling, preparing);
        calls
    }

    /// Preparing: window `index` is next, or none is left and the opening frame goes out.
    fn look(&mut self, index: usize) -> (frame: Vec<GhostClip>)
        requires
            old(self)@.phase == (Phase::Look { index }),
        ensures
            forall|requests: usize, driven: Map<isize, usize>, clock: Clock|
                (final(self)@, Seq::<SlideCall>::empty()) == #[trigger] old(self)@.next(
                    requests,
                    driven,
                    clock,
                    Answer::Nothing,
                ),
            frame@ == old(self)@.next_frame(),
            final(self).style == old(self).style,
    {
        if index < self.windows.len() {
            let read = RectRead::First { hwnd: self.windows[index].hwnd };
            self.phase = Phase::Rect { index, read };
            return Vec::new();
        }
        let mut frame: Vec<GhostClip> = Vec::new();
        std::mem::swap(&mut frame, &mut self.opening);
        self.phase = Phase::Opened;
        assert(self@.opening =~= seq![]);
        frame
    }

    /// Preparing: go on with reading the visible rect of window `index`.
    fn read_rect(&mut self, index: usize, read: RectRead, area: Option<Rect>) -> (calls: Vec<
        SlideCall,
    >)
        requires
            index < old(self)@.windows.len(),
        ensures
            (final(self)@, calls@) == old(self)@.rect_next(index, read, area),
            final(self).style == old(self).style,
    {
        let (read, calls, _) = read.resume(area);
        match read {
            RectRead::Done { rect: None } => self.settle(index, true),
            RectRead::Done { rect: Some(rect) } => {
                self.phase = Phase::Outer { index, rect };
                calls
            },
            read => {
                self.phase = Phase::Rect { index, read };
                calls
            },
        }
    }

    /// Preparing: window `index` is ready to slide, and is cloaked.
    fn make_ready(&mut self, index: usize, rect: Rect, outer: Option<Rect>) -> (calls: Vec<
        SlideCall,
    >)
        requires
            index < old(self)@.windows.len(),
            old(self)@.ready_fits(old(self)@.windows[index as int], rect, outer),
        ensures
            final(self)@ == old(self)@.with_window(
                index as int,
                old(self)@.ready_window(old(self)@.windows[index as int], rect, outer),
            ).at(Phase::Create { index }),
            calls@ == seq![cloak_call(old(self)@.windows[index as int].hwnd)],
            final(self).style == old(self).style,
    {
        let hwnd: isize = self.windows[index].hwnd;
        let offset: i32 = self.offset;
        // Where the window was before the layout; a window without such a rect slides from the one
        // it has now.
        let origin = match rect_of(&self.incoming_from, hwnd) {
            Some(origin) => origin,
            None => rect,
        };
        let window = &mut self.windows[index];
        if let Some(outer) = outer {
            window.source_offset = (
                larger_of(rect.left - outer.left, 0),
                larger_of(rect.top - outer.top, 0),
            );
        }
        if window.incoming {
            // Floating windows are not retiled. Slide the rect they already had so the ghost cannot
            // animate them into a smaller size.
            window.target = if window.floating {
                origin
            } else {
                rect
            };
            window.start = shift_x(origin, offset);
        } else {
            window.start = rect;
            window.target = shift_x(rect, -offset);
        }
        window.cloaked = true;
        self.phase = Phase::Create { index };
        assert(self@.windows =~= old(self)@.windows.update(
            index as int,
            old(self)@.ready_window(old(self)@.windows[index as int], rect, outer),
        ));
        vec![cloak_window(hwnd)]
    }

    /// Preparing: the ghost owner has answered for window `index`.
    fn take_ghost(&mut self, index: usize, created: Option<(isize, isize)>) -> (calls: Vec<
        SlideCall,
    >)
        requires
            index < old(self)@.windows.len(),
            created is Some ==> old(self)@.windows[index as int].shown_fits(
                old(self)@.windows[index as int].start,
                old(self)@.monitor_bounds,
            ),
        ensures
            (final(self)@, calls@) == old(self)@.create_next(index, created),
            final(self).style == old(self).style,
    {
        match created {
            Some((host_hwnd, hthumb)) => {
                assert(index < self.windows.len());
                let made = GhostWindow { host_hwnd, hthumb, disposed: false };
                let clip = clip_for(
                    &made,
                    &self.windows[index],
                    self.windows[index].start,
                    self.monitor_bounds,
                );
                self.opening.push(clip);
                let window = &mut self.windows[index];
                window.ghost_window = Some(made);
                window.active = true;
                self.phase = Phase::Look { index: index + 1 };
                assert(self@ =~= old(self)@.create_next(index, created).0);
                Vec::new()
            },
            None => self.settle(index, true),
        }
    }

    /// Finishing: the windows that the slide still owns.
    fn find_owned(&self, state: &SlideState) -> (r: HashSet<isize>)
        ensures
            r@ == Set::new(
                |hwnd: isize|
                    hwnds_of(self@.windows).contains(hwnd) && drives(
                        state@.driven,
                        hwnd,
                        self@.slide_id,
                    ),
            ),
    {
        let hwnds = self.hwnds();
        let mut owned: HashSet<isize> = HashSet::new();
        let mut index: usize = 0;
        while index < hwnds.len()
            invariant
                index <= hwnds@.len(),
                forall|hwnd: isize| #[trigger]
                    owned@.contains(hwnd) <==> hwnds@.take(index as int).contains(hwnd) && drives(
                        state@.driven,
                        hwnd,
                        self@.slide_id,
                    ),
            decreases hwnds@.len() - index,
        {
            proof {
                lemma_take_one_more(hwnds@, index as int);
            }
            let hwnd: isize = hwnds[index];
            if slide_owns_window(state, hwnd, self.slide_id) {
                owned.insert(hwnd);
            }
            index = index + 1;
        }
        assert(hwnds@.take(index as int) =~= hwnds@);
        assert(owned@ =~= Set::new(
            |hwnd: isize|
                hwnds_of(self@.windows).contains(hwnd) && drives(
                    state@.driven,
                    hwnd,
                    self@.slide_id,
                ),
        ));
        owned
    }

    /// Finishing: window `index` is next to be covered.
    fn cover(&mut self, index: usize) -> (calls: Vec<SlideCall>)
        requires
            old(self)@.phase == (Phase::Cover { index }),
        ensures
            forall|requests: usize, driven: Map<isize, usize>, clock: Clock|
                (final(self)@, calls@) == #[trigger] old(self)@.next(
                    requests,
                    driven,
                    clock,
                    Answer::Nothing,
                ),
            final(self).style == old(self).style,
    {
        let mut calls: Vec<SlideCall> = Vec::new();
        if index >= self.windows.len() {
            if self.overlays.len() > 0 {
                calls.push(SlideCall::Flush);
            }
            self.phase = Phase::Clear { index: 0 };
            return calls;
        }
        let window = &self.windows[index];
        if window.incoming && self.owned.contains(&window.hwnd) && window.ghost_window.is_some() {
            self.phase = Phase::Overlay { index };
        } else {
            self.phase = Phase::Cover { index: index + 1 };
        }
        calls
    }

    /// Finishing: window `index` is next to be let go of.
    fn clear(&mut self, index: usize) -> (calls: Vec<SlideCall>)
        ensures
            (final(self)@, calls@) == old(self)@.clear_next(index),
            final(self).style == old(self).style,
    {
        if index >= self.windows.len() {
            self.phase = Phase::Release;
            return Vec::new();
        }
        let hwnd: isize = self.windows[index].hwnd;
        if self.owned.contains(&hwnd) {
            return self.settle(index, false);
        }
        // A newer slide already took this window over and decides where it ends up.
        let mut calls: Vec<SlideCall> = Vec::new();
        drop_ghost(&mut self.windows[index], &mut calls);
        self.phase = Phase::Clear { index: index + 1 };
        calls
    }

    /// Finishing: the shared state, the borders and the focus.
    fn release(&mut self, state: &mut SlideState) -> (calls: Vec<SlideCall>)
        requires
            old(self)@.phase is Release,
        ensures
            (final(self)@, calls@) == old(self)@.release_next(),
            forall|clock: Clock| final(state)@ == #[trigger] old(self)@.next_state(
                old(state)@,
                clock,
            ),
            final(self).style == old(self).style,
    {
        let hwnds = self.hwnds();
        release_slide_windows(state, &hwnds, self.slide_id);
        if state.active > 0 {
            state.active = state.active - 1;
        }
        let mut calls: Vec<SlideCall> = Vec::new();
        if self.borders_suppressed {
            calls.push(SlideCall::RestoreBorders);
        }
        self.borders_suppressed = false;
        self.phase = Phase::FadeStart;
        if let Some(hwnd) = self.focus_hwnd {
            if self.move_mouse && self.owned.contains(&hwnd) {
                calls.push(SlideCall::Focus { hwnd });
                if self.mouse_follows_focus {
                    self.phase = Phase::Cursor;
                }
            }
        }
        assert(calls@ =~= old(self)@.release_next().1);
        calls
    }

    /// Take every overlay down.
    fn uncover(&mut self) -> (calls: Vec<SlideCall>)
        requires
            forall|i: int|
                0 <= i < old(self)@.overlays.len() ==> !(#[trigger] old(self)@.overlays[i]).disposed,
        ensures
            final(self)@ == (SlideModel { overlays: seq![], ..old(self)@ }),
            calls@ == uncover_calls(old(self)@.overlays),
            final(self).style == old(self).style,
    {
        let mut calls: Vec<SlideCall> = Vec::new();
        let mut overlays: Vec<RevealOverlay> = Vec::new();
        std::mem::swap(&mut overlays, &mut self.overlays);
        let ghost all = overlays@;
        assert(all == old(self)@.overlays);
        let mut index: usize = 0;
        while index < overlays.len()
            invariant
                index <= overlays@.len(),
                all.len() == overlays@.len(),
                forall|i: int| 0 <= i < all.len() ==> !(#[trigger] all[i]).disposed,
                forall|i: int| index <= i < all.len() ==> #[trigger] overlays@[i] == all[i],
                calls@ == uncover_calls(all.take(index as int)),
            decreases overlays@.len() - index,
        {
            assert(!all[index as int].disposed);
            if let Some(cmd) = overlays[index].dispose_inner() {
                calls.push(SlideCall::Send { cmd });
            }
            index = index + 1;
            assert(calls@ =~= uncover_calls(all.take(index as int)));
        }
        assert(all.take(index as int) =~= all);
        assert(self@.overlays =~= seq![]);
        calls
    }

    /// Finishing: one step of the fade. Fade the overlays out over their revealed windows, one step
    /// per composed frame.
    fn fade_out_overlays(&mut self, started: u128, now: u128, settle_requests: usize) -> (calls:
        Vec<SlideCall>)
        requires
            forall|i: int|
                0 <= i < old(self)@.overlays.len() ==> !(#[trigger] old(self)@.overlays[i]).disposed,
        ensures
            ({
                let elapsed: u128 = elapsed_since(started, now);
                let duration: u128 = fade_of(old(self)@.duration);
                if fade_is_over(elapsed, duration, settle_requests) {
                    &&& final(self)@ == (SlideModel { overlays: seq![], ..old(self)@ }).at(
                        Phase::BusyWorkspace,
                    )
                    &&& calls@ == uncover_calls(old(self)@.overlays)
                } else {
                    &&& final(self)@ == old(self)@
                    &&& calls@ == fade_calls(old(self)@.overlays, elapsed, duration)
                }
            }),
            final(self).style == old(self).style,
    {
        let elapsed: u128 = if now >= started {
            now - started
        } else {
            0
        };
        let half: u128 = self.duration / 2;
        let duration: u128 = if half <= REVEAL_FADE {
            half
        } else {
            REVEAL_FADE
        };
        let mut calls: Vec<SlideCall> = Vec::new();
        let mut index: usize = 0;
        if duration == 0 || elapsed >= duration || settle_requests > 0 {
            self.phase = Phase::BusyWorkspace;
            assert(self@.overlays == old(self)@.overlays);
            return self.uncover();
        }
        while index < self.overlays.len()
            invariant
                *self == *old(self),
                index <= self.overlays@.len(),
                calls@ == alpha_calls(self.overlays@.take(index as int), elapsed, duration),
            decreases self.overlays@.len() - index,
        {
            let hwnd: isize = self.overlays[index].host_hwnd;
            calls.push(SlideCall::FadeOverlay { hwnd, elapsed, duration });
            index = index + 1;
            assert(calls@ =~= alpha_calls(self.overlays@.take(index as int), elapsed, duration));
        }
        assert(self.overlays@.take(index as int) =~= self.overlays@);
        calls.push(SlideCall::Flush);
        calls
    }

    /// Finalising: the stack bars and the transparency come back.
    fn finalise(&mut self, notify: Vec<SlideCall>) -> (calls: Vec<SlideCall>)
        ensures
            (final(self)@, calls@) == old(self)@.finalised(notify@),
            final(self).style == old(self).style,
    {
        let mut calls = notify;
        calls.push(SlideCall::DisableStackbar { disabled: false });
        calls.push(SlideCall::NotifyStackbar);
        calls.push(SlideCall::NotifyTransparency);
        let mut rest = self.end();
        calls.append(&mut rest);
        assert(calls@ =~= notify@ + finalise_calls() + old(self)@.ended().1);
        calls
    }

    /// The rects of window `index`, once it is ready to slide, are rects of `i32`.
    fn is_ready_fit(&self, index: usize, rect: Rect, outer: Option<Rect>) -> (r: bool)
        requires
            index < self@.windows.len(),
        ensures
            r == self@.ready_fits(self@.windows[index as int], rect, outer),
    {
        let border = match outer {
            Some(outer) => {
                let x: i64 = rect.left as i64 - outer.left as i64;
                let y: i64 = rect.top as i64 - outer.top as i64;
                is_i32(x) && is_i32(y)
            },
            None => true,
        };
        let offset: i64 = self.offset as i64;
        if self.windows[index].incoming {
            let left: i64 = match rect_of(&self.incoming_from, self.windows[index].hwnd) {
                Some(origin) => origin.left as i64,
                None => rect.left as i64,
            };
            border && is_i32(left + offset)
        } else {
            border && is_i32(-offset) && is_i32(rect.left as i64 - offset)
        }
    }

    /// Whether the slide can go on with `answer` at this time.
    pub fn is_acceptable(&self, clock: Clock, answer: &Answer) -> (r: bool)
        requires
            self@.wf(),
        ensures
            r == self@.accepts(clock, *answer),
    {
        let ask = self.ask();
        if !is_answer(&ask, answer) {
            return false;
        }
        match (self.phase, *answer) {
            (Phase::Suppress, _) => self.duration <= u128::MAX - EVENT_GRACE && clock.asked
                <= u128::MAX - EVENT_GRACE - self.duration,
            (Phase::Begin, _) => clock.asked <= u128::MAX - EVENT_GRACE,
            (Phase::Outer { index, rect }, Answer::Area(outer)) => {
                self.is_ready_fit(index, rect, outer)
            },
            (Phase::Create { index }, Answer::Created(Some(_))) => {
                let window = &self.windows[index];
                is_clip_nameable(window, window.start, self.monitor_bounds)
            },
            (Phase::Cover { index }, _) => {
                if index >= self.windows.len() {
                    return true;
                }
                let window = &self.windows[index];
                let covered = window.incoming && self.owned.contains(&window.hwnd)
                    && window.ghost_window.is_some();
                !covered || is_clip_nameable(window, window.target, self.monitor_bounds)
            },
            _ => true,
        }
    }

    /// Go on with the answer to the question that the slide waits on.
    pub fn resume(&mut self, state: &mut SlideState, clock: Clock, answer: Answer) -> (step: Step)
        requires
            old(self)@.wf(),
            old(self)@.accepts(clock, answer),
        ensures
            (final(self)@, step.calls@) == old(self)@.next(
                old(state)@.settle_requests,
                old(state)@.driven,
                clock,
                answer,
            ),
            step.frame@ == old(self)@.next_frame(),
            final(state)@ == old(self)@.next_state(old(state)@, clock),
            step.ask == final(self)@.asked(),
            final(self)@.wf(),
            final(self).style == old(self).style,
    {
        assert(self.windows.len() == self.windows@.len());
        proof {
            law_step_keeps_invariant(
                self@,
                state@.settle_requests,
                state@.driven,
                clock,
                answer,
            );
        }
        let mut frame: Vec<GhostClip> = Vec::new();
        let mut calls: Vec<SlideCall> = Vec::new();
        match (self.phase, answer) {
            (Phase::Suppress, _) => {
                let hwnds = self.hwnds();
                suppress_slide_events(state, &hwnds, self.duration + EVENT_GRACE, clock);
                self.phase = Phase::Look { index: 0 };
            },
            (Phase::Look { index }, _) => {
                frame = self.look(index);
            },
            (Phase::Rect { index, read }, Answer::Area(area)) => {
                calls = self.read_rect(index, read, area);
            },
            (Phase::Outer { index, rect }, Answer::Area(outer)) => {
                calls = self.make_ready(index, rect, outer);
            },
            (Phase::Create { index }, Answer::Created(created)) => {
                calls = self.take_ghost(index, created);
            },
            (Phase::Unready { index, settling }, _) => {
                calls = self.settle_on(index, settling, answer, true);
            },
            (Phase::Opened, _) => {
                if self.any_active() {
                    self.phase = Phase::Idle;
                } else {
                    calls = self.begin_finish(true, Ending::Plain);
                }
            },
            (Phase::Begin, _) => {
                let hwnds = self.hwnds();
                self.owned = self.find_owned(state);
                suppress_slide_events(state, &hwnds, EVENT_GRACE, clock);
                self.phase = if self.move_mouse {
                    Phase::Cover { index: 0 }
                } else {
                    Phase::Clear { index: 0 }
                };
            },
            (Phase::Cover { index }, _) => {
                calls = self.cover(index);
            },
            (Phase::Overlay { index }, Answer::Overlaid(overlaid)) => {
                if let Some((host_hwnd, hdesktop, hthumb)) = overlaid {
                    self.overlays.push(
                        RevealOverlay { host_hwnd, hdesktop, hthumb, disposed: false },
                    );
                }
                self.phase = Phase::Cover { index: index + 1 };
            },
            (Phase::Clear { index }, _) => {
                calls = self.clear(index);
            },
            (Phase::Clearing { index, settling }, _) => {
                calls = self.settle_on(index, settling, answer, false);
            },
            (Phase::Release, _) => {
                calls = self.release(state);
            },
            (Phase::Cursor, Answer::Area(area)) => {
                if let Some(rect) = area {
                    calls.push(SlideCall::CenterCursor { rect });
                }
                self.phase = Phase::FadeStart;
            },
            (Phase::FadeStart, _) => {
                self.phase = if self.overlays.len() > 0 {
                    Phase::Fading { started: clock.now }
                } else {
                    Phase::BusyWorkspace
                };
            },
            (Phase::Fading { started }, _) => {
                calls = self.fade_out_overlays(started, clock.now, state.settle_requests);
            },
            (Phase::BusyWorkspace, Answer::Flag(busy)) => {
                if busy {
                    calls = self.end();
                } else {
                    self.phase = Phase::BusyMovement;
                }
            },
            (Phase::BusyMovement, Answer::Flag(busy)) => {
                if busy {
                    calls = self.end();
                } else if self.focus_hwnd.is_some() {
                    self.phase = Phase::Foreground;
                } else {
                    calls = self.finalise(Vec::new());
                }
            },
            (Phase::Foreground, Answer::Handle(foreground)) => {
                let mut notify: Vec<SlideCall> = Vec::new();
                if let Some(hwnd) = self.focus_hwnd {
                    if hwnd == foreground {
                        notify.push(SlideCall::NotifyFocus { hwnd });
                    }
                }
                calls = self.finalise(notify);
            },
            _ => {},
        }
        let ask = self.ask();
        Step { calls, frame, ask }
    }

    /// Start to prepare the slide: every window is read, cloaked, and gets a ghost.
    pub fn prepare(&mut self) -> (step: Step)
        requires
            old(self)@.wf(),
            old(self)@.phase is Idle,
        ensures
            (final(self)@, step.calls@) == old(self)@.prepare_start(),
            step.frame@.len() == 0,
            step.ask == final(self)@.asked(),
            final(self)@.wf(),
            final(self).style == old(self).style,
    {
        proof {
            law_prepare_keeps_invariant(self@);
        }
        let mut calls: Vec<SlideCall> = Vec::new();
        if !self.prepared {
            self.prepared = true;
            self.borders_suppressed = true;
            calls.push(SlideCall::DisableStackbar { disabled: true });
            calls.push(SlideCall::NotifyStackbar);
            calls.push(SlideCall::SuppressBorders);
            self.phase = Phase::Suppress;
        }
        assert(calls@ =~= old(self)@.prepare_start().1);
        Step { calls, frame: Vec::new(), ask: self.ask() }
    }

    fn start_finish(&mut self, move_mouse: bool, ending: Ending) -> (step: Step)
        requires
            old(self)@.wf(),
            old(self)@.phase is Idle,
        ensures
            (final(self)@, step.calls@) == old(self)@.finish_start(move_mouse, ending),
            step.frame@.len() == 0,
            step.ask == final(self)@.asked(),
            final(self)@.wf(),
            final(self).style == old(self).style,
    {
        proof {
            law_finish_keeps_invariant(self@, move_mouse, ending);
        }
        let calls = self.begin_finish(move_mouse, ending);
        Step { calls, frame: Vec::new(), ask: self.ask() }
    }

    /// Start to finish the slide: every window is put where it belongs and its ghost goes. With
    /// `move_mouse`, the incoming windows are revealed under a fade, and the focus and the cursor go
    /// to their window.
    pub fn finish(&mut self, move_mouse: bool) -> (step: Step)
        requires
            old(self)@.wf(),
            old(self)@.phase is Idle,
        ensures
            (final(self)@, step.calls@) == old(self)@.finish_start(move_mouse, Ending::Plain),
            step.frame@.len() == 0,
            step.ask == final(self)@.asked(),
            final(self)@.wf(),
            final(self).style == old(self).style,
    {
        self.start_finish(move_mouse, Ending::Plain)
    }

    /// Start to switch the stack bars, the transparency and the focus border back on.
    pub fn finalise_managers(&mut self) -> (step: Step)
        requires
            old(self)@.wf(),
            old(self)@.phase is Idle,
        ensures
            final(self)@ == old(self)@.finalise_start(),
            step.calls@.len() == 0,
            step.frame@.len() == 0,
            step.ask == final(self)@.asked(),
            final(self)@.wf(),
            final(self).style == old(self).style,
    {
        self.ending = Ending::Plain;
        self.phase = Phase::BusyWorkspace;
        proof {
            lemma_same_windows(old(self)@, self@);
        }
        Step { calls: Vec::new(), frame: Vec::new(), ask: self.ask() }
    }

    /// What names the animation of this slide.
    pub fn get_animation_key(&self) -> (r: AnimationKey)
        ensures
            r == (AnimationKey { prefix: AnimationPrefix::Workspace, id: self@.monitor_id }),
    {
        AnimationKey { prefix: AnimationPrefix::Workspace, id: self.monitor_id }
    }

    /// Before the first frame: hold the slide lock, then prepare. The first result is `true` when
    /// the caller has to lock it, before anything else.
    pub fn pre_render(&mut self, guard: &mut SlideGuard) -> (r: (bool, Step))
        requires
            old(self)@.wf(),
            old(self)@.phase is Idle,
        ensures
            r.0 == !old(guard).held,
            final(guard).held,
            (final(self)@, r.1.calls@) == old(self)@.prepare_start(),
            r.1.frame@.len() == 0,
            r.1.ask == final(self)@.asked(),
            final(self)@.wf(),
            final(self).style == old(self).style,
    {
        let lock = hold_slide_lock(guard);
        (lock, self.prepare())
    }

    /// A slide is paced by the display.
    pub fn vblank_paced(&self) -> (r: bool)
        ensures
            r,
    {
        true
    }

    /// Whether there is no frame left to render.
    pub fn completed(&self) -> (r: bool)
        ensures
            r == self@.settled,
    {
        self.settled
    }

    /// Start and target of every window that the next frame shows, in order.
    pub fn movements(&self) -> (r: Vec<(Rect, Rect)>)
        ensures
            r@ == self@.shown_windows().map_values(
                |window: TrackedWindow| (window.start, window.target),
            ),
    {
        let mut movements: Vec<(Rect, Rect)> = Vec::new();
        if self.settled {
            assert(movements@ =~= self@.shown_windows().map_values(
                |window: TrackedWindow| (window.start, window.target),
            ));
            return movements;
        }
        let mut index: usize = 0;
        while index < self.windows.len()
            invariant
                index <= self.windows@.len(),
                movements@ == sliding(self.windows@.take(index as int)).map_values(
                    |window: TrackedWindow| (window.start, window.target),
                ),
            decreases self.windows@.len() - index,
        {
            let window = &self.windows[index];
            assert(self.windows@.take(index + 1).drop_last() =~= self.windows@.take(index as int));
            if window.active && window.ghost_window.is_some() {
                movements.push((window.start, window.target));
            }
            index = index + 1;
            assert(movements@ =~= sliding(self.windows@.take(index as int)).map_values(
                |window: TrackedWindow| (window.start, window.target),
            ));
        }
        assert(self.windows@.take(index as int) =~= self.windows@);
        movements
    }

    /// Whether every shown window can be clipped at its rect in this frame.
    pub fn is_frame_fit(&self, visuals: &[Rect]) -> (r: bool)
        ensures
            r == self@.frame_fits(visuals@),
    {
        let windows = self.shown();
        if visuals.len() != windows.len() {
            return false;
        }
        let mut index: usize = 0;
        while index < windows.len()
            invariant
                index <= windows@.len(),
                windows@.len() == visuals@.len(),
                windows@.len() == self@.shown_windows().len(),
                forall|i: int|
                    0 <= i < windows@.len() ==> *(#[trigger] windows@[i]) == self@.shown_windows()[i],
                forall|i: int|
                    0 <= i < index ==> (#[trigger] self@.shown_windows()[i]).shown_fits(
                        visuals@[i],
                        self@.monitor_bounds,
                    ),
            decreases windows@.len() - index,
        {
            if !is_clip_nameable(windows[index], visuals[index], self.monitor_bounds) {
                assert(!self@.shown_windows()[index as int].shown_fits(
                    visuals@[index as int],
                    self@.monitor_bounds,
                ));
                return false;
            }
            index = index + 1;
        }
        true
    }

    /// The windows that the next frame shows.
    fn shown(&self) -> (r: Vec<&TrackedWindow>)
        ensures
            r@.len() == self@.shown_windows().len(),
            forall|i: int| 0 <= i < r@.len() ==> *(#[trigger] r@[i]) == self@.shown_windows()[i],
            forall|i: int|
                0 <= i < r@.len() ==> (#[trigger] self@.shown_windows()[i]).ghost_window is Some,
    {
        let mut shown: Vec<&TrackedWindow> = Vec::new();
        if self.settled {
            return shown;
        }
        let mut index: usize = 0;
        while index < self.windows.len()
            invariant
                index <= self.windows@.len(),
                shown@.len() == sliding(self.windows@.take(index as int)).len(),
                forall|i: int|
                    0 <= i < shown@.len() ==> *(#[trigger] shown@[i]) == sliding(
                        self.windows@.take(index as int),
                    )[i],
                forall|i: int|
                    0 <= i < shown@.len() ==> (#[trigger] sliding(
                        self.windows@.take(index as int),
                    )[i]).ghost_window is Some,
            decreases self.windows@.len() - index,
        {
            let window = &self.windows[index];
            assert(self.windows@.take(index + 1).drop_last() =~= self.windows@.take(index as int));
            if window.active && window.ghost_window.is_some() {
                shown.push(window);
            }
            index = index + 1;
        }
        assert(self.windows@.take(index as int) =~= self.windows@);
        shown
    }

    /// One frame: each shown window is at its rect. Nothing is sent once the slide is finishing, or
    /// where nothing is shown.
    pub fn render(&self, visuals: &[Rect]) -> (r: Option<GhostCmd>)
        requires
            self@.frame_fits(visuals@),
        ensures
            match r {
                Some(GhostCmd::Present { clips }) => {
                    &&& clips@.len() > 0
                    &&& clips@ == self@.frame(visuals@)
                },
                Some(_) => false,
                None => self@.frame(visuals@).len() == 0,
            },
    {
        let windows = self.shown();
        let mut clips: Vec<GhostClip> = Vec::new();
        let mut index: usize = 0;
        while index < windows.len()
            invariant
                index <= windows@.len(),
                self@.frame_fits(visuals@),
                windows@.len() == self@.shown_windows().len(),
                forall|i: int|
                    0 <= i < windows@.len() ==> *(#[trigger] windows@[i]) == self@.shown_windows()[i],
                forall|i: int|
                    0 <= i < windows@.len() ==> (#[trigger] self@.shown_windows()[i]).ghost_window
                        is Some,
                clips@ == self@.frame(visuals@).take(index as int),
            decreases windows@.len() - index,
        {
            let window = windows[index];
            assert(*window == self@.shown_windows()[index as int]);
            if let Some(ghost) = &window.ghost_window {
                clips.push(clip_for(ghost, window, visuals[index], self.monitor_bounds));
            }
            index = index + 1;
            assert(clips@ =~= self@.frame(visuals@).take(index as int));
        }
        assert(self@.frame(visuals@).take(index as int) =~= self@.frame(visuals@));
        present_clips(clips)
    }

    /// After the last frame: finish the slide, finalise the managers, and let the slide lock go.
    pub fn post_render(&mut self) -> (step: Step)
        requires
            old(self)@.wf(),
            old(self)@.phase is Idle,
        ensures
            (final(self)@, step.calls@) == old(self)@.finish_start(
                true,
                Ending::FinaliseAndRelease,
            ),
            step.frame@.len() == 0,
            step.ask == final(self)@.asked(),
            final(self)@.wf(),
            final(self).style == old(self).style,
    {
        self.start_finish(true, Ending::FinaliseAndRelease)
    }

    /// When the slide is cancelled, or goes away: finish it without a fade and without the focus,
    /// and let the slide lock go.
    pub fn cleanup_on_cancel(&mut self) -> (step: Step)
        requires
            old(self)@.wf(),
            old(self)@.phase is Idle,
        ensures
            (final(self)@, step.calls@) == old(self)@.finish_start(false, Ending::Release),
            step.frame@.len() == 0,
            step.ask == final(self)@.asked(),
            final(self)@.wf(),
            final(self).style == old(self).style,
    {
        self.start_finish(false, Ending::Release)
    }

    /// The run of the slide broke off in the middle, wherever that was: give up what was under way
    /// and take down the overlays that are up. After this it can be cleaned up like any other.
    pub fn interrupt(&mut self) -> (calls: Vec<SlideCall>)
        requires
            old(self)@.wf(),
        ensures
            final(self)@ == old(self)@.interrupted(),
            calls@ == uncover_calls(old(self)@.overlays),
            final(self)@.wf(),
            final(self).style == old(self).style,
    {
        let calls = self.uncover();
        self.opening = Vec::new();
        self.ending = Ending::Plain;
        self.phase = Phase::Idle;
        proof {
            law_interrupt_keeps_invariant(old(self)@);
        }
        assert(self@ =~= old(self)@.interrupted());
        calls
    }

    /// The slide goes away: let go of every ghost that it still has.
    pub fn abandon(&mut self) -> (calls: Vec<SlideCall>)
        requires
            old(self)@.wf(),
            old(self)@.phase is Idle,
        ensures
            final(self)@ == old(self)@.abandoned(),
            calls@ == abandon_calls(old(self)@.windows),
            final(self)@.wf(),
            final(self).style == old(self).style,
    {
        let mut calls: Vec<SlideCall> = Vec::new();
        let mut index: usize = 0;
        let ghost before = self.windows@;
        while index < self.windows.len()
            invariant
                index <= self.windows@.len(),
                self.windows@.len() == before.len(),
                before == old(self)@.windows,
                self@ == (SlideModel { windows: self.windows@, ..old(self)@ }),
                self.style == old(self).style,
                forall|i: int| 0 <= i < index ==> #[trigger] self.windows@[i] == dropped(before[i]),
                forall|i: int| index <= i < before.len() ==> #[trigger] self.windows@[i] == before[i],
                calls@ == abandon_calls(before.take(index as int)),
            decreases self.windows@.len() - index,
        {
            assert(before.take(index + 1).drop_last() =~= before.take(index as int));
            drop_ghost(&mut self.windows[index], &mut calls);
            index = index + 1;
        }
        assert(before.take(index as int) =~= before);
        assert(self@ =~= old(self)@.abandoned());
        calls
    }
}

/// The shared state once a slide of these windows has begun.
pub open spec fn slide_started(
    state: SlideStateModel,
    hwnds: Seq<isize>,
    duration: u128,
    clock: Clock,
) -> SlideStateModel {
    SlideStateModel {
        next_slide_id: state.next_slide_id.wrapping_add(1),
        driven: assigned(state.driven, hwnds, state.next_slide_id),
        active: state.active.wrapping_add(1),
        ..events_suppressed(state, hwnds, (duration + EVENT_GRACE) as u128, clock)
    }
}

/// Whether a slide of this duration can begin now: its deadline stays in the range of the clock.
pub fn is_startable(clock: Clock, duration: u128) -> (r: bool)
    ensures
        r == (clock.asked + duration + EVENT_GRACE <= u128::MAX),
{
    duration <= u128::MAX - EVENT_GRACE && clock.asked <= u128::MAX - EVENT_GRACE - duration
}

/// A workspace change begins to slide: the events of its windows are ignored, it takes its windows
/// over from any older slide, and it is prepared.
///
/// The events have to be ignored before the animation runs. Show and uncloak events from the restore
/// are queued while the command still holds the window-manager lock, and they must already be
/// ignored when that lock is released. The windows have to be placed before the caller goes on: its
/// layout update would otherwise start a movement animation and pull them back to the destination.
pub fn start_slide<S>(
    state: &mut SlideState,
    clock: Clock,
    request: SlideRequest,
    duration: u128,
    style: S,
) -> (r: (WorkspaceSlideDispatcher<S>, Step))
    requires
        clock.asked + duration + EVENT_GRACE <= u128::MAX,
    ensures
        (r.0@, r.1.calls@) == request.slide(old(state)@.next_slide_id).prepare_start(),
        r.1.frame@.len() == 0,
        r.1.ask == r.0@.asked(),
        r.0@.wf(),
        r.0.style == style,
        final(state)@ == slide_started(
            old(state)@,
            request.outgoing@ + request.incoming@,
            duration,
            clock,
        ),
{
    let mut hwnds: Vec<isize> = Vec::new();
    append_all(&mut hwnds, &request.outgoing);
    append_all(&mut hwnds, &request.incoming);
    assert(hwnds@ =~= request.outgoing@ + request.incoming@);
    suppress_slide_events(state, &hwnds, duration + EVENT_GRACE, clock);
    let slide_id: usize = state.next_slide_id;
    state.next_slide_id = slide_id.wrapping_add(1);
    drive_slide_windows(state, &hwnds, slide_id);
    state.active = state.active.wrapping_add(1);

    let mut dispatcher = WorkspaceSlideDispatcher::new(request, style, slide_id);
    let step = dispatcher.prepare();
    (dispatcher, step)
}

fn append_all(hwnds: &mut Vec<isize>, more: &Vec<isize>)
    ensures
        final(hwnds)@ == old(hwnds)@ + more@,
{
    let ghost before = hwnds@;
    let mut index: usize = 0;
    assert(hwnds@ =~= before + more@.take(0));
    while index < more.len()
        invariant
            index <= more@.len(),
            hwnds@ == before + more@.take(index as int),
        decreases more@.len() - index,
    {
        hwnds.push(more[index]);
        index = index + 1;
        assert(hwnds@ =~= before + more@.take(index as int));
    }
    assert(more@.take(index as int) =~= more@);
}

} // verus!

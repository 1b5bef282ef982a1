use std::collections::{HashMap, HashSet};

use workspace_slide::dispatcher::{
    Phase, SlideRequest, Step, WorkspaceSlideDispatcher, REVEAL_FADE,
};
use workspace_slide::geometry::{slide_offset, Rect};
use workspace_slide::ghost::{GhostClip, GhostCmd, GhostWindow};
use workspace_slide::registry::{
    drive_slide_windows, slide_drives_window, slide_event_suppressed, slide_in_progress,
    slide_owns_window, Clock, SlideState, EVENT_GRACE, MILLISECOND,
};
use workspace_slide::run::{is_startable, start_slide};
use workspace_slide::settings::AnimationPrefix;
use workspace_slide::settle::{AnimationKey, SlideGuard};
use workspace_slide::window::{
    clip_for, cloak_windows, conceal_outgoing, is_answer, is_clip_nameable, place_incoming,
    place_next, reveal_incoming, settle_window_next, settle_window_now, snapshot_visible,
    thumbnail_source, tracked_window, uncloak_windows, visible_rect, Answer, Ask, Placing,
    RectRead, Settling, SlideCall, TrackedWindow, CLOAK_KIND, CLOAK_OFF, CLOAK_ON,
};

const MONITOR: Rect = Rect {
    left: 0,
    top: 0,
    right: 1920,
    bottom: 1080,
};
const DURATION: u128 = 250 * MILLISECOND;

fn rect(left: i32, top: i32, right: i32, bottom: i32) -> Rect {
    Rect {
        left,
        top,
        right,
        bottom,
    }
}

fn cloak(hwnd: isize) -> SlideCall {
    SlideCall::SetCloak {
        hwnd,
        kind: CLOAK_KIND,
        value: CLOAK_ON,
    }
}

fn uncloak(hwnd: isize) -> SlideCall {
    SlideCall::SetCloak {
        hwnd,
        kind: CLOAK_KIND,
        value: CLOAK_OFF,
    }
}

/// A window system that answers every question and remembers every call.
struct Desk {
    now: u128,
    rects: HashMap<isize, Rect>,
    outer: HashMap<isize, Rect>,
    maximized: HashSet<isize>,
    cloak_hides: bool,
    /// Sources that no ghost can be made of.
    ghostless: HashSet<isize>,
    /// Sources that no overlay can be made of.
    overlayless: HashSet<isize>,
    busy: HashSet<&'static str>,
    foreground: isize,
    next_handle: isize,
    log: Vec<SlideCall>,
    frames: Vec<Vec<GhostClip>>,
    asked: Vec<Ask>,
    ghosts: HashSet<(isize, isize)>,
    overlays: HashSet<(isize, isize, isize)>,
    /// Steps taken, those of the fade left out.
    steps: usize,
}

impl Desk {
    fn new(rects: &[(isize, Rect)]) -> Desk {
        Desk {
            now: 1_000,
            rects: rects.iter().copied().collect(),
            outer: HashMap::new(),
            maximized: HashSet::new(),
            cloak_hides: false,
            ghostless: HashSet::new(),
            overlayless: HashSet::new(),
            busy: HashSet::new(),
            foreground: 0,
            next_handle: 100,
            log: Vec::new(),
            frames: Vec::new(),
            asked: Vec::new(),
            ghosts: HashSet::new(),
            overlays: HashSet::new(),
            steps: 0,
        }
    }

    fn handle(&mut self) -> isize {
        self.next_handle += 1;
        self.next_handle
    }

    fn clock(&self) -> Clock {
        Clock {
            asked: self.now,
            now: self.now,
        }
    }

    fn call(&mut self, call: SlideCall) {
        match &call {
            SlideCall::Send {
                cmd: GhostCmd::Destroy { host_hwnd, hthumb },
            } => assert!(self.ghosts.remove(&(*host_hwnd, *hthumb))),
            SlideCall::Send {
                cmd:
                    GhostCmd::DestroyOverlay {
                        host_hwnd,
                        hdesktop,
                        hthumb,
                    },
            } => assert!(self.overlays.remove(&(*host_hwnd, *hdesktop, *hthumb))),
            SlideCall::Flush => self.now += 16 * MILLISECOND,
            _ => {}
        }
        self.log.push(call);
    }

    fn answer(&mut self, ask: &Ask) -> Answer {
        match ask {
            Ask::Nothing => Answer::Nothing,
            Ask::Finished => unreachable!(),
            Ask::WindowRect { hwnd } => Answer::Area(self.rects.get(hwnd).copied()),
            Ask::OuterRect { hwnd } => Answer::Area(self.outer.get(hwnd).copied()),
            Ask::IsMaximized { hwnd } => Answer::Flag(self.maximized.contains(hwnd)),
            Ask::CloakHides => Answer::Flag(self.cloak_hides),
            Ask::CreateGhost { cmd } => match cmd {
                GhostCmd::Create { src_hwnd, .. } => {
                    if self.ghostless.contains(src_hwnd) {
                        return Answer::Created(None);
                    }
                    let made = (self.handle(), self.handle());
                    self.ghosts.insert(made);
                    Answer::Created(Some(made))
                }
                _ => panic!("not a ghost"),
            },
            Ask::CreateOverlay { cmd } => match cmd {
                GhostCmd::CreateOverlay { src_hwnd, .. } => {
                    if self.overlayless.contains(src_hwnd) {
                        return Answer::Overlaid(None);
                    }
                    let made = (self.handle(), self.handle(), self.handle());
                    self.overlays.insert(made);
                    Answer::Overlaid(Some(made))
                }
                _ => panic!("not an overlay"),
            },
            Ask::InProgress { prefix } => Answer::Flag(match prefix {
                AnimationPrefix::Workspace => self.busy.contains("workspace"),
                AnimationPrefix::Movement => self.busy.contains("movement"),
                AnimationPrefix::Transparency => false,
            }),
            Ask::Foreground => Answer::Handle(self.foreground),
        }
    }

    /// Go on until there is nothing more to do.
    fn run(
        &mut self,
        slide: &mut WorkspaceSlideDispatcher<&'static str>,
        state: &mut SlideState,
        mut step: Step,
    ) {
        for _ in 0..10_000 {
            for call in step.calls {
                self.call(call);
            }
            if !step.frame.is_empty() {
                self.frames.push(step.frame);
            }
            if step.ask == Ask::Finished {
                return;
            }
            let answer = self.answer(&step.ask);
            if step.ask != Ask::Nothing {
                self.asked.push(step.ask);
            }
            assert!(slide.is_acceptable(self.clock(), &answer));
            let before = slide.phase;
            step = slide.resume(state, self.clock(), answer);
            if slide.phase != before {
                self.steps += 1;
            }
        }
        panic!("the slide does not end");
    }

    fn count(&self, call: &SlideCall) -> usize {
        self.log.iter().filter(|made| *made == call).count()
    }

    fn touched(&self, hwnd: isize) -> bool {
        self.log.iter().any(|call| match call {
            SlideCall::SetCloak { hwnd: other, .. }
            | SlideCall::Restore { hwnd: other }
            | SlideCall::Hide { hwnd: other }
            | SlideCall::MoveExact { hwnd: other, .. }
            | SlideCall::Position { hwnd: other, .. }
            | SlideCall::Focus { hwnd: other } => *other == hwnd,
            _ => false,
        })
    }
}

fn request(outgoing: Vec<isize>, incoming: Vec<isize>) -> SlideRequest {
    SlideRequest {
        monitor_id: 3,
        outgoing,
        incoming,
        focus_hwnd: None,
        mouse_follows_focus: false,
        offset: slide_offset(0, 1, MONITOR.right),
        monitor_bounds: MONITOR,
        duration: DURATION,
        incoming_from: HashMap::new(),
        floating: HashSet::new(),
        floating_outer: HashMap::new(),
    }
}

/// One window leaves, one enters, to a workspace on the right.
fn desk_of_two() -> Desk {
    Desk::new(&[(1, rect(0, 0, 960, 1080)), (2, rect(960, 0, 960, 1080))])
}

fn start(
    desk: &mut Desk,
    state: &mut SlideState,
    request: SlideRequest,
) -> WorkspaceSlideDispatcher<&'static str> {
    let (mut slide, step) = start_slide(state, desk.clock(), request, DURATION, "linear");
    desk.run(&mut slide, state, step);
    slide
}

#[test]
fn a_slide_prepares_its_windows() {
    let mut desk = desk_of_two();
    let mut state = SlideState::new();
    let slide = start(&mut desk, &mut state, request(vec![1], vec![2]));

    assert!(slide_in_progress(&state));
    assert_eq!(state.next_slide_id, 2);
    assert!(slide_owns_window(&state, 1, 1) && slide_owns_window(&state, 2, 1));
    assert!(slide_event_suppressed(&mut state, 1, desk.now));
    assert!(!slide.completed());
    assert!(slide.vblank_paced());
    assert_eq!(
        slide.get_animation_key(),
        AnimationKey {
            prefix: AnimationPrefix::Workspace,
            id: 3
        }
    );
    assert_eq!(
        desk.log,
        vec![
            SlideCall::DisableStackbar { disabled: true },
            SlideCall::NotifyStackbar,
            SlideCall::SuppressBorders,
            cloak(1),
            cloak(2),
        ]
    );
    assert_eq!(
        slide.movements(),
        vec![
            (rect(0, 0, 960, 1080), rect(-1920, 0, 960, 1080)),
            (rect(2880, 0, 960, 1080), rect(960, 0, 960, 1080)),
        ]
    );
}

#[test]
fn the_opening_frame_shows_every_ghost_at_its_start() {
    let mut desk = desk_of_two();
    let mut state = SlideState::new();
    start(&mut desk, &mut state, request(vec![1], vec![2]));
    assert_eq!(desk.frames.len(), 1);
    let frame = &desk.frames[0];
    assert_eq!(frame.len(), 2);
    assert_eq!(frame[0].host, Some(rect(0, 0, 960, 1080)));
    // The incoming window is still beyond the right side.
    assert_eq!(frame[1].host, None);
}

#[test]
fn workspaces_cross_the_monitor() {
    // To a lower index everything goes the other way.
    let mut desk = desk_of_two();
    let mut state = SlideState::new();
    let mut back = request(vec![1], vec![2]);
    back.offset = slide_offset(1, 0, MONITOR.right);
    let slide = start(&mut desk, &mut state, back);
    assert_eq!(
        slide.movements(),
        vec![
            (rect(0, 0, 960, 1080), rect(1920, 0, 960, 1080)),
            (rect(-960, 0, 960, 1080), rect(960, 0, 960, 1080)),
        ]
    );
}

#[test]
fn an_earlier_rect_is_where_a_window_comes_from() {
    let mut desk = desk_of_two();
    let mut state = SlideState::new();
    let mut asked = request(vec![], vec![2]);
    asked.incoming_from.insert(2, rect(100, 50, 400, 300));
    let slide = start(&mut desk, &mut state, asked);
    assert_eq!(
        slide.movements(),
        vec![(rect(2020, 50, 400, 300), rect(960, 0, 960, 1080))]
    );

    // A floating window is not retiled.
    let mut desk = desk_of_two();
    let mut state = SlideState::new();
    let mut asked = request(vec![], vec![2]);
    asked.incoming_from.insert(2, rect(100, 50, 400, 300));
    asked.floating.insert(2);
    let slide = start(&mut desk, &mut state, asked);
    assert_eq!(
        slide.movements(),
        vec![(rect(2020, 50, 400, 300), rect(100, 50, 400, 300))]
    );
}

#[test]
fn frames_stay_on_the_monitor() {
    let mut desk = desk_of_two();
    let mut state = SlideState::new();
    let slide = start(&mut desk, &mut state, request(vec![1], vec![2]));
    let halfway = [rect(-960, 0, 960, 1080), rect(1920, 0, 960, 1080)];
    assert!(slide.is_frame_fit(&halfway));
    let clips = match slide.render(&halfway) {
        Some(GhostCmd::Present { clips }) => clips,
        _ => panic!("a frame"),
    };
    assert_eq!(clips[0].host, None);
    assert_eq!(clips[1].host, None);

    let later = [rect(-1500, 0, 960, 1080), rect(1400, 0, 960, 1080)];
    let clips = match slide.render(&later) {
        Some(GhostCmd::Present { clips }) => clips,
        _ => panic!("a frame"),
    };
    assert_eq!(clips[0].host, None);
    assert_eq!(clips[1].host, Some(rect(1400, 0, 520, 1080)));
    assert_eq!((clips[1].source_x, clips[1].source_width), (0, 520));
    assert!(!slide.is_frame_fit(&later[..1]));
}

#[test]
fn a_finished_slide_puts_every_window_back() {
    let mut desk = desk_of_two();
    let mut state = SlideState::new();
    let mut asked = request(vec![1], vec![2]);
    asked.focus_hwnd = Some(2);
    asked.mouse_follows_focus = true;
    let mut slide = start(&mut desk, &mut state, asked);
    desk.foreground = 2;
    desk.log.clear();

    let step = slide.post_render();
    desk.run(&mut slide, &mut state, step);

    let reveal = desk.log.iter().position(|call| *call == uncloak(2));
    let hide = desk
        .log
        .iter()
        .position(|call| *call == SlideCall::Hide { hwnd: 1 });
    let dropped = desk.log.iter().position(|call| *call == uncloak(1));
    assert!(hide < dropped, "a cloak goes only from a hidden window");
    let reveal = reveal.expect("the incoming window is uncloaked");
    assert!(matches!(
        desk.log[reveal + 1],
        SlideCall::UpdateThumb { .. }
    ));
    assert_eq!(desk.log[reveal + 2], SlideCall::Restore { hwnd: 2 });
    assert!(matches!(
        desk.log[reveal + 3],
        SlideCall::Send {
            cmd: GhostCmd::Destroy { .. }
        }
    ));
    assert_eq!(desk.count(&SlideCall::RestoreBorders), 1);
    assert_eq!(desk.count(&SlideCall::Focus { hwnd: 2 }), 1);
    assert_eq!(
        desk.count(&SlideCall::CenterCursor {
            rect: rect(960, 0, 960, 1080)
        }),
        1
    );
    assert_eq!(desk.log.last(), Some(&SlideCall::ReleaseLock));

    assert!(desk.ghosts.is_empty() && desk.overlays.is_empty());
    assert!(!slide_in_progress(&state));
    assert!(!slide_drives_window(&state, 1) && !slide_drives_window(&state, 2));
    assert!(slide.completed());
    assert!(slide.movements().is_empty());
    assert_eq!(slide.render(&[]), None);
    assert!(slide.windows.iter().all(|window| !window.active));
    assert!(slide_event_suppressed(&mut state, 2, desk.now));
}

#[test]
fn a_reveal_fades_for_half_the_slide_at_most() {
    let mut desk = desk_of_two();
    let mut state = SlideState::new();
    let mut slide = start(&mut desk, &mut state, request(vec![1], vec![2]));
    desk.log.clear();
    let step = slide.finish(true);
    desk.run(&mut slide, &mut state, step);
    let fade: Vec<(u128, u128)> = desk
        .log
        .iter()
        .filter_map(|call| match call {
            SlideCall::FadeOverlay {
                elapsed, duration, ..
            } => Some((*elapsed, *duration)),
            _ => None,
        })
        .collect();
    assert_eq!(fade[0], (0, DURATION / 2));
    assert_eq!(fade[1], (16 * MILLISECOND, DURATION / 2));
    assert_eq!(fade.len(), 8);

    // A long slide fades no longer than a short one.
    let mut desk = desk_of_two();
    let mut long = request(vec![1], vec![2]);
    long.duration = 5_000 * MILLISECOND;
    let mut slide = start(&mut desk, &mut state, long);
    let step = slide.finish(true);
    desk.run(&mut slide, &mut state, step);
    assert!(desk.log.iter().any(|call| matches!(
        call,
        SlideCall::FadeOverlay { duration, .. } if *duration == REVEAL_FADE
    )));

    // A slide without a duration does not fade at all.
    let mut desk = desk_of_two();
    let mut instant = request(vec![1], vec![2]);
    instant.duration = 0;
    let mut slide = start(&mut desk, &mut state, instant);
    let step = slide.finish(true);
    desk.run(&mut slide, &mut state, step);
    assert!(!desk
        .log
        .iter()
        .any(|call| matches!(call, SlideCall::FadeOverlay { .. })));
    assert!(desk.overlays.is_empty());
}

#[test]
fn a_waiting_slide_cuts_the_fade_short() {
    let mut desk = desk_of_two();
    let mut state = SlideState::new();
    let mut slide = start(&mut desk, &mut state, request(vec![1], vec![2]));
    state.settle_requests = 1;
    let step = slide.finish(true);
    desk.run(&mut slide, &mut state, step);
    assert!(!desk
        .log
        .iter()
        .any(|call| matches!(call, SlideCall::FadeOverlay { .. })));
    assert!(desk.overlays.is_empty());
}

#[test]
fn a_slide_ends_within_its_steps() {
    let mut desk = desk_of_two();
    desk.rects.insert(1, rect(-32_000, -32_000, 10, 10));
    let mut state = SlideState::new();
    let mut asked = request(vec![1], vec![2]);
    asked.focus_hwnd = Some(2);
    asked.mouse_follows_focus = true;
    let mut slide = start(&mut desk, &mut state, asked);
    let windows = slide.windows.len();
    assert!(desk.steps <= 8 * windows + 3);
    desk.steps = 0;
    let step = slide.post_render();
    desk.run(&mut slide, &mut state, step);
    assert!(desk.steps <= 6 * windows + 15);
}

#[test]
fn a_cancelled_slide_takes_no_focus_and_does_not_fade() {
    let mut desk = desk_of_two();
    let mut state = SlideState::new();
    let mut asked = request(vec![1], vec![2]);
    asked.focus_hwnd = Some(2);
    asked.mouse_follows_focus = true;
    let mut slide = start(&mut desk, &mut state, asked);
    desk.log.clear();
    desk.asked.clear();
    let step = slide.cleanup_on_cancel();
    desk.run(&mut slide, &mut state, step);
    assert!(!desk.log.iter().any(|call| matches!(
        call,
        SlideCall::Focus { .. } | SlideCall::CenterCursor { .. } | SlideCall::FadeOverlay { .. }
    )));
    assert!(!desk
        .asked
        .iter()
        .any(|ask| matches!(ask, Ask::CreateOverlay { .. })));
    assert_eq!(desk.count(&SlideCall::Restore { hwnd: 2 }), 1);
    assert_eq!(desk.count(&SlideCall::Hide { hwnd: 1 }), 1);
    assert_eq!(desk.log.last(), Some(&SlideCall::ReleaseLock));
    assert!(desk.ghosts.is_empty());
}

#[test]
fn a_slide_prepares_and_finishes_once() {
    let mut desk = desk_of_two();
    let mut state = SlideState::new();
    let mut slide = start(&mut desk, &mut state, request(vec![1], vec![2]));
    let again = slide.prepare();
    assert!(again.calls.is_empty());
    assert_eq!(again.ask, Ask::Finished);

    let step = slide.finish(false);
    desk.run(&mut slide, &mut state, step);
    desk.log.clear();
    let again = slide.finish(true);
    assert!(again.calls.is_empty());
    assert_eq!(again.ask, Ask::Finished);
    assert!(!slide_in_progress(&state));

    // What comes after the last frame still finalises the managers.
    let step = slide.post_render();
    desk.run(&mut slide, &mut state, step);
    assert_eq!(
        desk.log,
        vec![
            SlideCall::DisableStackbar { disabled: false },
            SlideCall::NotifyStackbar,
            SlideCall::NotifyTransparency,
            SlideCall::ReleaseLock,
        ]
    );
}

#[test]
fn a_slide_that_was_never_prepared_puts_nothing_back() {
    let mut desk = desk_of_two();
    let mut state = SlideState::new();
    let mut slide = WorkspaceSlideDispatcher::new(request(vec![1], vec![2]), "linear", 5);
    let step = slide.cleanup_on_cancel();
    desk.run(&mut slide, &mut state, step);
    assert_eq!(desk.log, vec![SlideCall::ReleaseLock]);
    assert!(slide.completed());
}

#[test]
fn the_lock_comes_before_the_first_frame() {
    let mut slide = WorkspaceSlideDispatcher::new(request(vec![1], vec![2]), "linear", 5);
    let mut guard = SlideGuard { held: false };
    let (lock, step) = slide.pre_render(&mut guard);
    assert!(lock && guard.held);
    assert_eq!(step.calls.len(), 3);
    assert_eq!(slide.phase, Phase::Suppress);

    let mut slide = WorkspaceSlideDispatcher::new(request(vec![1], vec![2]), "linear", 6);
    let (lock, _) = slide.pre_render(&mut guard);
    assert!(!lock);
}

#[test]
fn a_newer_slide_takes_windows_over() {
    let mut desk = desk_of_two();
    desk.rects.insert(9, rect(0, 0, 500, 500));
    let mut state = SlideState::new();
    let mut older = start(&mut desk, &mut state, request(vec![1], vec![2]));
    let newer = start(&mut desk, &mut state, request(vec![2], vec![9]));
    assert_ne!(older.slide_id, newer.slide_id);
    assert_eq!(state.active, 2);
    desk.log.clear();

    let step = older.cleanup_on_cancel();
    desk.run(&mut older, &mut state, step);
    assert!(desk.touched(1));
    assert!(!desk.touched(2), "the newer slide decides");
    assert!(slide_owns_window(&state, 2, newer.slide_id));
    assert!(!slide_drives_window(&state, 1));
    assert_eq!(state.active, 1);
    // Its own two ghosts are gone all the same.
    assert_eq!(desk.ghosts.len(), 2);
}

#[test]
fn a_window_that_leaves_and_enters_is_incoming_once() {
    let mut asked = request(vec![1, 2, 1], vec![2, 3, 3, 1]);
    asked.floating.insert(3);
    asked.floating_outer.insert(3, rect(1, 2, 3, 4));
    let slide = WorkspaceSlideDispatcher::new(asked, "linear", 5);
    let windows: Vec<(isize, bool, bool)> = slide
        .windows
        .iter()
        .map(|window| (window.hwnd, window.incoming, window.floating))
        .collect();
    assert_eq!(
        windows,
        vec![
            (1, true, false),
            (2, true, false),
            (1, false, false),
            (3, true, true)
        ]
    );
    assert_eq!(slide.windows[3].outer, Some(rect(1, 2, 3, 4)));
    assert!(slide.windows.iter().all(|window| window.cloaked));
    assert_eq!(slide.phase, Phase::Idle);
    assert_eq!(slide.style, "linear");
}

#[test]
fn a_window_without_a_rect_is_put_back_at_once() {
    let mut desk = Desk::new(&[(1, rect(0, 0, 960, 1080))]);
    let mut state = SlideState::new();
    let slide = start(&mut desk, &mut state, request(vec![1], vec![2]));
    // Window 2 is shown where it is; it is not part of the slide.
    assert_eq!(desk.count(&uncloak(2)), 1);
    assert_eq!(desk.count(&SlideCall::Restore { hwnd: 2 }), 1);
    assert_eq!(slide.movements().len(), 1);
    assert!(!slide.completed());
}

#[test]
fn a_window_without_a_ghost_is_put_back_at_once() {
    let mut desk = desk_of_two();
    desk.ghostless.insert(1);
    let mut state = SlideState::new();
    let slide = start(&mut desk, &mut state, request(vec![1], vec![2]));
    assert_eq!(desk.count(&SlideCall::Hide { hwnd: 1 }), 1);
    assert_eq!(slide.movements().len(), 1);
}

#[test]
fn a_slide_in_which_nothing_moves_finishes_at_once() {
    let mut desk = desk_of_two();
    desk.ghostless.insert(1);
    desk.ghostless.insert(2);
    let mut state = SlideState::new();
    let slide = start(&mut desk, &mut state, request(vec![1], vec![2]));
    assert!(slide.completed());
    assert!(desk.frames.is_empty());
    assert!(!slide_in_progress(&state));
    assert_eq!(desk.count(&SlideCall::RestoreBorders), 1);
    assert_eq!(desk.count(&SlideCall::NotifyTransparency), 1);
    assert!(desk.ghosts.is_empty() && desk.overlays.is_empty());
}

#[test]
fn a_missing_overlay_stops_nothing() {
    let mut desk = desk_of_two();
    desk.overlayless.insert(2);
    let mut state = SlideState::new();
    let mut slide = start(&mut desk, &mut state, request(vec![1], vec![2]));
    desk.log.clear();
    let step = slide.finish(true);
    desk.run(&mut slide, &mut state, step);
    assert_eq!(desk.count(&SlideCall::Flush), 0);
    assert_eq!(desk.count(&SlideCall::Restore { hwnd: 2 }), 1);
}

#[test]
fn managers_wait_for_the_last_animation() {
    for (busy, notified) in [("workspace", false), ("movement", false), ("", true)] {
        let mut desk = desk_of_two();
        let mut state = SlideState::new();
        let mut asked = request(vec![1], vec![2]);
        asked.focus_hwnd = Some(2);
        let mut slide = start(&mut desk, &mut state, asked);
        desk.busy.insert(busy);
        desk.foreground = 2;
        desk.log.clear();
        let step = slide.finalise_managers();
        desk.run(&mut slide, &mut state, step);
        assert_eq!(
            desk.count(&SlideCall::DisableStackbar { disabled: false }) == 1,
            notified
        );
        assert_eq!(
            desk.count(&SlideCall::NotifyFocus { hwnd: 2 }) == 1,
            notified
        );
    }

    // The focus is announced only where it is.
    let mut desk = desk_of_two();
    let mut state = SlideState::new();
    let mut asked = request(vec![1], vec![2]);
    asked.focus_hwnd = Some(2);
    let mut slide = start(&mut desk, &mut state, asked);
    desk.foreground = 7;
    let step = slide.finalise_managers();
    desk.run(&mut slide, &mut state, step);
    assert_eq!(desk.count(&SlideCall::NotifyFocus { hwnd: 2 }), 0);
    assert_eq!(desk.count(&SlideCall::NotifyTransparency), 1);
}

#[test]
fn an_abandoned_slide_leaves_no_ghost() {
    let mut desk = desk_of_two();
    let mut state = SlideState::new();
    // Settled before it was prepared, so nothing else takes its ghosts down.
    let mut slide = WorkspaceSlideDispatcher::new(request(vec![1], vec![2]), "linear", 5);
    let step = slide.finish(false);
    desk.run(&mut slide, &mut state, step);
    let step = slide.prepare();
    desk.run(&mut slide, &mut state, step);
    assert_eq!(desk.ghosts.len(), 2);
    let step = slide.cleanup_on_cancel();
    desk.run(&mut slide, &mut state, step);
    assert_eq!(desk.ghosts.len(), 2);
    for call in slide.abandon() {
        desk.call(call);
    }
    assert!(desk.ghosts.is_empty());
    assert!(slide.abandon().is_empty());
}

#[test]
fn a_slide_that_breaks_off_leaves_nothing_behind() {
    // In the middle of the fade: the overlay is up, the windows are back.
    let mut desk = desk_of_two();
    let mut state = SlideState::new();
    let mut slide = start(&mut desk, &mut state, request(vec![1], vec![2]));
    let mut step = slide.finish(true);
    while !matches!(slide.phase, Phase::Fading { .. }) {
        for call in step.calls {
            desk.call(call);
        }
        let answer = desk.answer(&step.ask);
        step = slide.resume(&mut state, desk.clock(), answer);
    }
    assert_eq!(desk.overlays.len(), 1);
    for call in slide.interrupt() {
        desk.call(call);
    }
    assert!(desk.overlays.is_empty());
    assert_eq!(slide.phase, Phase::Idle);

    // In the middle of preparing: what was prepared is put back.
    let mut desk = desk_of_two();
    let mut state = SlideState::new();
    let (mut slide, mut step) = start_slide(
        &mut state,
        desk.clock(),
        request(vec![1], vec![2]),
        DURATION,
        "linear",
    );
    while slide.phase != (Phase::Create { index: 1 }) {
        for call in step.calls {
            desk.call(call);
        }
        let answer = desk.answer(&step.ask);
        step = slide.resume(&mut state, desk.clock(), answer);
    }
    assert_eq!(desk.ghosts.len(), 1);
    assert!(slide.interrupt().is_empty());
    let step = slide.cleanup_on_cancel();
    desk.run(&mut slide, &mut state, step);
    assert!(desk.ghosts.is_empty());
    assert_eq!(desk.count(&SlideCall::Hide { hwnd: 1 }), 1);
    assert_eq!(desk.count(&SlideCall::Restore { hwnd: 2 }), 1);
    assert!(slide.abandon().is_empty());

    // A slide in which nothing is under way is not disturbed.
    assert!(slide.interrupt().is_empty());
    assert!(slide.completed());
}

#[test]
fn windows_end_where_they_belong() {
    // The incoming window is found elsewhere and is put on its target.
    let mut desk = desk_of_two();
    let mut state = SlideState::new();
    let mut slide = start(&mut desk, &mut state, request(vec![1], vec![2]));
    desk.rects.insert(2, rect(900, 0, 960, 1080));
    desk.cloak_hides = true;
    desk.log.clear();
    let step = slide.finish(false);
    desk.run(&mut slide, &mut state, step);
    assert_eq!(
        desk.count(&SlideCall::Position {
            hwnd: 2,
            rect: rect(960, 0, 960, 1080)
        }),
        1
    );
    // Where hiding is cloaking, the cloak of the outgoing window stays.
    assert!(slide.windows[0].cloaked && !slide.windows[1].cloaked);
    assert_eq!(desk.count(&uncloak(1)), 0);

    // A floating window goes back to the outer rect that was captured.
    let mut desk = desk_of_two();
    let mut state = SlideState::new();
    let mut asked = request(vec![], vec![2]);
    asked.floating.insert(2);
    asked.floating_outer.insert(2, rect(950, 0, 980, 1090));
    let mut slide = start(&mut desk, &mut state, asked);
    let step = slide.finish(false);
    desk.run(&mut slide, &mut state, step);
    assert_eq!(
        desk.count(&SlideCall::MoveExact {
            hwnd: 2,
            rect: rect(950, 0, 980, 1090)
        }),
        1
    );
}

#[test]
fn a_deadline_out_of_range_is_found_beforehand() {
    let at = |asked| Clock { asked, now: asked };
    assert!(is_startable(at(0), u128::MAX - EVENT_GRACE));
    assert!(!is_startable(at(1), u128::MAX - EVENT_GRACE));
    assert!(is_startable(at(u128::MAX - EVENT_GRACE), 0));
    assert!(!is_startable(at(u128::MAX), 0));
    assert!(!is_startable(at(0), u128::MAX));
}

#[test]
fn events_are_ignored_from_the_start() {
    let desk = desk_of_two();
    let mut state = SlideState::new();
    let (_, step) = start_slide(
        &mut state,
        desk.clock(),
        request(vec![1], vec![2]),
        DURATION,
        "linear",
    );
    assert_eq!(step.ask, Ask::Nothing);
    let end = desk.now + DURATION + EVENT_GRACE;
    assert!(slide_event_suppressed(&mut state, 2, end - 1));
    assert!(!slide_event_suppressed(&mut state, 2, end));
}

#[test]
fn answers_that_do_not_fit_are_found_beforehand() {
    let desk = desk_of_two();
    let mut state = SlideState::new();
    let (mut slide, _) = start_slide(
        &mut state,
        desk.clock(),
        request(vec![1], vec![2]),
        DURATION,
        "linear",
    );
    assert!(!slide.is_acceptable(desk.clock(), &Answer::Flag(true)));
    let late = Clock {
        asked: u128::MAX,
        now: u128::MAX,
    };
    assert!(!slide.is_acceptable(late, &Answer::Nothing));
    slide.resume(&mut state, desk.clock(), Answer::Nothing);
    slide.resume(&mut state, desk.clock(), Answer::Nothing);
    slide.resume(
        &mut state,
        desk.clock(),
        Answer::Area(Some(rect(-29_000, 0, 10, 10))),
    );
    assert_eq!(slide.ask(), Ask::OuterRect { hwnd: 1 });
    assert!(slide.is_acceptable(desk.clock(), &Answer::Area(None)));
    // The border between the two rects is out of range.
    let far = rect(i32::MAX, 0, 10, 10);
    assert!(!slide.is_acceptable(desk.clock(), &Answer::Area(Some(far))));
}

#[test]
fn invisible_borders_are_left_out_of_the_ghost() {
    let mut desk = desk_of_two();
    desk.outer.insert(1, rect(-7, 0, 974, 1087));
    let mut state = SlideState::new();
    let slide = start(&mut desk, &mut state, request(vec![1], vec![2]));
    assert_eq!(slide.windows[0].source_offset, (7, 0));
    assert_eq!(slide.windows[1].source_offset, (0, 0));
    assert_eq!(desk.frames[0][0].source_x, 7);
}

// One window

#[test]
fn a_minimized_window_is_restored_and_cloaked_again() {
    let (read, ask) = snapshot_visible(4);
    assert_eq!(ask, Ask::WindowRect { hwnd: 4 });
    assert_eq!(visible_rect(4), (read, ask));
    let (read, calls, ask) = read.resume(Some(rect(-32_000, -32_000, 10, 10)));
    assert_eq!(calls, vec![SlideCall::Restore { hwnd: 4 }, cloak(4)]);
    assert_eq!(ask, Ask::WindowRect { hwnd: 4 });
    let shown = rect(10, 20, 30, 40);
    let (done, calls, ask) = read.resume(Some(shown));
    assert_eq!(done, RectRead::Done { rect: Some(shown) });
    assert!(calls.is_empty());
    assert_eq!(ask, Ask::Finished);

    let (done, _, _) = read.resume(Some(rect(0, -30_000, 10, 10)));
    assert_eq!(done, RectRead::Done { rect: None });
    let (done, _, _) = read.resume(None);
    assert_eq!(done, RectRead::Done { rect: None });
}

#[test]
fn a_visible_window_is_left_alone() {
    let (read, _) = snapshot_visible(4);
    let shown = rect(-29_999, -29_999, 10, 10);
    let (done, calls, _) = read.resume(Some(shown));
    assert_eq!(done, RectRead::Done { rect: Some(shown) });
    assert!(calls.is_empty());
    let (done, _, _) = read.resume(None);
    assert_eq!(done, RectRead::Done { rect: None });
}

#[test]
fn windows_are_cloaked_in_order() {
    assert_eq!(cloak_windows(&[3, 1, 2]), vec![cloak(3), cloak(1), cloak(2)]);
    assert_eq!(uncloak_windows(&[3, 1]), vec![uncloak(3), uncloak(1)]);
    assert!(cloak_windows(&[]).is_empty());
}

fn window(incoming: bool, floating: bool, outer: Option<Rect>) -> TrackedWindow {
    let mut window = tracked_window(4, incoming, floating, outer);
    window.start = rect(0, 0, 300, 200);
    window.target = rect(500, 0, 600, 400);
    window
}

#[test]
fn a_thumbnail_is_the_size_of_the_real_window() {
    assert_eq!(thumbnail_source(&window(true, false, None)), (600, 400));
    assert_eq!(thumbnail_source(&window(true, true, None)), (300, 200));
    assert_eq!(thumbnail_source(&window(false, false, None)), (300, 200));
}

#[test]
fn a_clip_counts_from_the_outer_rect() {
    let ghost = GhostWindow {
        host_hwnd: 11,
        hthumb: 12,
        disposed: false,
    };
    let mut tiled = window(true, false, None);
    tiled.source_offset = (8, 3);
    let visual = rect(-150, 0, 300, 200);
    assert!(is_clip_nameable(&tiled, visual, MONITOR));
    let clip = clip_for(&ghost, &tiled, visual, MONITOR);
    assert_eq!(clip.host, Some(rect(0, 0, 150, 200)));
    assert_eq!((clip.source_x, clip.source_y), (308, 3));
    assert_eq!((clip.source_width, clip.source_height), (300, 400));

    let outside = clip_for(&ghost, &tiled, rect(5000, 0, 300, 200), MONITOR);
    assert_eq!(outside, ghost.clip(None, 0, 0, 0, 0));

    tiled.source_offset = (i32::MAX, 0);
    assert!(!is_clip_nameable(&tiled, visual, MONITOR));
    assert!(is_clip_nameable(&tiled, rect(5000, 0, 300, 200), MONITOR));
}

#[test]
fn a_tiled_window_is_placed_on_its_target() {
    let tiled = window(true, false, None);
    assert_eq!(place_incoming(&tiled), Placing::Maximized);
    let (placing, calls) = place_next(&tiled, Placing::Maximized, Answer::Flag(false));
    assert_eq!(placing, Placing::Rect);
    assert!(calls.is_empty());
    let (placing, calls) = place_next(&tiled, Placing::Rect, Answer::Area(None));
    assert_eq!(placing, Placing::Placed);
    assert_eq!(
        calls,
        vec![SlideCall::Position {
            hwnd: 4,
            rect: tiled.target
        }]
    );
    // A window that is in place is not moved, nor one that is maximized or has no target.
    let (_, calls) = place_next(&tiled, Placing::Rect, Answer::Area(Some(tiled.target)));
    assert!(calls.is_empty());
    let (placing, _) = place_next(&tiled, Placing::Maximized, Answer::Flag(true));
    assert_eq!(placing, Placing::Placed);
    let mut flat = window(true, false, None);
    flat.target.bottom = 0;
    let (placing, _) = place_next(&flat, Placing::Maximized, Answer::Flag(false));
    assert_eq!(placing, Placing::Placed);
}

#[test]
fn a_floating_window_goes_back_to_its_outer_rect() {
    let outer = rect(40, 50, 60, 70);
    let floating = window(true, true, Some(outer));
    assert_eq!(place_incoming(&floating), Placing::Outer);
    let moved = Answer::Area(Some(rect(40, 50, 60, 71)));
    let (placing, calls) = place_next(&floating, Placing::Outer, moved);
    assert_eq!(placing, Placing::Placed);
    assert_eq!(
        calls,
        vec![SlideCall::MoveExact {
            hwnd: 4,
            rect: outer
        }]
    );
    let (_, calls) = place_next(&floating, Placing::Outer, Answer::Area(Some(outer)));
    assert!(calls.is_empty());
    assert_eq!(place_incoming(&window(true, true, None)), Placing::Placed);
}

#[test]
fn revealing_uncloaks_before_it_restores() {
    let ghost = GhostWindow {
        host_hwnd: 11,
        hthumb: 12,
        disposed: false,
    };
    let mut incoming = window(true, false, None);
    let calls = reveal_incoming(&mut incoming, Some(&ghost));
    assert_eq!(calls[0], uncloak(4));
    assert!(matches!(
        calls[1],
        SlideCall::UpdateThumb { hthumb: 12, props } if props.opacity == 0
    ));
    assert_eq!(calls[2], SlideCall::Restore { hwnd: 4 });
    assert!(!incoming.cloaked);
    assert_eq!(
        reveal_incoming(&mut incoming, None),
        vec![SlideCall::Restore { hwnd: 4 }]
    );
}

#[test]
fn a_cloak_stays_where_hiding_is_cloaking() {
    let mut outgoing = window(false, false, None);
    assert!(conceal_outgoing(&mut outgoing, true).is_empty());
    assert!(outgoing.cloaked);
    assert_eq!(conceal_outgoing(&mut outgoing, false), vec![uncloak(4)]);
    assert!(!outgoing.cloaked);
    assert!(conceal_outgoing(&mut outgoing, false).is_empty());
}

#[test]
fn putting_a_window_back_takes_its_ghost_down_last() {
    let mut incoming = window(true, true, None);
    incoming.active = true;
    incoming.ghost_window = Some(GhostWindow {
        host_hwnd: 11,
        hthumb: 12,
        disposed: false,
    });
    let (settling, calls) = settle_window_now(&mut incoming);
    assert_eq!(settling, Settling::Settled);
    assert_eq!(calls.len(), 4);
    assert_eq!(
        calls[3],
        SlideCall::Send {
            cmd: GhostCmd::Destroy {
                host_hwnd: 11,
                hthumb: 12
            }
        }
    );
    assert!(!incoming.active && incoming.ghost_window.is_none());

    let mut outgoing = window(false, false, None);
    let (settling, calls) = settle_window_now(&mut outgoing);
    assert_eq!(settling, Settling::Conceal);
    assert_eq!(calls, vec![SlideCall::Hide { hwnd: 4 }]);
    let (settling, calls) = settle_window_next(&mut outgoing, settling, Answer::Flag(false));
    assert_eq!(settling, Settling::Settled);
    assert_eq!(calls, vec![uncloak(4)]);
}

#[test]
fn questions_have_answers_of_their_kind() {
    assert!(is_answer(&Ask::Nothing, &Answer::Nothing));
    assert!(!is_answer(&Ask::Finished, &Answer::Nothing));
    assert!(is_answer(&Ask::Foreground, &Answer::Handle(0)));
    assert!(!is_answer(&Ask::CloakHides, &Answer::Area(None)));
    assert!(is_answer(
        &Ask::WindowRect { hwnd: 1 },
        &Answer::Area(None)
    ));
}

#[test]
fn a_slide_takes_windows_from_whoever_had_them() {
    let mut state = SlideState::new();
    drive_slide_windows(&mut state, &[1, 2], 77);
    let desk = desk_of_two();
    let (slide, _) = start_slide(
        &mut state,
        desk.clock(),
        request(vec![1], vec![]),
        DURATION,
        "linear",
    );
    assert!(slide_owns_window(&state, 1, slide.slide_id));
    assert!(slide_owns_window(&state, 2, 77));
}

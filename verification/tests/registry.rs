use workspace_slide::registry::{
    begin_instant_position, drive_slide_windows, end_instant_position, position_instantly,
    release_slide_windows, slide_drives_window, slide_event_suppressed, slide_in_progress,
    slide_owns_window, suppress_slide_events, Clock, SlideState, EVENT_GRACE, MILLISECOND,
    SETTLE_WAIT,
};
use workspace_slide::settings::{animation_settings, AnimationConfig, AnimationPrefix, PerAnimation};
use workspace_slide::settle::{
    hold_slide_lock, release_slide_lock, settle_slide, AnimationKey, SettleSlide, SlideGuard,
};

fn at(now: u128) -> Clock {
    Clock { asked: now, now }
}

#[test]
fn times_are_nanoseconds() {
    assert_eq!(EVENT_GRACE, 1500 * MILLISECOND);
    assert_eq!(SETTLE_WAIT, 1000 * MILLISECOND);
}

#[test]
fn instant_positioning_is_switched_on_and_off() {
    let mut state = SlideState::new();
    assert!(!position_instantly(&state));
    begin_instant_position(&mut state);
    assert!(position_instantly(&state));
    end_instant_position(&mut state);
    assert!(!position_instantly(&state));
}

#[test]
fn a_slide_drives_what_it_takes_over() {
    let mut state = SlideState::new();
    assert!(!slide_in_progress(&state));
    drive_slide_windows(&mut state, &[1, 2], 7);
    assert!(slide_drives_window(&state, 1));
    assert!(!slide_drives_window(&state, 3));
    assert!(slide_owns_window(&state, 2, 7));
    assert!(!slide_owns_window(&state, 2, 8));
    assert!(!slide_owns_window(&state, 3, 7));
}

#[test]
fn a_takeover_survives_the_release_of_the_older_slide() {
    let mut state = SlideState::new();
    drive_slide_windows(&mut state, &[1, 2], 7);
    drive_slide_windows(&mut state, &[2, 3], 8);
    release_slide_windows(&mut state, &[1, 2], 7);
    assert!(!slide_drives_window(&state, 1));
    assert!(slide_owns_window(&state, 2, 8));
    assert!(slide_owns_window(&state, 3, 8));
}

#[test]
fn releasing_undoes_driving() {
    let mut state = SlideState::new();
    drive_slide_windows(&mut state, &[9], 1);
    drive_slide_windows(&mut state, &[1, 2, 1], 7);
    release_slide_windows(&mut state, &[1, 2, 1], 7);
    assert!(!slide_drives_window(&state, 1));
    assert!(!slide_drives_window(&state, 2));
    assert!(slide_owns_window(&state, 9, 1));
}

#[test]
fn events_are_ignored_until_the_deadline() {
    let mut state = SlideState::new();
    suppress_slide_events(&mut state, &[1], 100, at(1000));
    assert!(slide_event_suppressed(&mut state, 1, 1000));
    assert!(slide_event_suppressed(&mut state, 1, 1099));
    assert!(!slide_event_suppressed(&mut state, 2, 1050));
    assert!(!slide_event_suppressed(&mut state, 1, 1100));
    // What has expired is forgotten.
    assert!(state.ignored_events.is_empty());
}

#[test]
fn a_new_deadline_replaces_the_old_one_and_forgets_what_expired() {
    let mut state = SlideState::new();
    suppress_slide_events(&mut state, &[1, 2], 100, at(0));
    suppress_slide_events(
        &mut state,
        &[2],
        50,
        Clock {
            asked: 100,
            now: 101,
        },
    );
    assert!(!state.ignored_events.contains_key(&1));
    assert_eq!(state.ignored_events.get(&2), Some(&150));
}

#[test]
fn asking_changes_no_later_answer() {
    let mut asked = SlideState::new();
    let mut quiet = SlideState::new();
    for state in [&mut asked, &mut quiet] {
        suppress_slide_events(state, &[1], 100, at(0));
        suppress_slide_events(state, &[2], 300, at(0));
    }
    slide_event_suppressed(&mut asked, 1, 150);
    for hwnd in [1, 2, 3] {
        assert_eq!(
            slide_event_suppressed(&mut asked, hwnd, 200),
            slide_event_suppressed(&mut quiet, hwnd, 200)
        );
    }
}

fn config() -> AnimationConfig<&'static str> {
    AnimationConfig {
        enabled: PerAnimation {
            movement: Some(true),
            transparency: None,
            workspace: None,
        },
        enabled_global: false,
        duration_ms: PerAnimation {
            movement: Some(1),
            transparency: None,
            workspace: None,
        },
        duration_ms_global: 250,
        style: PerAnimation {
            movement: None,
            transparency: Some("sine"),
            workspace: None,
        },
        style_global: "linear",
    }
}

#[test]
fn slides_are_off_unless_switched_on() {
    assert_eq!(animation_settings(&config()), None);
    let mut off = config();
    off.enabled.workspace = Some(false);
    assert_eq!(animation_settings(&off), None);
}

#[test]
fn slides_run_with_the_global_settings() {
    let mut global = config();
    global.enabled_global = true;
    assert_eq!(
        animation_settings(&global),
        Some((250 * MILLISECOND, "linear"))
    );
    // Switching the workspace off does not undo the global switch.
    global.enabled.workspace = Some(false);
    assert!(animation_settings(&global).is_some());
}

#[test]
fn slides_have_settings_of_their_own() {
    let mut own = config();
    own.enabled.workspace = Some(true);
    own.duration_ms.workspace = Some(400);
    assert_eq!(animation_settings(&own), Some((400_000_000, "linear")));
    own.style.workspace = Some("bezier");
    assert_eq!(animation_settings(&own), Some((400_000_000, "bezier")));
    own.duration_ms.workspace = Some(u64::MAX);
    assert_eq!(
        animation_settings(&own),
        Some((u64::MAX as u128 * 1_000_000, "bezier"))
    );
}

#[test]
fn a_setting_belongs_to_its_animation() {
    let styles = config().style;
    assert_eq!(styles.get(AnimationPrefix::Movement), None);
    assert_eq!(styles.get(AnimationPrefix::Transparency), Some("sine"));
    assert_eq!(styles.get(AnimationPrefix::Workspace), None);
}

#[test]
fn settling_cancels_and_waits() {
    let key = AnimationKey {
        prefix: AnimationPrefix::Workspace,
        id: 42,
    };
    let mut state = SlideState::new();
    let settling = settle_slide(&mut state, 42);
    assert_eq!(settling, SettleSlide::Check { key });
    assert_eq!(state.settle_requests, 1);
    let settling = settling.resume(&mut state, true);
    assert_eq!(settling, SettleSlide::Cancel { key });
    let settling = settling.resume(&mut state, false);
    assert_eq!(settling, SettleSlide::Wait);
    assert_eq!(state.settle_requests, 1);
    let settling = settling.resume(&mut state, false);
    assert_eq!(settling, SettleSlide::Done);
    assert_eq!(state.settle_requests, 0);
    assert_eq!(settling.resume(&mut state, true), SettleSlide::Done);
    assert_eq!(state.settle_requests, 0);
}

#[test]
fn settling_waits_even_if_nothing_is_in_progress() {
    let mut state = SlideState::new();
    let settling = settle_slide(&mut state, 1);
    assert_eq!(settling.resume(&mut state, false), SettleSlide::Wait);
}

#[test]
fn the_slide_lock_is_held_once() {
    let mut guard = SlideGuard { held: false };
    assert!(hold_slide_lock(&mut guard));
    assert!(!hold_slide_lock(&mut guard));
    assert!(release_slide_lock(&mut guard));
    assert!(!release_slide_lock(&mut guard));
    assert_eq!(guard, SlideGuard { held: false });
}

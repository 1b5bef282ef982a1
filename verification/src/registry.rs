//! What every slide shares: who drives which window, whose events are ignored, what is running.
//!
//! Points in time and durations are nanoseconds; points in time count from one fixed start.
use std::collections::HashMap;
use vstd::prelude::*;

verus! {

broadcast use vstd::std_specs::hash::group_hash_axioms;

/// One millisecond.
pub const MILLISECOND: u128 = 1_000_000;

/// Show, uncloak and focus events may still be queued when a slide ends; they are ignored for this
/// much longer.
pub const EVENT_GRACE: u128 = 1_500_000_000;

/// How long a new slide waits for the one before to reveal, hide and fade its windows.
pub const SETTLE_WAIT: u128 = 1_000_000_000;

/// A clock reading before the shared state was waited for, and one after it was had.
#[derive(Clone, Copy, Debug, PartialEq, Eq, Structural)]
pub struct Clock {
    pub asked: u128,
    pub now: u128,
}

/// What the slides share.
#[derive(Debug)]
pub struct SlideState {
    /// Windows are positioned at once, without a movement animation.
    pub instant_position: bool,
    /// How many slides are running.
    pub active: usize,
    pub next_slide_id: usize,
    /// Not zero while a new slide waits for the previous one; cuts its reveal fade short.
    pub settle_requests: usize,
    /// Window -> when its events count again. Show, uncloak and focus events from the slide itself
    /// must not be treated as the user alt-tabbing back to the previous workspace. The deadline
    /// outlives the animation so events still queued when it finishes are ignored too.
    pub ignored_events: HashMap<isize, u128>,
    /// Window -> id of the slide that owns it. A newer slide takes over the windows
    /// of an older one that has not settled yet.
    pub driven: HashMap<isize, usize>,
}

/// The shared state as plain mathematics.
#[verifier::ext_equal]
pub struct SlideStateModel {
    pub instant_position: bool,
    pub active: usize,
    pub next_slide_id: usize,
    pub settle_requests: usize,
    pub ignored_events: Map<isize, u128>,
    pub driven: Map<isize, usize>,
}

impl View for SlideState {
    type V = SlideStateModel;

    open spec fn view(&self) -> SlideStateModel {
        SlideStateModel {
            instant_position: self.instant_position,
            active: self.active,
            next_slide_id: self.next_slide_id,
            settle_requests: self.settle_requests,
            ignored_events: self.ignored_events@,
            driven: self.driven@,
        }
    }
}

/// The entries whose deadline is still to come.
pub open spec fn unexpired(ignored: Map<isize, u128>, now: u128) -> Map<isize, u128> {
    Map::new(|hwnd: isize| ignored.contains_key(hwnd) && ignored[hwnd] > now, |hwnd: isize| ignored[hwnd])
}

/// `map` with every one of the windows set to `value`.
pub open spec fn assigned<V>(map: Map<isize, V>, hwnds: Seq<isize>, value: V) -> Map<isize, V> {
    Map::new(
        |hwnd: isize| map.contains_key(hwnd) || hwnds.contains(hwnd),
        |hwnd: isize| if hwnds.contains(hwnd) { value } else { map[hwnd] },
    )
}

/// `driven` without those of the windows that the slide still owns.
pub open spec fn released(
    driven: Map<isize, usize>,
    hwnds: Seq<isize>,
    slide_id: usize,
) -> Map<isize, usize> {
    Map::new(
        |hwnd: isize| driven.contains_key(hwnd) && !(hwnds.contains(hwnd) && driven[hwnd] == slide_id),
        |hwnd: isize| driven[hwnd],
    )
}

/// The slide owns the window.
pub open spec fn drives(driven: Map<isize, usize>, hwnd: isize, slide_id: usize) -> bool {
    driven.contains_key(hwnd) && driven[hwnd] == slide_id
}

/// The shared state after the windows' events have been told to be ignored for a while: what has
/// expired is forgotten, and each of the windows has the new deadline.
pub open spec fn events_suppressed(
    state: SlideStateModel,
    hwnds: Seq<isize>,
    for_duration: u128,
    clock: Clock,
) -> SlideStateModel {
    SlideStateModel {
        ignored_events: assigned(
            unexpired(state.ignored_events, clock.now),
            hwnds,
            (clock.asked + for_duration) as u128,
        ),
        ..state
    }
}

impl SlideState {
    /// No slide has run yet.
    pub fn new() -> (r: SlideState)
        ensures
            r@ == (SlideStateModel {
                instant_position: false,
                active: 0,
                next_slide_id: 1,
                settle_requests: 0,
                ignored_events: Map::empty(),
                driven: Map::empty(),
            }),
    {
        SlideState {
            instant_position: false,
            active: 0,
            next_slide_id: 1,
            settle_requests: 0,
            ignored_events: HashMap::new(),
            driven: HashMap::new(),
        }
    }
}

pub fn begin_instant_position(state: &mut SlideState)
    ensures
        final(state)@ == (SlideStateModel { instant_position: true, ..old(state)@ }),
{
    state.instant_position = true;
}

pub fn end_instant_position(state: &mut SlideState)
    ensures
        final(state)@ == (SlideStateModel { instant_position: false, ..old(state)@ }),
{
    state.instant_position = false;
}

pub fn position_instantly(state: &SlideState) -> (r: bool)
    ensures
        r == state@.instant_position,
{
    state.instant_position
}

pub fn slide_in_progress(state: &SlideState) -> (r: bool)
    ensures
        r == (state@.active > 0),
{
    state.active > 0
}

pub fn slide_drives_window(state: &SlideState, hwnd: isize) -> (r: bool)
    ensures
        r == state@.driven.contains_key(hwnd),
{
    state.driven.contains_key(&hwnd)
}

/// Whether the slide owns the window.
pub fn slide_owns_window(state: &SlideState, hwnd: isize, slide_id: usize) -> (r: bool)
    ensures
        r == drives(state@.driven, hwnd, slide_id),
{
    match state.driven.get(&hwnd) {
        Some(owner) => *owner == slide_id,
        None => false,
    }
}

/// The slide takes the windows over, whoever owned them before.
pub fn drive_slide_windows(state: &mut SlideState, hwnds: &[isize], slide_id: usize)
    ensures
        final(state)@ == (SlideStateModel {
            driven: assigned(old(state)@.driven, hwnds@, slide_id),
            ..old(state)@
        }),
{
    assign(&mut state.driven, hwnds, slide_id);
    assert(state@ =~= SlideStateModel {
        driven: assigned(old(state)@.driven, hwnds@, slide_id),
        ..old(state)@
    });
}

fn assign<V: Copy>(map: &mut HashMap<isize, V>, hwnds: &[isize], value: V)
    ensures
        final(map)@ == assigned(old(map)@, hwnds@, value),
{
    let ghost before = map@;
    let mut index: usize = 0;
    assert(map@ =~= assigned(before, hwnds@.take(0), value));
    while index < hwnds.len()
        invariant
            index <= hwnds@.len(),
            map@ == assigned(before, hwnds@.take(index as int), value),
        decreases hwnds@.len() - index,
    {
        map.insert(hwnds[index], value);
        proof {
            lemma_take_one_more(hwnds@, index as int);
            assert(map@ =~= assigned(before, hwnds@.take(index + 1), value));
        }
        index = index + 1;
    }
    assert(hwnds@.take(hwnds@.len() as int) =~= hwnds@);
}

/// A window is among the first `i + 1` when it is among the first `i`, or the one at `i`.
pub(crate) proof fn lemma_take_one_more(hwnds: Seq<isize>, i: int)
    requires
        0 <= i < hwnds.len(),
    ensures
        forall|hwnd: isize| #[trigger]
            hwnds.take(i + 1).contains(hwnd) <==> hwnds.take(i).contains(hwnd) || hwnd == hwnds[i],
{
    assert(hwnds.take(i + 1) =~= hwnds.take(i).push(hwnds[i]));
    assert forall|hwnd: isize| #[trigger]
        hwnds.take(i + 1).contains(hwnd) <==> hwnds.take(i).contains(hwnd) || hwnd == hwnds[i] by {
        if hwnds.take(i).contains(hwnd) {
            let k = choose|k: int| 0 <= k < i && hwnds.take(i)[k] == hwnd;
            assert(hwnds.take(i + 1)[k] == hwnd);
        }
        if hwnd == hwnds[i] {
            assert(hwnds.take(i + 1)[i] == hwnd);
        }
    }
}

/// The slide lets go of those of the windows that no newer slide has taken over.
pub fn release_slide_windows(state: &mut SlideState, hwnds: &[isize], slide_id: usize)
    ensures
        final(state)@ == (SlideStateModel {
            driven: released(old(state)@.driven, hwnds@, slide_id),
            ..old(state)@
        }),
{
    let ghost before = state@;
    let mut index: usize = 0;
    assert(state@.driven =~= released(before.driven, hwnds@.take(0), slide_id));
    while index < hwnds.len()
        invariant
            index <= hwnds@.len(),
            state@ == (SlideStateModel {
                driven: released(before.driven, hwnds@.take(index as int), slide_id),
                ..before
            }),
        decreases hwnds@.len() - index,
    {
        let hwnd: isize = hwnds[index];
        if slide_owns_window(state, hwnd, slide_id) {
            state.driven.remove(&hwnd);
        }
        proof {
            lemma_take_one_more(hwnds@, index as int);
            assert(state@.driven =~= released(before.driven, hwnds@.take(index + 1), slide_id));
        }
        index = index + 1;
    }
    assert(hwnds@.take(hwnds@.len() as int) =~= hwnds@);
}

/// Forget the windows whose events count again.
fn forget_expired(ignored: &mut HashMap<isize, u128>, now: u128)
    ensures
        final(ignored)@ == unexpired(old(ignored)@, now),
{
    let ghost before = ignored@;
    let mut kept: HashMap<isize, u128> = HashMap::new();
    for entry in iter: ignored.iter()
        invariant
            before == ignored@,
            forall|hwnd: isize| #[trigger]
                kept@.contains_key(hwnd) ==> before.contains_key(hwnd) && before[hwnd] > now
                    && kept@[hwnd] == before[hwnd],
            forall|i: int|
                0 <= i < iter.index() && *(#[trigger] iter.seq()[i]).1 > now ==> kept@.contains_key(
                    *iter.seq()[i].0,
                ),
    {
        if *entry.1 > now {
            kept.insert(*entry.0, *entry.1);
        }
    }
    *ignored = kept;
    assert(ignored@ =~= unexpired(before, now));
}

/// Ignore the events of the windows for the given time.
pub fn suppress_slide_events(
    state: &mut SlideState,
    hwnds: &[isize],
    for_duration: u128,
    clock: Clock,
)
    requires
        clock.asked + for_duration <= u128::MAX,
    ensures
        final(state)@ == events_suppressed(old(state)@, hwnds@, for_duration, clock),
{
    let deadline: u128 = clock.asked + for_duration;
    forget_expired(&mut state.ignored_events, clock.now);
    assign(&mut state.ignored_events, hwnds, deadline);
    assert(state@ =~= events_suppressed(old(state)@, hwnds@, for_duration, clock));
}

/// Whether an event of the window comes from a slide, and not from the user.
pub fn slide_event_suppressed(state: &mut SlideState, hwnd: isize, now: u128) -> (r: bool)
    ensures
        r == (old(state)@.ignored_events.contains_key(hwnd)
            && old(state)@.ignored_events[hwnd] > now),
        final(state)@ == (SlideStateModel {
            ignored_events: unexpired(old(state)@.ignored_events, now),
            ..old(state)@
        }),
{
    forget_expired(&mut state.ignored_events, now);
    assert(state@ =~= SlideStateModel {
        ignored_events: unexpired(old(state)@.ignored_events, now),
        ..old(state)@
    });
    match state.ignored_events.get(&hwnd) {
        Some(until) => *until > now,
        None => false,
    }
}

/// A slide drives every window that it has taken over, and takes no other.
pub proof fn law_slide_drives_what_it_takes(
    driven: Map<isize, usize>,
    hwnds: Seq<isize>,
    slide_id: usize,
    hwnd: isize,
)
    ensures
        hwnds.contains(hwnd) ==> drives(assigned(driven, hwnds, slide_id), hwnd, slide_id),
        hwnds.contains(hwnd) ==> assigned(driven, hwnds, slide_id).contains_key(hwnd)
            && assigned(driven, hwnds, slide_id)[hwnd] == slide_id,
        !hwnds.contains(hwnd) ==> {
            &&& assigned(driven, hwnds, slide_id).contains_key(hwnd) == driven.contains_key(hwnd)
            &&& driven.contains_key(hwnd) ==> assigned(driven, hwnds, slide_id)[hwnd]
                == driven[hwnd]
        },
{
}

/// A slide that has let its windows go drives none of them. Whatever another slide drives stays with
/// that slide, and a window that is not let go of stays with whoever has it.
pub proof fn law_release_keeps_newer_slides(
    driven: Map<isize, usize>,
    hwnds: Seq<isize>,
    slide_id: usize,
    hwnd: isize,
    other: usize,
)
    requires
        other != slide_id,
    ensures
        hwnds.contains(hwnd) ==> !drives(released(driven, hwnds, slide_id), hwnd, slide_id),
        drives(released(driven, hwnds, slide_id), hwnd, other) == drives(driven, hwnd, other),
        !hwnds.contains(hwnd) ==> {
            &&& released(driven, hwnds, slide_id).contains_key(hwnd) == driven.contains_key(hwnd)
            &&& driven.contains_key(hwnd) ==> released(driven, hwnds, slide_id)[hwnd]
                == driven[hwnd]
        },
        driven.contains_key(hwnd) && driven[hwnd] == other ==> {
            &&& released(driven, hwnds, slide_id).contains_key(hwnd)
            &&& released(driven, hwnds, slide_id)[hwnd] == other
        },
        hwnds.contains(hwnd) && driven.contains_key(hwnd) && driven[hwnd] == slide_id
            ==> !released(driven, hwnds, slide_id).contains_key(hwnd),
{
}

/// A newer slide takes windows over for good: when the older one lets go of all its windows, the
/// newer one still drives those that it took.
pub proof fn law_takeover_survives_release(
    driven: Map<isize, usize>,
    older: usize,
    older_hwnds: Seq<isize>,
    newer: usize,
    newer_hwnds: Seq<isize>,
    hwnd: isize,
)
    requires
        older != newer,
        newer_hwnds.contains(hwnd),
    ensures
        drives(
            released(assigned(driven, newer_hwnds, newer), older_hwnds, older),
            hwnd,
            newer,
        ),
{
}

/// Letting go undoes taking over, for windows that nobody drove before.
pub proof fn law_release_undoes_drive(
    driven: Map<isize, usize>,
    hwnds: Seq<isize>,
    slide_id: usize,
)
    requires
        forall|hwnd: isize| hwnds.contains(hwnd) ==> !driven.contains_key(hwnd),
    ensures
        released(assigned(driven, hwnds, slide_id), hwnds, slide_id) == driven,
{
    assert(released(assigned(driven, hwnds, slide_id), hwnds, slide_id) =~= driven);
}

/// The event of a window is ignored at `at`.
pub open spec fn is_ignored(state: SlideStateModel, hwnd: isize, at: u128) -> bool {
    state.ignored_events.contains_key(hwnd) && state.ignored_events[hwnd] > at
}

/// The events of a slide's windows are ignored up to the deadline and count again from it on. For
/// every other window nothing changes from now on.
pub proof fn law_events_ignored_until_the_deadline(
    state: SlideStateModel,
    hwnds: Seq<isize>,
    for_duration: u128,
    clock: Clock,
    hwnd: isize,
    at: u128,
)
    requires
        clock.asked + for_duration <= u128::MAX,
        clock.now <= at,
    ensures
        hwnds.contains(hwnd) ==> (is_ignored(
            events_suppressed(state, hwnds, for_duration, clock),
            hwnd,
            at,
        ) <==> at < clock.asked + for_duration),
        !hwnds.contains(hwnd) ==> (is_ignored(
            events_suppressed(state, hwnds, for_duration, clock),
            hwnd,
            at,
        ) <==> is_ignored(state, hwnd, at)),
{
}

/// Asking whether an event is ignored forgets only what has expired: no later question is answered
/// otherwise for it.
pub proof fn law_asking_changes_no_later_answer(
    state: SlideStateModel,
    asked: u128,
    hwnd: isize,
    at: u128,
)
    requires
        asked <= at,
    ensures
        is_ignored(
            SlideStateModel { ignored_events: unexpired(state.ignored_events, asked), ..state },
            hwnd,
            at,
        ) == is_ignored(state, hwnd, at),
{
}

/// Telling events to be ignored changes nothing else, and forgets exactly what has expired of the
/// other windows. An entry counts until its deadline and not from it on.
pub proof fn law_ignoring_events_changes_nothing_else(
    state: SlideStateModel,
    hwnds: Seq<isize>,
    for_duration: u128,
    clock: Clock,
    hwnd: isize,
)
    requires
        clock.asked + for_duration <= u128::MAX,
    ensures
        ({
            let after = events_suppressed(state, hwnds, for_duration, clock);
            let kept = unexpired(state.ignored_events, clock.now);
            &&& after.instant_position == state.instant_position
            &&& after.active == state.active
            &&& after.next_slide_id == state.next_slide_id
            &&& after.settle_requests == state.settle_requests
            &&& after.driven == state.driven
            &&& hwnds.contains(hwnd) ==> after.ignored_events.contains_key(hwnd)
                && after.ignored_events[hwnd] == clock.asked + for_duration
            &&& !hwnds.contains(hwnd) ==> (after.ignored_events.contains_key(hwnd)
                <==> state.ignored_events.contains_key(hwnd) && state.ignored_events[hwnd]
                > clock.now)
            &&& !hwnds.contains(hwnd) && after.ignored_events.contains_key(hwnd)
                ==> after.ignored_events[hwnd] == state.ignored_events[hwnd]
            &&& kept.contains_key(hwnd) <==> state.ignored_events.contains_key(hwnd)
                && state.ignored_events[hwnd] > clock.now
            &&& kept.contains_key(hwnd) ==> kept[hwnd] == state.ignored_events[hwnd]
        }),
        MILLISECOND == 1_000_000,
        EVENT_GRACE == 1500 * MILLISECOND,
        SETTLE_WAIT == 1000 * MILLISECOND,
{
}

} // verus!

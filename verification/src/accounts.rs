//! The account of a slide: every ghost and every overlay that it was given, and whether it has been
//! taken down.
use vstd::multiset::Multiset;
use vstd::prelude::*;

use crate::course::{
    law_finish_puts_every_window_back, law_slide_keeps_invariant, lemma_step_changes_one_window,
    Input,
};
use crate::dispatcher::{Ending, Phase, SlideModel};
use crate::ghost::{GhostCmd, GhostWindow, RevealOverlay};
use crate::phases::{abandon_calls, law_finish_keeps_invariant, uncover_calls};
use crate::window::{
    answers, conceal_calls, drop_calls, reveal_calls, Answer, RectRead, Settling, SlideCall,
    TrackedWindow,
};

verus! {

/// A ghost, as its host and its thumbnail.
pub open spec fn one_ghost(ghost: Option<GhostWindow>) -> Multiset<(isize, isize)> {
    match ghost {
        Some(ghost) => Multiset::singleton((ghost.host_hwnd, ghost.hthumb)),
        None => Multiset::empty(),
    }
}

/// The ghosts that the windows have.
pub open spec fn ghosts_of(windows: Seq<TrackedWindow>) -> Multiset<(isize, isize)>
    decreases windows.len(),
{
    if windows.len() == 0 {
        Multiset::empty()
    } else {
        ghosts_of(windows.drop_last()).add(one_ghost(windows.last().ghost_window))
    }
}

/// The ghost that a call takes down.
pub open spec fn ghost_taken_down(call: SlideCall) -> Multiset<(isize, isize)> {
    match call {
        SlideCall::Send { cmd: GhostCmd::Destroy { host_hwnd, hthumb } } => Multiset::singleton(
            (host_hwnd, hthumb),
        ),
        _ => Multiset::empty(),
    }
}

/// The ghosts that the calls take down.
pub open spec fn ghosts_taken_down(calls: Seq<SlideCall>) -> Multiset<(isize, isize)>
    decreases calls.len(),
{
    if calls.len() == 0 {
        Multiset::empty()
    } else {
        ghosts_taken_down(calls.drop_last()).add(ghost_taken_down(calls.last()))
    }
}

/// The overlays that are up, each as its host, the thumbnail of the desktop and that of the window.
pub open spec fn overlays_of(overlays: Seq<RevealOverlay>) -> Multiset<(isize, isize, isize)>
    decreases overlays.len(),
{
    if overlays.len() == 0 {
        Multiset::empty()
    } else {
        let last = overlays.last();
        overlays_of(overlays.drop_last()).insert((last.host_hwnd, last.hdesktop, last.hthumb))
    }
}

/// The overlay that a call takes down.
pub open spec fn overlay_taken_down(call: SlideCall) -> Multiset<(isize, isize, isize)> {
    match call {
        SlideCall::Send { cmd: GhostCmd::DestroyOverlay { host_hwnd, hdesktop, hthumb } } => {
            Multiset::singleton((host_hwnd, hdesktop, hthumb))
        },
        _ => Multiset::empty(),
    }
}

/// The overlays that the calls take down.
pub open spec fn overlays_taken_down(calls: Seq<SlideCall>) -> Multiset<(isize, isize, isize)>
    decreases calls.len(),
{
    if calls.len() == 0 {
        Multiset::empty()
    } else {
        overlays_taken_down(calls.drop_last()).add(overlay_taken_down(calls.last()))
    }
}

impl SlideModel {
    /// The ghost that the slide is given in this step.
    pub open spec fn ghost_given(self, answer: Answer) -> Multiset<(isize, isize)> {
        match (self.phase, answer) {
            (Phase::Create { .. }, Answer::Created(Some(made))) => Multiset::singleton(made),
            _ => Multiset::empty(),
        }
    }

    /// The overlay that the slide is given in this step.
    pub open spec fn overlay_given(self, answer: Answer) -> Multiset<(isize, isize, isize)> {
        match (self.phase, answer) {
            (Phase::Overlay { .. }, Answer::Overlaid(Some(made))) => Multiset::singleton(made),
            _ => Multiset::empty(),
        }
    }

    /// The ghosts that the slide is given on its way.
    pub open spec fn ghosts_given(self, inputs: Seq<Input>) -> Multiset<(isize, isize)>
        decreases inputs.len(),
    {
        if inputs.len() == 0 {
            Multiset::empty()
        } else {
            self.ghosts_given(inputs.drop_last()).add(
                self.after(inputs.drop_last()).ghost_given(inputs.last().answer),
            )
        }
    }

    /// The overlays that the slide is given on its way.
    pub open spec fn overlays_given(self, inputs: Seq<Input>) -> Multiset<(isize, isize, isize)>
        decreases inputs.len(),
    {
        if inputs.len() == 0 {
            Multiset::empty()
        } else {
            self.overlays_given(inputs.drop_last()).add(
                self.after(inputs.drop_last()).overlay_given(inputs.last().answer),
            )
        }
    }
}

/// What two sequences of calls take down, they take down together.
proof fn lemma_taken_down_adds(calls: Seq<SlideCall>, more: Seq<SlideCall>)
    ensures
        ghosts_taken_down(calls + more) == ghosts_taken_down(calls).add(ghosts_taken_down(more)),
        overlays_taken_down(calls + more) == overlays_taken_down(calls).add(
            overlays_taken_down(more),
        ),
    decreases more.len(),
{
    if more.len() == 0 {
        assert(calls + more =~= calls);
        assert(ghosts_taken_down(calls) =~= ghosts_taken_down(calls).add(Multiset::empty()));
        assert(overlays_taken_down(calls) =~= overlays_taken_down(calls).add(Multiset::empty()));
    } else {
        let shorter = more.drop_last();
        lemma_taken_down_adds(calls, shorter);
        assert((calls + more).drop_last() =~= calls + shorter);
        assert((calls + more).last() == more.last());
        assert(ghosts_taken_down(calls + more) =~= ghosts_taken_down(calls).add(
            ghosts_taken_down(more),
        ));
        assert(overlays_taken_down(calls + more) =~= overlays_taken_down(calls).add(
            overlays_taken_down(more),
        ));
    }
}

/// Calls of which none takes anything down take nothing down.
proof fn lemma_nothing_taken_down(calls: Seq<SlideCall>)
    requires
        forall|k: int|
            0 <= k < calls.len() ==> !((#[trigger] calls[k]) matches SlideCall::Send { .. }),
    ensures
        ghosts_taken_down(calls) == Multiset::<(isize, isize)>::empty(),
        overlays_taken_down(calls) == Multiset::<(isize, isize, isize)>::empty(),
    decreases calls.len(),
{
    if calls.len() > 0 {
        lemma_nothing_taken_down(calls.drop_last());
        assert(ghosts_taken_down(calls) =~= Multiset::empty());
        assert(overlays_taken_down(calls) =~= Multiset::empty());
    }
}

/// Letting go of a ghost takes it down, and nothing else.
proof fn lemma_drop_takes_down(ghost: Option<GhostWindow>)
    requires
        ghost matches Some(ghost) ==> !ghost.disposed,
    ensures
        ghosts_taken_down(drop_calls(ghost)) == one_ghost(ghost),
        overlays_taken_down(drop_calls(ghost)) == Multiset::<(isize, isize, isize)>::empty(),
{
    let calls = drop_calls(ghost);
    reveal_with_fuel(ghosts_taken_down, 2);
    reveal_with_fuel(overlays_taken_down, 2);
    if ghost is Some {
        assert(calls.len() == 1);
        assert(calls.drop_last() =~= seq![]);
        assert(ghosts_taken_down(calls) =~= one_ghost(ghost));
        assert(overlays_taken_down(calls) =~= Multiset::empty());
    }
}

/// Another window in the place of one changes the ghosts by the difference.
proof fn lemma_ghosts_of_update(windows: Seq<TrackedWindow>, index: int, window: TrackedWindow)
    requires
        0 <= index < windows.len(),
    ensures
        ghosts_of(windows.update(index, window)).add(one_ghost(windows[index].ghost_window))
            == ghosts_of(windows).add(one_ghost(window.ghost_window)),
    decreases windows.len(),
{
    let changed = windows.update(index, window);
    if index == windows.len() - 1 {
        assert(changed.drop_last() =~= windows.drop_last());
    } else {
        assert(changed.drop_last() =~= windows.drop_last().update(index, window));
        lemma_ghosts_of_update(windows.drop_last(), index, window);
    }
    let (was, is) = (one_ghost(windows[index].ghost_window), one_ghost(window.ghost_window));
    let last = one_ghost(windows.last().ghost_window);
    assert forall|g: (isize, isize)| #[trigger]
        ghosts_of(changed).add(was).count(g) == ghosts_of(windows).add(is).count(g) by {
        let (short, changed_short) = (ghosts_of(windows.drop_last()), ghosts_of(changed.drop_last()));
        assert(ghosts_of(windows).count(g) == short.count(g) + last.count(g));
        if index == windows.len() - 1 {
            assert(ghosts_of(changed).count(g) == short.count(g) + is.count(g));
        } else {
            assert(changed.last() == windows.last());
            assert(ghosts_of(changed).count(g) == changed_short.count(g) + last.count(g));
            assert(changed_short.add(was).count(g) == short.add(is).count(g));
        }
    }
    assert(ghosts_of(changed).add(was) =~= ghosts_of(windows).add(is));
}

/// Windows without ghosts have none.
proof fn lemma_no_ghosts(windows: Seq<TrackedWindow>)
    requires
        forall|i: int| 0 <= i < windows.len() ==> (#[trigger] windows[i]).ghost_window is None,
    ensures
        ghosts_of(windows) == Multiset::<(isize, isize)>::empty(),
    decreases windows.len(),
{
    if windows.len() > 0 {
        lemma_no_ghosts(windows.drop_last());
        assert(ghosts_of(windows) =~= Multiset::empty());
    }
}

/// Putting a window back takes its ghost down when it is settled, and nothing before that.
proof fn lemma_settling_takes_down(window: TrackedWindow, settling: Settling, answer: Answer)
    requires
        window.settling_wf(settling),
        answers(window.settling_asks(settling), answer),
        window.ghost_window matches Some(ghost) ==> !ghost.disposed,
    ensures
        ({
            let (after, stage, calls) = window.settle_start();
            &&& one_ghost(window.ghost_window) == one_ghost(after.ghost_window).add(
                ghosts_taken_down(calls),
            )
            &&& overlays_taken_down(calls) == Multiset::<(isize, isize, isize)>::empty()
        }),
        !(settling is Settled) ==> {
            let (after, stage, calls) = window.settle_next(settling, answer);
            &&& one_ghost(window.ghost_window) == one_ghost(after.ghost_window).add(
                ghosts_taken_down(calls),
            )
            &&& overlays_taken_down(calls) == Multiset::<(isize, isize, isize)>::empty()
        },
{
    let standing = window.ghost_window;
    let dropping = drop_calls(standing);
    lemma_drop_takes_down(standing);
    lemma_revealed_takes_down(window);
    {
        let (after, stage, calls) = window.settle_start();
        if !(stage is Settled) {
            lemma_nothing_taken_down(calls);
        }
        assert(one_ghost(standing) =~= one_ghost(after.ghost_window).add(ghosts_taken_down(calls)));
    }
    if !(settling is Settled) {
        let (after, stage, calls) = window.settle_next(settling, answer);
        match settling {
            Settling::Place { placing } => {
                let (next, moved) = window.place_next(placing, answer);
                lemma_nothing_taken_down(moved);
                if next is Placed {
                    lemma_taken_down_adds(moved, window.revealed_calls());
                    assert(overlays_taken_down(calls) =~= Multiset::empty());
                }
            },
            _ => {
                let concealing = conceal_calls(window, answer->Flag_0);
                lemma_nothing_taken_down(concealing);
                lemma_taken_down_adds(concealing, dropping);
                assert(overlays_taken_down(calls) =~= Multiset::empty());
            },
        }
        assert(one_ghost(standing) =~= one_ghost(after.ghost_window).add(ghosts_taken_down(calls)));
    }
}

/// Revealing a window takes its ghost down, and nothing else.
proof fn lemma_revealed_takes_down(window: TrackedWindow)
    requires
        window.ghost_window matches Some(ghost) ==> !ghost.disposed,
    ensures
        ghosts_taken_down(window.revealed_calls()) == one_ghost(window.ghost_window),
        overlays_taken_down(window.revealed_calls()) == Multiset::<(isize, isize, isize)>::empty(),
{
    let reveal = reveal_calls(window, window.ghost_window);
    let dropping = drop_calls(window.ghost_window);
    lemma_nothing_taken_down(reveal);
    lemma_drop_takes_down(window.ghost_window);
    lemma_taken_down_adds(reveal, dropping);
    assert(ghosts_taken_down(window.revealed_calls()) =~= one_ghost(window.ghost_window));
    assert(overlays_taken_down(window.revealed_calls()) =~= Multiset::empty());
}

/// Uncovering takes every overlay down, and nothing else.
proof fn lemma_uncover_takes_down(overlays: Seq<RevealOverlay>)
    ensures
        overlays_taken_down(uncover_calls(overlays)) == overlays_of(overlays),
        ghosts_taken_down(uncover_calls(overlays)) == Multiset::<(isize, isize)>::empty(),
    decreases overlays.len(),
{
    let calls = uncover_calls(overlays);
    if overlays.len() == 0 {
        assert(calls =~= seq![]);
    } else {
        lemma_uncover_takes_down(overlays.drop_last());
        assert(calls.drop_last() =~= uncover_calls(overlays.drop_last()));
        assert(overlays_taken_down(calls) =~= overlays_of(overlays));
        assert(ghosts_taken_down(calls) =~= Multiset::empty());
    }
}

/// A window that changes in a step changes the ghosts by what it gains and loses.
proof fn lemma_window_balances(
    slide: SlideModel,
    after: SlideModel,
    index: int,
    given: Multiset<(isize, isize)>,
    calls: Seq<SlideCall>,
)
    requires
        0 <= index < slide.windows.len(),
        after.windows == slide.windows.update(index, after.windows[index]),
        one_ghost(slide.windows[index].ghost_window).add(given) == one_ghost(
            after.windows[index].ghost_window,
        ).add(ghosts_taken_down(calls)),
    ensures
        ghosts_of(slide.windows).add(given) == ghosts_of(after.windows).add(
            ghosts_taken_down(calls),
        ),
{
    lemma_ghosts_of_update(slide.windows, index, after.windows[index]);
    let (was, is) = (
        one_ghost(slide.windows[index].ghost_window),
        one_ghost(after.windows[index].ghost_window),
    );
    let (held, holds, gone) = (
        ghosts_of(slide.windows),
        ghosts_of(after.windows),
        ghosts_taken_down(calls),
    );
    assert forall|g: (isize, isize)| #[trigger]
        held.add(given).count(g) == holds.add(gone).count(g) by {
        assert(holds.add(was).count(g) == held.add(is).count(g));
        assert(was.add(given).count(g) == is.add(gone).count(g));
    }
    assert(held.add(given) =~= holds.add(gone));
}

/// In every step of a slide, what it had and what it is given is what it has and what it takes
/// down: no ghost is lost, and none is taken down twice.
#[verifier::rlimit(40)]
pub proof fn law_step_balances_ghosts(slide: SlideModel, input: Input)
    requires
        slide.wf(),
        slide.accepts(input.clock, input.answer),
    ensures
        ghosts_of(slide.windows).add(slide.ghost_given(input.answer)) == ghosts_of(
            slide.given(input).0.windows,
        ).add(ghosts_taken_down(slide.given(input).1)),
{
    let (after, calls) = slide.given(input);
    let given = slide.ghost_given(input.answer);
    lemma_step_changes_one_window(slide, input);
    match slide.phase {
        Phase::Rect { index, read } => {
            let window = slide.windows[index as int];
            lemma_settling_takes_down(window, Settling::Settled, Answer::Nothing);
            if !(read.next(input.answer->Area_0).0 == RectRead::Done { rect: None }) {
                lemma_nothing_taken_down(calls);
            }
            assert(one_ghost(window.ghost_window).add(given) =~= one_ghost(
                after.windows[index as int].ghost_window,
            ).add(ghosts_taken_down(calls)));
            lemma_window_balances(slide, after, index as int, given, calls);
        },
        Phase::Outer { index, .. } => {
            lemma_nothing_taken_down(calls);
            lemma_window_balances(slide, after, index as int, given, calls);
        },
        Phase::Create { index } => {
            let window = slide.windows[index as int];
            lemma_settling_takes_down(window, Settling::Settled, Answer::Nothing);
            assert(one_ghost(window.ghost_window).add(given) =~= one_ghost(
                after.windows[index as int].ghost_window,
            ).add(ghosts_taken_down(calls)));
            lemma_window_balances(slide, after, index as int, given, calls);
        },
        Phase::Unready { index, settling } => {
            let window = slide.windows[index as int];
            lemma_settling_takes_down(window, settling, input.answer);
            assert(one_ghost(window.ghost_window).add(given) =~= one_ghost(
                after.windows[index as int].ghost_window,
            ).add(ghosts_taken_down(calls)));
            lemma_window_balances(slide, after, index as int, given, calls);
        },
        Phase::Clear { index } => {
            if index < slide.windows.len() {
                let window = slide.windows[index as int];
                lemma_settling_takes_down(window, Settling::Settled, Answer::Nothing);
                lemma_drop_takes_down(window.ghost_window);
                assert(one_ghost(window.ghost_window).add(given) =~= one_ghost(
                    after.windows[index as int].ghost_window,
                ).add(ghosts_taken_down(calls)));
                lemma_window_balances(slide, after, index as int, given, calls);
            }
        },
        Phase::Clearing { index, settling } => {
            let window = slide.windows[index as int];
            lemma_settling_takes_down(window, settling, input.answer);
            assert(one_ghost(window.ghost_window).add(given) =~= one_ghost(
                after.windows[index as int].ghost_window,
            ).add(ghosts_taken_down(calls)));
            lemma_window_balances(slide, after, index as int, given, calls);
        },
        Phase::Fading { .. } => {
            lemma_uncover_takes_down(slide.overlays);
            if after == slide {
                lemma_nothing_taken_down(calls);
            }
        },
        _ => {
            lemma_nothing_taken_down(calls);
        },
    }
    assert(ghosts_of(slide.windows).add(given) =~= ghosts_of(after.windows).add(
        ghosts_taken_down(calls),
    ));
}

/// In every step of a slide, the overlays that were up and the one that it is given are those that
/// are up and those that it takes down.
#[verifier::rlimit(40)]
pub proof fn law_step_balances_overlays(slide: SlideModel, input: Input)
    requires
        slide.wf(),
        slide.accepts(input.clock, input.answer),
    ensures
        overlays_of(slide.overlays).add(slide.overlay_given(input.answer)) == overlays_of(
            slide.given(input).0.overlays,
        ).add(overlays_taken_down(slide.given(input).1)),
{
    let (after, calls) = slide.given(input);
    let given = slide.overlay_given(input.answer);
    match slide.phase {
        Phase::Rect { index, read } => {
            lemma_settling_takes_down(
                slide.windows[index as int],
                Settling::Settled,
                Answer::Nothing,
            );
            if !(read.next(input.answer->Area_0).0 == RectRead::Done { rect: None }) {
                lemma_nothing_taken_down(calls);
            }
        },
        Phase::Create { index } => {
            lemma_settling_takes_down(
                slide.windows[index as int],
                Settling::Settled,
                Answer::Nothing,
            );
        },
        Phase::Unready { index, settling } => {
            lemma_settling_takes_down(slide.windows[index as int], settling, input.answer);
        },
        Phase::Clear { index } => {
            if index < slide.windows.len() {
                let window = slide.windows[index as int];
                lemma_settling_takes_down(window, Settling::Settled, Answer::Nothing);
                lemma_drop_takes_down(window.ghost_window);
            }
        },
        Phase::Clearing { index, settling } => {
            lemma_settling_takes_down(slide.windows[index as int], settling, input.answer);
        },
        Phase::Overlay { .. } => {
            if after.overlays.len() > slide.overlays.len() {
                assert(after.overlays.drop_last() =~= slide.overlays);
            }
        },
        Phase::Fading { .. } => {
            lemma_uncover_takes_down(slide.overlays);
            if after == slide {
                lemma_nothing_taken_down(calls);
            }
        },
        _ => {
            lemma_nothing_taken_down(calls);
        },
    }
    assert(overlays_of(slide.overlays).add(given) =~= overlays_of(after.overlays).add(
        overlays_taken_down(calls),
    ));
}

/// Over any part of its way, a slide accounts for every ghost and every overlay: what it had and
/// was given is what it still has and what it has taken down.
pub proof fn law_slide_balances(slide: SlideModel, inputs: Seq<Input>)
    requires
        slide.wf(),
        slide.windows.len() <= usize::MAX,
        slide.takes(inputs),
    ensures
        ghosts_of(slide.windows).add(slide.ghosts_given(inputs)) == ghosts_of(
            slide.after(inputs).windows,
        ).add(ghosts_taken_down(slide.calls_of(inputs))),
        overlays_of(slide.overlays).add(slide.overlays_given(inputs)) == overlays_of(
            slide.after(inputs).overlays,
        ).add(overlays_taken_down(slide.calls_of(inputs))),
    decreases inputs.len(),
{
    if inputs.len() > 0 {
        let shorter = inputs.drop_last();
        let input = inputs.last();
        let before = slide.after(shorter);
        let (after, more) = before.given(input);
        let calls = slide.calls_of(shorter);
        law_slide_balances(slide, shorter);
        law_slide_keeps_invariant(slide, shorter);
        law_step_balances_ghosts(before, input);
        law_step_balances_overlays(before, input);
        lemma_taken_down_adds(calls, more);
        lemma_accounts_chain(
            ghosts_of(slide.windows),
            slide.ghosts_given(shorter),
            ghosts_of(before.windows),
            ghosts_taken_down(calls),
            before.ghost_given(input.answer),
            ghosts_of(after.windows),
            ghosts_taken_down(more),
        );
        lemma_accounts_chain(
            overlays_of(slide.overlays),
            slide.overlays_given(shorter),
            overlays_of(before.overlays),
            overlays_taken_down(calls),
            before.overlay_given(input.answer),
            overlays_of(after.overlays),
            overlays_taken_down(more),
        );
    }
}

/// Two balanced accounts, one after the other, balance.
proof fn lemma_accounts_chain<T>(
    first: Multiset<T>,
    given: Multiset<T>,
    middle: Multiset<T>,
    gone: Multiset<T>,
    given_then: Multiset<T>,
    last: Multiset<T>,
    gone_then: Multiset<T>,
)
    requires
        first.add(given) == middle.add(gone),
        middle.add(given_then) == last.add(gone_then),
    ensures
        first.add(given.add(given_then)) == last.add(gone.add(gone_then)),
{
    assert forall|v: T| #[trigger]
        first.add(given.add(given_then)).count(v) == last.add(gone.add(gone_then)).count(v) by {
        assert(first.add(given).count(v) == first.count(v) + given.count(v));
        assert(middle.add(gone).count(v) == middle.count(v) + gone.count(v));
        assert(middle.add(given_then).count(v) == middle.count(v) + given_then.count(v));
        assert(last.add(gone_then).count(v) == last.count(v) + gone_then.count(v));
        let (all_given, all_gone) = (given.add(given_then), gone.add(gone_then));
        assert(all_given.count(v) == given.count(v) + given_then.count(v));
        assert(all_gone.count(v) == gone.count(v) + gone_then.count(v));
        assert(first.add(all_given).count(v) == first.count(v) + all_given.count(v));
        assert(last.add(all_gone).count(v) == last.count(v) + all_gone.count(v));
    }
    assert(first.add(given.add(given_then)) =~= last.add(gone.add(gone_then)));
}

/// A slide has nothing before it is prepared, and nothing once it has finished.
proof fn lemma_begins_and_ends_empty(slide: SlideModel, begun: SlideModel, finishing: Seq<Input>)
    requires
        slide.wf(),
        slide.phase is Suppress,
        begun.wf(),
        begun.windows.len() <= usize::MAX,
        begun.phase is Begin,
        begun.takes(finishing),
        begun.after(finishing).phase is Idle,
    ensures
        ghosts_of(slide.windows) == Multiset::<(isize, isize)>::empty(),
        overlays_of(slide.overlays) == Multiset::<(isize, isize, isize)>::empty(),
        ghosts_of(begun.after(finishing).windows) == Multiset::<(isize, isize)>::empty(),
        overlays_of(begun.after(finishing).overlays) == Multiset::<(isize, isize, isize)>::empty(),
{
    law_finish_puts_every_window_back(begun, finishing);
    lemma_no_ghosts(slide.windows);
    lemma_no_ghosts(begun.after(finishing).windows);
}

/// A slide that begins without ghosts and has finished has taken down every ghost and every overlay
/// that it was ever given, each exactly once.
pub proof fn law_finished_slide_leaves_nothing(
    slide: SlideModel,
    preparing: Seq<Input>,
    move_mouse: bool,
    ending: Ending,
    finishing: Seq<Input>,
)
    requires
        slide.wf(),
        slide.windows.len() <= usize::MAX,
        slide.phase is Suppress,
        slide.takes(preparing),
        ({
            let prepared = slide.after(preparing);
            let begun = prepared.finish_start(move_mouse, ending).0;
            &&& prepared.phase is Idle
            &&& begun.phase is Begin
            &&& begun.takes(finishing)
            &&& begun.after(finishing).phase is Idle
        }),
    ensures
        ({
            let begun = slide.after(preparing).finish_start(move_mouse, ending).0;
            let calls = slide.calls_of(preparing) + begun.calls_of(finishing);
            &&& slide.ghosts_given(preparing).add(begun.ghosts_given(finishing))
                == ghosts_taken_down(calls)
            &&& slide.overlays_given(preparing).add(begun.overlays_given(finishing))
                == overlays_taken_down(calls)
        }),
{
    let prepared = slide.after(preparing);
    let begun = prepared.finish_start(move_mouse, ending).0;
    let after = begun.after(finishing);
    law_slide_keeps_invariant(slide, preparing);
    law_finish_keeps_invariant(prepared, move_mouse, ending);
    law_slide_balances(slide, preparing);
    law_slide_balances(begun, finishing);
    lemma_begins_and_ends_empty(slide, begun, finishing);
    lemma_taken_down_adds(slide.calls_of(preparing), begun.calls_of(finishing));
    lemma_accounts_chain(
        ghosts_of(slide.windows),
        slide.ghosts_given(preparing),
        ghosts_of(prepared.windows),
        ghosts_taken_down(slide.calls_of(preparing)),
        begun.ghosts_given(finishing),
        ghosts_of(after.windows),
        ghosts_taken_down(begun.calls_of(finishing)),
    );
    lemma_accounts_chain(
        overlays_of(slide.overlays),
        slide.overlays_given(preparing),
        overlays_of(prepared.overlays),
        overlays_taken_down(slide.calls_of(preparing)),
        begun.overlays_given(finishing),
        overlays_of(after.overlays),
        overlays_taken_down(begun.calls_of(finishing)),
    );
    lemma_from_nothing_to_nothing(
        slide.ghosts_given(preparing).add(begun.ghosts_given(finishing)),
        ghosts_taken_down(slide.calls_of(preparing)).add(
            ghosts_taken_down(begun.calls_of(finishing)),
        ),
    );
    lemma_from_nothing_to_nothing(
        slide.overlays_given(preparing).add(begun.overlays_given(finishing)),
        overlays_taken_down(slide.calls_of(preparing)).add(
            overlays_taken_down(begun.calls_of(finishing)),
        ),
    );
}

/// An account that begins and ends empty has given out what it took in.
proof fn lemma_from_nothing_to_nothing<T>(given: Multiset<T>, gone: Multiset<T>)
    requires
        Multiset::<T>::empty().add(given) == Multiset::<T>::empty().add(gone),
    ensures
        given == gone,
{
    assert forall|v: T| #[trigger] given.count(v) == gone.count(v) by {
        assert(Multiset::<T>::empty().add(given).count(v) == given.count(v));
        assert(Multiset::<T>::empty().add(gone).count(v) == gone.count(v));
    }
    assert(given =~= gone);
}

/// No window has a ghost.
spec fn is_bare(slide: SlideModel) -> bool {
    forall|i: int| 0 <= i < slide.windows.len() ==> (#[trigger] slide.windows[i]).ghost_window is None
}

/// A slide that finishes on its own has no ghosts.
proof fn lemma_unmoved_course(slide: SlideModel, inputs: Seq<Input>)
    requires
        slide.wf(),
        slide.windows.len() <= usize::MAX,
        slide.phase is Suppress,
        !slide.settled,
        slide.takes(inputs),
    ensures
        slide.after(inputs).settled ==> slide.after(inputs).is_finishing() && is_bare(
            slide.after(inputs),
        ),
    decreases inputs.len(),
{
    if inputs.len() > 0 {
        let shorter = inputs.drop_last();
        let before = slide.after(shorter);
        let after = slide.after(inputs);
        lemma_unmoved_course(slide, shorter);
        law_slide_keeps_invariant(slide, shorter);
        lemma_step_changes_one_window(before, inputs.last());
        if before.phase is Opened && after.settled {
            assert forall|i: int| 0 <= i < after.windows.len() implies (
            #[trigger] after.windows[i]).ghost_window is None by {
                assert(before.windows[i].active == (before.windows[i].ghost_window is Some));
            }
        } else if before.settled {
            lemma_finishing_makes_no_ghost(before, inputs.last());
        }
    }
}

proof fn lemma_finishing_makes_no_ghost(slide: SlideModel, input: Input)
    requires
        slide.wf(),
        slide.accepts(input.clock, input.answer),
        slide.is_finishing(),
        is_bare(slide),
    ensures
        slide.given(input).0.is_finishing(),
        is_bare(slide.given(input).0),
{
    let after = slide.given(input).0;
    lemma_step_changes_one_window(slide, input);
    assert forall|i: int| 0 <= i < after.windows.len() implies (
    #[trigger] after.windows[i]).ghost_window is None by {
        assert(slide.windows[i].ghost_window is None);
        if slide.turn() != Some(i) {
            assert(after.windows[i] == slide.windows[i]);
        }
    }
}

/// A slide in which nothing can move finishes as soon as it is prepared. It too has then taken down
/// every ghost that it was given, each exactly once.
pub proof fn law_unmoved_slide_leaves_nothing(slide: SlideModel, inputs: Seq<Input>)
    requires
        slide.wf(),
        slide.windows.len() <= usize::MAX,
        slide.phase is Suppress,
        !slide.settled,
        slide.takes(inputs),
        slide.after(inputs).phase is Idle,
        slide.after(inputs).settled,
    ensures
        slide.ghosts_given(inputs) == ghosts_taken_down(slide.calls_of(inputs)),
        slide.overlays_given(inputs) == overlays_taken_down(slide.calls_of(inputs)),
{
    law_slide_keeps_invariant(slide, inputs);
    law_slide_balances(slide, inputs);
    lemma_unmoved_course(slide, inputs);
    lemma_no_ghosts(slide.windows);
    lemma_no_ghosts(slide.after(inputs).windows);
    lemma_from_nothing_to_nothing(
        slide.ghosts_given(inputs),
        ghosts_taken_down(slide.calls_of(inputs)),
    );
    lemma_from_nothing_to_nothing(
        slide.overlays_given(inputs),
        overlays_taken_down(slide.calls_of(inputs)),
    );
}

/// A slide that goes away takes down every ghost that it still has, each exactly once.
pub proof fn law_abandoned_slide_leaves_no_ghost(slide: SlideModel)
    requires
        slide.wf(),
    ensures
        ghosts_taken_down(abandon_calls(slide.windows)) == ghosts_of(slide.windows),
        ghosts_of(slide.abandoned().windows) == Multiset::<(isize, isize)>::empty(),
{
    lemma_abandon_takes_down(slide.windows);
    lemma_no_ghosts(slide.abandoned().windows);
}

/// A slide whose run broke off, in whatever phase, leaves nothing behind once it is abandoned:
/// every overlay and every ghost that it had is taken down, each exactly once.
pub proof fn law_interrupted_slide_leaves_nothing(slide: SlideModel)
    requires
        slide.wf(),
    ensures
        ({
            let calls = uncover_calls(slide.overlays) + abandon_calls(slide.interrupted().windows);
            &&& ghosts_taken_down(calls) == ghosts_of(slide.windows)
            &&& overlays_taken_down(calls) == overlays_of(slide.overlays)
        }),
{
    let windows = slide.windows;
    let (uncovering, abandoning) = (uncover_calls(slide.overlays), abandon_calls(windows));
    lemma_uncover_takes_down(slide.overlays);
    lemma_abandon_takes_down(windows);
    lemma_taken_down_adds(uncovering, abandoning);
    assert(ghosts_taken_down(uncovering + abandoning) =~= ghosts_of(windows));
    assert(overlays_taken_down(uncovering + abandoning) =~= overlays_of(slide.overlays));
}

proof fn lemma_abandon_takes_down(windows: Seq<TrackedWindow>)
    requires
        forall|i: int|
            0 <= i < windows.len() ==> ((#[trigger] windows[i]).ghost_window matches Some(ghost)
                ==> !ghost.disposed),
    ensures
        ghosts_taken_down(abandon_calls(windows)) == ghosts_of(windows),
        overlays_taken_down(abandon_calls(windows)) == Multiset::<(isize, isize, isize)>::empty(),
    decreases windows.len(),
{
    if windows.len() > 0 {
        lemma_abandon_takes_down(windows.drop_last());
        lemma_drop_takes_down(windows.last().ghost_window);
        lemma_taken_down_adds(
            abandon_calls(windows.drop_last()),
            drop_calls(windows.last().ghost_window),
        );
        assert(overlays_taken_down(abandon_calls(windows)) =~= Multiset::empty());
    }
}

} // verus!

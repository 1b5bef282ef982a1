//! What has become of the windows, the focus and the overlays when a slide has run.
use vstd::prelude::*;

use crate::course::{
    law_finish_puts_every_window_back, law_slide_keeps_invariant, lemma_finish_owns,
    lemma_settle_takes_no_focus, lemma_step_changes_one_window, Input,
};
use crate::dispatcher::{Ending, Phase, SlideModel};
use crate::ghost::{GhostCmd, RevealOverlay};
use crate::phases::{hwnds_of, law_finish_keeps_invariant};
use crate::window::{
    cloaked_after, law_settling_window_is_as_recorded, lemma_cloak_untouched,
    lemma_cloaked_after_chains, Answer, Ask, RectRead, Settling, SlideCall,
};

verus! {

// ---------------------------------------------------------------------------------------------
// Cloaks
// ---------------------------------------------------------------------------------------------

impl SlideModel {
    /// Window `i` takes part once.
    pub open spec fn takes_part_once(self, i: int) -> bool {
        forall|j: int|
            0 <= j < self.windows.len() && j != i ==> (#[trigger] self.windows[j]).hwnd
                != self.windows[i].hwnd
    }

    /// The windows that are still to be prepared are cloaked, as the caller has left them, and the
    /// rect that is being read is that of the window in turn.
    pub open spec fn awaits_cloaked(self) -> bool {
        &&& forall|i: int|
            self.opened() <= i < self.windows.len() ==> (#[trigger] self.windows[i]).cloaked
        &&& self.phase matches Phase::Rect { index, read } ==> read.asked() == (Ask::WindowRect {
            hwnd: self.windows[index as int].hwnd,
        })
    }
}

/// A step does to the cloak of the window in turn what it records, and nothing to any other window.
#[verifier::rlimit(60)]
proof fn lemma_step_cloaks_as_recorded(slide: SlideModel, input: Input, other: isize, before: bool)
    requires
        slide.wf(),
        slide.windows.len() <= usize::MAX,
        slide.awaits_cloaked(),
        slide.accepts(input.clock, input.answer),
        slide.turn() matches Some(index) ==> other != slide.windows[index].hwnd,
    ensures
        cloaked_after(slide.given(input).1, other, before) == before,
        slide.turn() matches Some(index) ==> cloaked_after(
            slide.given(input).1,
            slide.windows[index].hwnd,
            slide.windows[index].cloaked,
        ) == slide.given(input).0.windows[index].cloaked,
{
    let (after, calls) = slide.given(input);
    lemma_step_changes_one_window(slide, input);
    match slide.phase {
        Phase::Rect { index, read } => {
            let window = slide.windows[index as int];
            law_settling_window_is_as_recorded(
                window,
                Settling::Settled,
                Answer::Nothing,
                other,
                before,
            );
            if !(read.next(input.answer->Area_0).0 == RectRead::Done { rect: None }) {
                reveal_with_fuel(cloaked_after, 3);
                if calls.len() == 2 {
                    assert(calls.last() == (SlideCall::SetCloak {
                        hwnd: window.hwnd,
                        kind: 1,
                        value: 2,
                    }));
                }
            }
        },
        Phase::Outer { index, .. } => {
            reveal_with_fuel(cloaked_after, 2);
        },
        Phase::Create { index } => {
            law_settling_window_is_as_recorded(
                slide.windows[index as int],
                Settling::Settled,
                Answer::Nothing,
                other,
                before,
            );
        },
        Phase::Unready { index, settling } => {
            law_settling_window_is_as_recorded(
                slide.windows[index as int],
                settling,
                input.answer,
                other,
                before,
            );
        },
        Phase::Clear { index } => {
            if index < slide.windows.len() {
                let window = slide.windows[index as int];
                law_settling_window_is_as_recorded(
                    window,
                    Settling::Settled,
                    Answer::Nothing,
                    other,
                    before,
                );
                if !slide.owned.contains(window.hwnd) {
                    lemma_cloak_untouched(calls, window.hwnd, window.cloaked);
                    lemma_cloak_untouched(calls, other, before);
                }
            }
        },
        Phase::Clearing { index, settling } => {
            law_settling_window_is_as_recorded(
                slide.windows[index as int],
                settling,
                input.answer,
                other,
                before,
            );
        },
        _ => {
            lemma_cloak_untouched(calls, other, before);
        },
    }
}

/// The windows that are still to be prepared stay cloaked until their turn.
#[verifier::rlimit(40)]
proof fn lemma_step_awaits_cloaked(slide: SlideModel, input: Input)
    requires
        slide.wf(),
        slide.windows.len() <= usize::MAX,
        slide.awaits_cloaked(),
        slide.accepts(input.clock, input.answer),
    ensures
        slide.given(input).0.awaits_cloaked(),
{
    let after = slide.given(input).0;
    lemma_step_changes_one_window(slide, input);
    assert forall|i: int| after.opened() <= i < after.windows.len() implies (
    #[trigger] after.windows[i]).cloaked by {
        if slide.turn() != Some(i) {
            assert(after.windows[i] == slide.windows[i]);
        }
    }
}

/// The record of a slide is what its calls have done: at every point of its way, a window counts as
/// cloaked exactly if the last call that cloaked or uncloaked it cloaked it.
pub proof fn law_cloak_record_follows_the_calls(slide: SlideModel, inputs: Seq<Input>, i: int)
    requires
        slide.wf(),
        slide.windows.len() <= usize::MAX,
        slide.takes_part_once(i),
        slide.awaits_cloaked(),
        slide.takes(inputs),
        0 <= i < slide.windows.len(),
    ensures
        slide.after(inputs).awaits_cloaked(),
        slide.after(inputs).windows[i].cloaked == cloaked_after(
            slide.calls_of(inputs),
            slide.windows[i].hwnd,
            slide.windows[i].cloaked,
        ),
    decreases inputs.len(),
{
    if inputs.len() > 0 {
        let shorter = inputs.drop_last();
        let input = inputs.last();
        let before = slide.after(shorter);
        law_cloak_record_follows_the_calls(slide, shorter, i);
        law_slide_keeps_invariant(slide, shorter);
        lemma_step_awaits_cloaked(before, input);
        lemma_step_changes_one_window(before, input);
        let (hwnd, cloaked) = (slide.windows[i].hwnd, slide.windows[i].cloaked);
        let (calls, more) = (slide.calls_of(shorter), before.given(input).1);
        assert(before.windows[i].same_role_as(slide.windows[i]));
        lemma_cloaked_after_chains(calls, more, hwnd, cloaked);
        match before.turn() {
            Some(index) => {
                assert(before.windows[index].same_role_as(slide.windows[index]));
                if index == i {
                    let other: isize = if hwnd == 0 {
                        1
                    } else {
                        0
                    };
                    lemma_step_cloaks_as_recorded(before, input, other, true);
                } else {
                    assert(slide.windows[index].hwnd != slide.windows[i].hwnd);
                    lemma_step_cloaks_as_recorded(before, input, hwnd, before.windows[i].cloaked);
                }
            },
            None => {
                lemma_step_cloaks_as_recorded(before, input, hwnd, before.windows[i].cloaked);
            },
        }
    }
}

/// When a slide has finished, every incoming window that it still owned is uncloaked: of all the
/// calls of the slide that cloaked or uncloaked the window, the last one uncloaked it. An outgoing
/// window is left as is recorded, which is cloaked only where hiding is cloaking. (A window that is
/// listed twice may be revealed in one place and hidden in the other.)
pub proof fn law_finished_slide_leaves_no_incoming_window_cloaked(
    slide: SlideModel,
    preparing: Seq<Input>,
    move_mouse: bool,
    ending: Ending,
    finishing: Seq<Input>,
    i: int,
)
    requires
        slide.wf(),
        slide.windows.len() <= usize::MAX,
        slide.takes_part_once(i),
        slide.phase is Suppress,
        forall|j: int| 0 <= j < slide.windows.len() ==> (#[trigger] slide.windows[j]).cloaked,
        slide.takes(preparing),
        ({
            let prepared = slide.after(preparing);
            let begun = prepared.finish_start(move_mouse, ending).0;
            &&& prepared.phase is Idle
            &&& begun.phase is Begin
            &&& begun.takes(finishing)
            &&& begun.after(finishing).phase is Idle
        }),
        0 <= i < slide.windows.len(),
    ensures
        ({
            let begun = slide.after(preparing).finish_start(move_mouse, ending).0;
            let calls = slide.calls_of(preparing) + begun.calls_of(finishing);
            let window = slide.windows[i];
            let owned = finishing[0].driven.contains_key(window.hwnd)
                && finishing[0].driven[window.hwnd] == slide.slide_id;
            let cloaked = cloaked_after(calls, window.hwnd, true);
            &&& begun.after(finishing).windows[i].cloaked == cloaked
            &&& owned && window.incoming ==> !cloaked
            &&& owned && !window.incoming && cloaked ==> begun.told(
                finishing,
                i,
                Settling::Conceal,
                Answer::Flag(true),
            )
        }),
{
    let prepared = slide.after(preparing);
    let begun = prepared.finish_start(move_mouse, ending).0;
    let after = begun.after(finishing);
    let window = slide.windows[i];
    law_slide_keeps_invariant(slide, preparing);
    law_finish_keeps_invariant(prepared, move_mouse, ending);
    law_cloak_record_follows_the_calls(slide, preparing, i);
    assert(prepared.windows[i].same_role_as(window));
    assert(begun.windows == prepared.windows);
    assert(begun.takes_part_once(i)) by {
        assert forall|j: int| 0 <= j < begun.windows.len() && j != i implies (
        #[trigger] begun.windows[j]).hwnd != begun.windows[i].hwnd by {
            assert(prepared.windows[j].same_role_as(slide.windows[j]));
        }
    }
    law_cloak_record_follows_the_calls(begun, finishing, i);
    law_finish_puts_every_window_back(begun, finishing);
    lemma_cloaked_after_chains(
        slide.calls_of(preparing),
        begun.calls_of(finishing),
        window.hwnd,
        true,
    );
    assert(after.windows[i].same_role_as(begun.windows[i]));
    assert(hwnds_of(begun.windows)[i] == window.hwnd);
    assert(after.windows[i].hwnd == window.hwnd);
}

// ---------------------------------------------------------------------------------------------
// The focus
// ---------------------------------------------------------------------------------------------

/// The windows that the calls focus, in order.
pub open spec fn focused_by(calls: Seq<SlideCall>) -> Seq<isize>
    decreases calls.len(),
{
    if calls.len() == 0 {
        seq![]
    } else {
        match calls.last() {
            SlideCall::Focus { hwnd } => focused_by(calls.drop_last()).push(hwnd),
            _ => focused_by(calls.drop_last()),
        }
    }
}

proof fn lemma_focused_by_chains(calls: Seq<SlideCall>, more: Seq<SlideCall>)
    ensures
        focused_by(calls + more) == focused_by(calls) + focused_by(more),
    decreases more.len(),
{
    if more.len() == 0 {
        assert(calls + more =~= calls);
        assert(focused_by(calls) + focused_by(more) =~= focused_by(calls));
    } else {
        assert((calls + more).drop_last() =~= calls + more.drop_last());
        lemma_focused_by_chains(calls, more.drop_last());
        assert(focused_by(calls + more) =~= focused_by(calls) + focused_by(more));
    }
}

proof fn lemma_focuses_nothing(calls: Seq<SlideCall>)
    requires
        forall|k: int| 0 <= k < calls.len() ==> !(#[trigger] calls[k] is Focus),
    ensures
        focused_by(calls) == Seq::<isize>::empty(),
    decreases calls.len(),
{
    if calls.len() > 0 {
        lemma_focuses_nothing(calls.drop_last());
    }
}

impl SlideModel {
    /// The slide is to move the focus, and owns the window that gets it.
    spec fn will_focus(self) -> bool {
        self.move_mouse && self.focus_hwnd is Some && self.owned.contains(self.focus_hwnd->0)
    }

    /// The slide has asked where the focused window is, to put the cursor there.
    pub open spec fn asks_for_the_cursor_at(self, inputs: Seq<Input>, k: int) -> bool {
        let then = self.after(inputs.take(k));
        then.phase is Cursor && then.asked() == (Ask::WindowRect { hwnd: self.focus_hwnd->0 })
    }

    pub open spec fn asks_for_the_cursor(self, inputs: Seq<Input>) -> bool {
        exists|k: int| 0 <= k < inputs.len() && #[trigger] self.asks_for_the_cursor_at(inputs, k)
    }
}

/// In one step of finishing only the release focuses anything, and what is focused is fixed.
#[verifier::rlimit(40)]
proof fn lemma_finish_step_focus(slide: SlideModel, input: Input)
    requires
        slide.wf(),
        slide.is_finishing(),
        slide.accepts(input.clock, input.answer),
    ensures
        slide.given(input).0.focus_hwnd == slide.focus_hwnd,
        slide.given(input).0.move_mouse == slide.move_mouse,
        slide.given(input).0.mouse_follows_focus == slide.mouse_follows_focus,
        !(slide.phase is Release) ==> focused_by(slide.given(input).1) == Seq::<isize>::empty(),
        slide.phase is Release ==> focused_by(slide.given(input).1) == if slide.will_focus() {
            seq![slide.focus_hwnd->0]
        } else {
            seq![]
        },
        slide.given(input).0.phase is Cursor <==> slide.phase is Release && slide.will_focus()
            && slide.mouse_follows_focus,
{
    let (after, calls) = slide.given(input);
    match slide.phase {
        Phase::Clear { index } => {
            if index < slide.windows.len() {
                lemma_settle_takes_no_focus(
                    slide.windows[index as int],
                    Settling::Settled,
                    Answer::Nothing,
                );
            }
            lemma_focuses_nothing(calls);
        },
        Phase::Clearing { index, settling } => {
            lemma_settle_takes_no_focus(slide.windows[index as int], settling, input.answer);
            lemma_focuses_nothing(calls);
        },
        Phase::Release => {
            if slide.will_focus() {
                assert(calls.last() == (SlideCall::Focus { hwnd: slide.focus_hwnd->0 }));
                lemma_focuses_nothing(calls.drop_last());
                assert(focused_by(calls) =~= seq![slide.focus_hwnd->0]);
            } else {
                lemma_focuses_nothing(calls);
            }
        },
        _ => {
            lemma_focuses_nothing(calls);
        },
    }
}

proof fn lemma_finish_focus(slide: SlideModel, inputs: Seq<Input>)
    requires
        slide.wf(),
        slide.windows.len() <= usize::MAX,
        slide.phase is Begin,
        slide.takes(inputs),
    ensures
        ({
            let after = slide.after(inputs);
            &&& after.focus_hwnd == slide.focus_hwnd && after.move_mouse == slide.move_mouse
            &&& after.mouse_follows_focus == slide.mouse_follows_focus
            &&& focused_by(slide.calls_of(inputs)) == if after.is_past_release()
                && after.will_focus() {
                seq![slide.focus_hwnd->0]
            } else {
                seq![]
            }
        }),
    decreases inputs.len(),
{
    if inputs.len() > 0 {
        let shorter = inputs.drop_last();
        let input = inputs.last();
        let before = slide.after(shorter);
        let after = slide.after(inputs);
        lemma_finish_focus(slide, shorter);
        lemma_finish_owns(slide, shorter);
        lemma_finish_owns(slide, inputs);
        lemma_finish_step_focus(before, input);
        lemma_focused_by_chains(slide.calls_of(shorter), before.given(input).1);
        if shorter.len() > 0 {
            assert(shorter[0] == inputs[0]);
        }
        lemma_release_opens_the_end(before, input);
        assert(focused_by(slide.calls_of(inputs)) =~= if after.is_past_release()
            && after.will_focus() {
            seq![slide.focus_hwnd->0]
        } else {
            seq![]
        });
    }
}

/// The phases after the release are entered from it, and not left.
proof fn lemma_release_opens_the_end(slide: SlideModel, input: Input)
    requires
        slide.wf(),
        slide.is_finishing(),
        slide.accepts(input.clock, input.answer),
    ensures
        slide.given(input).0.is_past_release() <==> slide.phase is Release
            || slide.is_past_release(),
        slide.phase is Begin ==> !slide.is_past_release(),
{
}

/// One step more: the question is asked if it was asked before, or in that step.
proof fn lemma_asks_for_the_cursor_extends(slide: SlideModel, inputs: Seq<Input>)
    requires
        inputs.len() > 0,
    ensures
        slide.asks_for_the_cursor(inputs) <==> slide.asks_for_the_cursor(inputs.drop_last())
            || slide.asks_for_the_cursor_at(inputs, inputs.len() - 1),
{
    let shorter = inputs.drop_last();
    let last: int = inputs.len() - 1;
    assert forall|k: int| 0 <= k < last implies #[trigger] slide.asks_for_the_cursor_at(inputs, k)
        == slide.asks_for_the_cursor_at(shorter, k) by {
        assert(inputs.take(k) =~= shorter.take(k));
    }
    if slide.asks_for_the_cursor(shorter) {
        let k = choose|k: int|
            0 <= k < shorter.len() && #[trigger] slide.asks_for_the_cursor_at(shorter, k);
        assert(slide.asks_for_the_cursor_at(inputs, k));
    }
    if slide.asks_for_the_cursor(inputs) {
        let k = choose|k: int|
            0 <= k < inputs.len() && #[trigger] slide.asks_for_the_cursor_at(inputs, k);
        if k < last {
            assert(slide.asks_for_the_cursor_at(shorter, k));
        }
    }
}

proof fn lemma_finish_cursor(slide: SlideModel, inputs: Seq<Input>)
    requires
        slide.wf(),
        slide.windows.len() <= usize::MAX,
        slide.phase is Begin,
        slide.takes(inputs),
    ensures
        ({
            let after = slide.after(inputs);
            let follows = after.will_focus() && after.mouse_follows_focus;
            &&& after.phase is Cursor ==> follows
            &&& !after.is_past_release() || after.phase is Cursor ==> !slide.asks_for_the_cursor(
                inputs,
            )
            &&& after.is_past_release() && !(after.phase is Cursor) ==> (slide.asks_for_the_cursor(
                inputs,
            ) <==> follows)
        }),
    decreases inputs.len(),
{
    if inputs.len() > 0 {
        let shorter = inputs.drop_last();
        let input = inputs.last();
        let before = slide.after(shorter);
        lemma_finish_cursor(slide, shorter);
        lemma_finish_focus(slide, shorter);
        lemma_finish_owns(slide, shorter);
        lemma_finish_owns(slide, inputs);
        lemma_finish_step_focus(before, input);
        if shorter.len() > 0 {
            assert(shorter[0] == inputs[0]);
        }
        lemma_release_opens_the_end(before, input);
        lemma_asks_for_the_cursor_extends(slide, inputs);
        assert(inputs.take(inputs.len() - 1) =~= shorter);
        assert(slide.asks_for_the_cursor_at(inputs, inputs.len() - 1) <==> before.phase is Cursor);
    }
}

/// When a slide that moves the focus has finished, and still owned the window that is to have it,
/// that window has been focused exactly once, and no other, whether or not the cursor follows. The
/// slide has asked where the window is, to put the cursor there, exactly if the cursor is to follow.
/// In every other case nothing has been focused.
pub proof fn law_finished_slide_has_moved_the_focus(slide: SlideModel, inputs: Seq<Input>)
    requires
        slide.wf(),
        slide.windows.len() <= usize::MAX,
        slide.phase is Begin,
        slide.takes(inputs),
        slide.after(inputs).phase is Idle,
    ensures
        ({
            let focuses = slide.move_mouse && slide.focus_hwnd is Some && slide.owns(
                inputs[0].driven,
            ).contains(slide.focus_hwnd->0);
            &&& focuses ==> focused_by(slide.calls_of(inputs)) == seq![slide.focus_hwnd->0]
            &&& !focuses ==> focused_by(slide.calls_of(inputs)).len() == 0
            &&& slide.asks_for_the_cursor(inputs) <==> focuses && slide.mouse_follows_focus
        }),
{
    lemma_finish_focus(slide, inputs);
    lemma_finish_cursor(slide, inputs);
    lemma_finish_owns(slide, inputs);
}

// ---------------------------------------------------------------------------------------------
// Overlays
// ---------------------------------------------------------------------------------------------

impl SlideModel {
    /// The overlays that the owner has made for the slide, in order, as it replied.
    pub open spec fn overlay_replies(self, inputs: Seq<Input>) -> Seq<(isize, isize, isize)>
        decreases inputs.len(),
    {
        if inputs.len() == 0 {
            seq![]
        } else {
            let before = self.overlay_replies(inputs.drop_last());
            match (self.after(inputs.drop_last()).phase, inputs.last().answer) {
                (Phase::Overlay { .. }, Answer::Overlaid(Some(made))) => before.push(made),
                _ => before,
            }
        }
    }

    /// The overlays that are up are those of the replies.
    spec fn shows_replies(self, replies: Seq<(isize, isize, isize)>) -> bool {
        &&& self.overlays.len() == replies.len()
        &&& forall|i: int|
            0 <= i < replies.len() ==> {
                let overlay = #[trigger] self.overlays[i];
                &&& overlay.host_hwnd == replies[i].0
                &&& overlay.hdesktop == replies[i].1
                &&& overlay.hthumb == replies[i].2
            }
    }
}

proof fn lemma_overlays_are_the_replies(slide: SlideModel, inputs: Seq<Input>)
    requires
        slide.wf(),
        slide.windows.len() <= usize::MAX,
        slide.phase is Begin,
        slide.takes(inputs),
    ensures
        slide.after(inputs).may_have_overlays() || slide.after(inputs).phase is Begin
            ==> slide.after(inputs).shows_replies(slide.overlay_replies(inputs)),
    decreases inputs.len(),
{
    if inputs.len() > 0 {
        let shorter = inputs.drop_last();
        let before = slide.after(shorter);
        lemma_overlays_are_the_replies(slide, shorter);
        lemma_finish_owns(slide, shorter);
        let after = slide.after(inputs);
        let (old_replies, replies) = (
            slide.overlay_replies(shorter),
            slide.overlay_replies(inputs),
        );
        if after.may_have_overlays() {
            assert(before.may_have_overlays() || before.phase is Begin);
            assert forall|i: int| 0 <= i < replies.len() implies {
                let overlay = #[trigger] after.overlays[i];
                &&& overlay.host_hwnd == replies[i].0
                &&& overlay.hdesktop == replies[i].1
                &&& overlay.hthumb == replies[i].2
            } by {
                if i < old_replies.len() {
                    assert(after.overlays[i] == before.overlays[i]);
                }
            }
        }
    }
}

/// While a slide fades, every overlay that the owner has made for it gets its alpha on the host that
/// the owner replied with, in every step that the fade goes on; and in the step in which the fade
/// ends each of them is destroyed, with the very handles that the owner replied with.
pub proof fn law_fade_is_on_the_overlays_that_were_made(
    slide: SlideModel,
    inputs: Seq<Input>,
    started: u128,
    input: Input,
)
    requires
        slide.wf(),
        slide.windows.len() <= usize::MAX,
        slide.phase is Begin,
        slide.takes(inputs),
        slide.after(inputs).phase == (Phase::Fading { started }),
        input.clock.now >= started,
    ensures
        ({
            let replies = slide.overlay_replies(inputs);
            let (after, calls) = slide.after(inputs).given(input);
            if after.phase is Fading {
                &&& calls.len() == replies.len() + 1
                &&& calls.last() is Flush
                &&& forall|i: int|
                    0 <= i < replies.len() ==> (#[trigger] calls[i] matches SlideCall::FadeOverlay {
                        hwnd,
                        elapsed,
                        ..
                    } && hwnd == replies[i].0 && elapsed == input.clock.now - started)
            } else {
                &&& calls.len() == replies.len()
                &&& forall|i: int|
                    0 <= i < replies.len() ==> #[trigger] calls[i] == (SlideCall::Send {
                        cmd: GhostCmd::DestroyOverlay {
                            host_hwnd: replies[i].0,
                            hdesktop: replies[i].1,
                            hthumb: replies[i].2,
                        },
                    })
            }
        }),
{
    lemma_overlays_are_the_replies(slide, inputs);
    let then = slide.after(inputs);
    let replies = slide.overlay_replies(inputs);
    let (after, calls) = then.given(input);
    assert forall|i: int| 0 <= i < replies.len() implies {
        let overlay: RevealOverlay = #[trigger] then.overlays[i];
        overlay.host_hwnd == replies[i].0 && overlay.hdesktop == replies[i].1 && overlay.hthumb
            == replies[i].2
    } by {}
}

} // verus!

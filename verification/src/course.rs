//! What holds of a slide from one end to the other, however its questions are answered.
use vstd::prelude::*;

use crate::dispatcher::{Phase, SlideModel, REVEAL_FADE};
use crate::phases::{fade_of, hwnds_of, law_step_keeps_invariant, uncover_calls};
use crate::registry::{drives, Clock, SlideStateModel};
use crate::window::{
    answers, drop_calls, reveal_calls, Answer, Placing, RectRead, Settling, SlideCall,
    TrackedWindow,
};

verus! {

/// What one step of a slide is given: the shared state of that moment, the time, and the answer.
pub struct Input {
    pub settle_requests: usize,
    pub driven: Map<isize, usize>,
    pub clock: Clock,
    pub answer: Answer,
}

impl SlideModel {
    /// One step.
    pub open spec fn given(self, input: Input) -> (SlideModel, Seq<SlideCall>) {
        self.next(input.settle_requests, input.driven, input.clock, input.answer)
    }

    /// Where the slide stands after a step for each of the inputs.
    pub open spec fn after(self, inputs: Seq<Input>) -> SlideModel
        decreases inputs.len(),
    {
        if inputs.len() == 0 {
            self
        } else {
            self.after(inputs.drop_last()).given(inputs.last()).0
        }
    }

    /// Every call of those steps, in order.
    pub open spec fn calls_of(self, inputs: Seq<Input>) -> Seq<SlideCall>
        decreases inputs.len(),
    {
        if inputs.len() == 0 {
            seq![]
        } else {
            self.calls_of(inputs.drop_last()) + self.after(inputs.drop_last()).given(
                inputs.last(),
            ).1
        }
    }

    /// Each of the inputs can be taken in its turn.
    pub open spec fn takes(self, inputs: Seq<Input>) -> bool
        decreases inputs.len(),
    {
        inputs.len() == 0 || {
            &&& self.takes(inputs.drop_last())
            &&& self.after(inputs.drop_last()).accepts(inputs.last().clock, inputs.last().answer)
        }
    }

    /// Both have the same windows, in the same roles.
    pub open spec fn same_windows_as(self, other: SlideModel) -> bool {
        &&& self.windows.len() == other.windows.len()
        &&& forall|i: int|
            0 <= i < self.windows.len() ==> (#[trigger] self.windows[i]).same_role_as(
                other.windows[i],
            )
    }

    /// The window that the next step may change.
    pub open spec fn turn(self) -> Option<int> {
        match self.phase {
            Phase::Rect { index, .. } => Some(index as int),
            Phase::Outer { index, .. } => Some(index as int),
            Phase::Create { index } => Some(index as int),
            Phase::Unready { index, .. } => Some(index as int),
            Phase::Clear { index } => if index < self.windows.len() {
                Some(index as int)
            } else {
                None
            },
            Phase::Clearing { index, .. } => Some(index as int),
            _ => None,
        }
    }
}

impl TrackedWindow {
    /// Both are the same window, in the same role.
    pub open spec fn same_role_as(self, other: TrackedWindow) -> bool {
        &&& self.hwnd == other.hwnd
        &&& self.incoming == other.incoming
        &&& self.floating == other.floating
        &&& self.outer == other.outer
    }
}

/// Putting a window back changes neither the window nor its role.
proof fn lemma_settle_keeps_role(window: TrackedWindow, settling: Settling, answer: Answer)
    ensures
        window.settle_start().0.same_role_as(window),
        window.settle_next(settling, answer).0.same_role_as(window),
{
}

/// A step changes at most the window whose turn it is, and not its role.
#[verifier::rlimit(30)]
pub(crate) proof fn lemma_step_changes_one_window(slide: SlideModel, input: Input)
    requires
        slide.wf(),
        slide.accepts(input.clock, input.answer),
    ensures
        match slide.turn() {
            Some(index) => {
                &&& 0 <= index < slide.windows.len()
                &&& slide.given(input).0.windows.len() == slide.windows.len()
                &&& slide.given(input).0.windows[index].same_role_as(slide.windows[index])
                &&& slide.given(input).0.windows == slide.windows.update(
                    index,
                    slide.given(input).0.windows[index],
                )
            },
            None => slide.given(input).0.windows == slide.windows,
        },
{
    let after = slide.given(input).0;
    match slide.phase {
        Phase::Rect { index, read } => {
            lemma_settle_keeps_role(slide.windows[index as int], Settling::Settled, input.answer);
            assert(after.windows =~= slide.windows.update(
                index as int,
                after.windows[index as int],
            ));
        },
        Phase::Outer { index, .. } => {
            assert(after.windows =~= slide.windows.update(
                index as int,
                after.windows[index as int],
            ));
        },
        Phase::Create { index } => {
            lemma_settle_keeps_role(slide.windows[index as int], Settling::Settled, input.answer);
            assert(after.windows =~= slide.windows.update(
                index as int,
                after.windows[index as int],
            ));
        },
        Phase::Unready { index, settling } => {
            lemma_settle_keeps_role(slide.windows[index as int], settling, input.answer);
            assert(after.windows =~= slide.windows.update(
                index as int,
                after.windows[index as int],
            ));
        },
        Phase::Clear { index } => {
            if index < slide.windows.len() {
                lemma_settle_keeps_role(
                    slide.windows[index as int],
                    Settling::Settled,
                    input.answer,
                );
                assert(after.windows =~= slide.windows.update(
                    index as int,
                    after.windows[index as int],
                ));
            }
        },
        Phase::Clearing { index, settling } => {
            lemma_settle_keeps_role(slide.windows[index as int], settling, input.answer);
            assert(after.windows =~= slide.windows.update(
                index as int,
                after.windows[index as int],
            ));
        },
        _ => {},
    }
}

/// A step changes neither the windows of a slide nor their roles.
proof fn lemma_step_keeps_roles(slide: SlideModel, input: Input)
    requires
        slide.wf(),
        slide.accepts(input.clock, input.answer),
    ensures
        slide.given(input).0.same_windows_as(slide),
        slide.given(input).0.slide_id == slide.slide_id,
        hwnds_of(slide.given(input).0.windows) == hwnds_of(slide.windows),
{
    lemma_step_changes_one_window(slide, input);
    let after = slide.given(input).0;
    assert forall|i: int| 0 <= i < after.windows.len() implies (
    #[trigger] after.windows[i]).same_role_as(slide.windows[i]) by {}
    assert(hwnds_of(after.windows) =~= hwnds_of(slide.windows));
}

/// However its questions are answered, a slide keeps its invariant, its windows and their roles.
pub proof fn law_slide_keeps_invariant(slide: SlideModel, inputs: Seq<Input>)
    requires
        slide.wf(),
        slide.windows.len() <= usize::MAX,
        slide.takes(inputs),
    ensures
        slide.after(inputs).wf(),
        slide.after(inputs).same_windows_as(slide),
        slide.after(inputs).slide_id == slide.slide_id,
        hwnds_of(slide.after(inputs).windows) == hwnds_of(slide.windows),
    decreases inputs.len(),
{
    if inputs.len() > 0 {
        let input = inputs.last();
        let before = slide.after(inputs.drop_last());
        law_slide_keeps_invariant(slide, inputs.drop_last());
        law_step_keeps_invariant(
            before,
            input.settle_requests,
            input.driven,
            input.clock,
            input.answer,
        );
        lemma_step_keeps_roles(before, input);
    }
}

// ---------------------------------------------------------------------------------------------
// Finishing
// ---------------------------------------------------------------------------------------------

/// The window that a call acts on.
pub open spec fn touches(call: SlideCall) -> Option<isize> {
    match call {
        SlideCall::SetCloak { hwnd, .. } => Some(hwnd),
        SlideCall::Restore { hwnd } => Some(hwnd),
        SlideCall::Hide { hwnd } => Some(hwnd),
        SlideCall::MoveExact { hwnd, .. } => Some(hwnd),
        SlideCall::Position { hwnd, .. } => Some(hwnd),
        SlideCall::Focus { hwnd } => Some(hwnd),
        _ => None,
    }
}

/// The call hides the borders, or brings them back.
pub open spec fn is_about_borders(call: SlideCall) -> bool {
    call is SuppressBorders || call is RestoreBorders
}

/// No call acts on a window outside of `owned`.
pub open spec fn touches_only(calls: Seq<SlideCall>, owned: Set<isize>) -> bool {
    forall|k: int|
        0 <= k < calls.len() ==> (touches(#[trigger] calls[k]) matches Some(hwnd)
            ==> owned.contains(hwnd))
}

/// The slide has let go of the window; if it owned the window until then, an incoming one is
/// uncloaked and restored, and an outgoing one is hidden.
pub open spec fn put_back(window: TrackedWindow, owned: Set<isize>, calls: Seq<SlideCall>) -> bool {
    &&& window.ghost_window is None
    &&& !window.active
    &&& owned.contains(window.hwnd) ==> if window.incoming {
        !window.cloaked && calls.contains(SlideCall::Restore { hwnd: window.hwnd })
    } else {
        calls.contains(SlideCall::Hide { hwnd: window.hwnd })
    }
}

impl SlideModel {
    /// Finishing is under way, or over.
    pub open spec fn is_finishing(self) -> bool {
        match self.phase {
            Phase::Suppress => false,
            Phase::Look { .. } => false,
            Phase::Rect { .. } => false,
            Phase::Outer { .. } => false,
            Phase::Create { .. } => false,
            Phase::Unready { .. } => false,
            Phase::Opened => false,
            _ => true,
        }
    }

    /// How many windows finishing has put back.
    pub open spec fn put_back_count(self) -> int {
        match self.phase {
            Phase::Begin => 0,
            Phase::Cover { .. } => 0,
            Phase::Overlay { .. } => 0,
            Phase::Clear { index } => index as int,
            Phase::Clearing { index, .. } => index as int,
            _ => self.windows.len() as int,
        }
    }

    /// The slide has let go of its windows and brought the borders back.
    pub open spec fn is_past_release(self) -> bool {
        match self.phase {
            Phase::Cursor => true,
            Phase::FadeStart => true,
            Phase::Fading { .. } => true,
            Phase::BusyWorkspace => true,
            Phase::BusyMovement => true,
            Phase::Foreground => true,
            Phase::Idle => true,
            _ => false,
        }
    }

    /// How many of the steps take the slide out of the count of running slides.
    pub open spec fn departures(self, inputs: Seq<Input>) -> nat
        decreases inputs.len(),
    {
        if inputs.len() == 0 {
            0
        } else {
            self.departures(inputs.drop_last()) + if self.after(inputs.drop_last()).phase
                is Release {
                1nat
            } else {
                0nat
            }
        }
    }

    /// The windows of this slide that it owns, as `driven` says.
    pub open spec fn owns(self, driven: Map<isize, usize>) -> Set<isize> {
        Set::new(
            |hwnd: isize|
                hwnds_of(self.windows).contains(hwnd) && drives(driven, hwnd, self.slide_id),
        )
    }

    /// What holds at every point of finishing, with the calls made up to there.
    spec fn finishes_well(self, calls: Seq<SlideCall>) -> bool {
        &&& self.is_finishing()
        &&& forall|i: int|
            0 <= i < self.put_back_count() && i < self.windows.len() ==> put_back(
                #[trigger] self.windows[i],
                self.owned,
                calls,
            )
        &&& self.phase matches Phase::Clearing { index, settling } ==> {
            &&& self.owned.contains(self.windows[index as int].hwnd)
            &&& settling is Conceal ==> calls.contains(
                SlideCall::Hide { hwnd: self.windows[index as int].hwnd },
            )
        }
        &&& self.phase is Begin ==> calls.len() == 0
        &&& !(self.phase is Begin) ==> touches_only(calls, self.owned)
        &&& self.is_past_release() ==> !self.borders_suppressed
    }
}

/// What has been called stays called.
proof fn lemma_contains_extends(calls: Seq<SlideCall>, more: Seq<SlideCall>, call: SlideCall)
    ensures
        calls.contains(call) ==> (calls + more).contains(call),
        more.contains(call) ==> (calls + more).contains(call),
{
    if calls.contains(call) {
        let k = choose|k: int| 0 <= k < calls.len() && calls[k] == call;
        assert((calls + more)[k] == call);
    }
    if more.contains(call) {
        let k = choose|k: int| 0 <= k < more.len() && more[k] == call;
        assert((calls + more)[calls.len() + k] == call);
    }
}

/// The calls that reveal a window act on it alone, and restore it.
proof fn lemma_reveal_calls(window: TrackedWindow, calls: Seq<SlideCall>)
    requires
        calls == window.revealed_calls(),
    ensures
        forall|k: int|
            0 <= k < calls.len() ==> !is_about_borders(#[trigger] calls[k]) && (touches(
                calls[k],
            ) matches Some(hwnd) ==> hwnd == window.hwnd),
        calls.contains(SlideCall::Restore { hwnd: window.hwnd }),
{
    let reveal = reveal_calls(window, window.ghost_window);
    assert(reveal.last() == (SlideCall::Restore { hwnd: window.hwnd }));
    assert(reveal.contains(SlideCall::Restore { hwnd: window.hwnd }));
    lemma_contains_extends(
        reveal,
        drop_calls(window.ghost_window),
        SlideCall::Restore { hwnd: window.hwnd },
    );
}

/// The calls that put a window back act on it alone; once it is settled, it is put back.
proof fn lemma_settle_calls(window: TrackedWindow, settling: Settling, answer: Answer)
    requires
        window.settling_wf(settling),
        answers(window.settling_asks(settling), answer),
        !(settling is Settled),
    ensures
        ({
            let (after, stage, calls) = window.settle_next(settling, answer);
            &&& forall|k: int|
                0 <= k < calls.len() ==> !is_about_borders(#[trigger] calls[k]) && (touches(
                    calls[k],
                ) matches Some(hwnd) ==> hwnd == window.hwnd)
            &&& stage is Settled ==> after.ghost_window is None && !after.active
            &&& stage is Settled && window.incoming ==> !after.cloaked && calls.contains(
                SlideCall::Restore { hwnd: window.hwnd },
            )
            &&& stage is Conceal ==> settling is Conceal
            &&& stage is Settled && !window.incoming ==> settling is Conceal
        }),
{
    let (after, stage, calls) = window.settle_next(settling, answer);
    if let Settling::Place { placing } = settling {
        let (next, moved) = window.place_next(placing, answer);
        if next is Placed {
            let rest = window.revealed_calls();
            lemma_reveal_calls(window, rest);
            assert(calls == moved + rest);
            lemma_contains_extends(moved, rest, SlideCall::Restore { hwnd: window.hwnd });
            assert forall|k: int| 0 <= k < calls.len() implies !is_about_borders(
                #[trigger] calls[k],
            ) && (touches(calls[k]) matches Some(hwnd) ==> hwnd == window.hwnd) by {
                if k >= moved.len() {
                    assert(calls[k] == rest[k - moved.len()]);
                }
            }
        }
    }
}

/// Putting a window back begins well.
proof fn lemma_settle_start_calls(window: TrackedWindow)
    ensures
        ({
            let (after, stage, calls) = window.settle_start();
            &&& forall|k: int|
                0 <= k < calls.len() ==> !is_about_borders(#[trigger] calls[k]) && (touches(
                    calls[k],
                ) matches Some(hwnd) ==> hwnd == window.hwnd)
            &&& stage is Settled ==> {
                &&& window.incoming
                &&& after.ghost_window is None
                &&& !after.active
                &&& !after.cloaked
                &&& calls.contains(SlideCall::Restore { hwnd: window.hwnd })
            }
            &&& stage is Conceal ==> calls.contains(SlideCall::Hide { hwnd: window.hwnd })
        }),
{
    let (after, stage, calls) = window.settle_start();
    if stage is Settled {
        lemma_reveal_calls(window, calls);
    }
    if stage is Conceal {
        assert(calls[0] == (SlideCall::Hide { hwnd: window.hwnd }));
    }
}

/// One step of finishing keeps what holds at every point of it.
#[verifier::rlimit(60)]
proof fn lemma_finish_step(slide: SlideModel, input: Input, calls: Seq<SlideCall>)
    requires
        slide.wf(),
        slide.windows.len() <= usize::MAX,
        slide.accepts(input.clock, input.answer),
        slide.finishes_well(calls),
    ensures
        slide.given(input).0.finishes_well(calls + slide.given(input).1),
        slide.given(input).0.owned == if slide.phase is Begin {
            slide.owns(input.driven)
        } else {
            slide.owned
        },
        !(slide.given(input).0.phase is Begin),
{
    let (after, more) = slide.given(input);
    let all = calls + more;
    lemma_step_changes_one_window(slide, input);
    assert(touches_only(more, after.owned)) by {
        match slide.phase {
            Phase::Clear { index } => {
                if index < slide.windows.len() {
                    lemma_settle_start_calls(slide.windows[index as int]);
                }
            },
            Phase::Clearing { index, settling } => {
                lemma_settle_calls(slide.windows[index as int], settling, input.answer);
            },
            _ => {},
        }
    }
    assert(touches_only(all, after.owned)) by {
        assert forall|k: int| 0 <= k < all.len() implies (touches(#[trigger] all[k]) matches Some(
            hwnd,
        ) ==> after.owned.contains(hwnd)) by {
            if k < calls.len() {
                assert(all[k] == calls[k]);
            } else {
                assert(all[k] == more[k - calls.len()]);
            }
        }
    }
    assert forall|i: int|
        0 <= i < after.put_back_count() && i < after.windows.len() implies put_back(
        #[trigger] after.windows[i],
        after.owned,
        all,
    ) by {
        let window = slide.windows[i];
        lemma_contains_extends(calls, more, SlideCall::Restore { hwnd: window.hwnd });
        lemma_contains_extends(calls, more, SlideCall::Hide { hwnd: window.hwnd });
        if slide.turn() == Some(i) {
            match slide.phase {
                Phase::Clear { index } => {
                    lemma_settle_start_calls(window);
                },
                Phase::Clearing { index, settling } => {
                    lemma_settle_calls(window, settling, input.answer);
                },
                _ => {},
            }
        } else {
            assert(after.windows[i] == window);
            assert(i < slide.put_back_count());
        }
    }
    if let Phase::Clearing { index, settling } = after.phase {
        let window = slide.windows[index as int];
        lemma_contains_extends(calls, more, SlideCall::Hide { hwnd: window.hwnd });
        lemma_settle_start_calls(window);
    }
}

/// Finishing goes well up to any point of it.
proof fn lemma_finish_course(slide: SlideModel, inputs: Seq<Input>)
    requires
        slide.wf(),
        slide.windows.len() <= usize::MAX,
        slide.phase is Begin,
        slide.takes(inputs),
    ensures
        slide.after(inputs).wf(),
        slide.after(inputs).windows.len() == slide.windows.len(),
        slide.after(inputs).finishes_well(slide.calls_of(inputs)),
        slide.after(inputs).phase is Begin <==> inputs.len() == 0,
        inputs.len() > 0 ==> slide.after(inputs).owned == slide.owns(inputs[0].driven),
        slide.departures(inputs) == if slide.after(inputs).is_past_release() {
            1nat
        } else {
            0nat
        },
    decreases inputs.len(),
{
    law_slide_keeps_invariant(slide, inputs);
    if inputs.len() > 0 {
        let shorter = inputs.drop_last();
        let before = slide.after(shorter);
        law_slide_keeps_invariant(slide, shorter);
        lemma_finish_course(slide, shorter);
        lemma_finish_step(before, inputs.last(), slide.calls_of(shorter));
        if shorter.len() > 0 {
            assert(shorter[0] == inputs[0]);
        }
        lemma_release_comes_once(before, inputs.last());
    }
}

/// What a finishing slide owns is settled in its first step.
pub(crate) proof fn lemma_finish_owns(slide: SlideModel, inputs: Seq<Input>)
    requires
        slide.wf(),
        slide.windows.len() <= usize::MAX,
        slide.phase is Begin,
        slide.takes(inputs),
    ensures
        slide.after(inputs).wf(),
        slide.after(inputs).is_finishing(),
        slide.after(inputs).phase is Begin <==> inputs.len() == 0,
        inputs.len() > 0 ==> slide.after(inputs).owned == slide.owns(inputs[0].driven),
{
    lemma_finish_course(slide, inputs);
}

/// The shared state is updated on the way to the last phases, and never again.
proof fn lemma_release_comes_once(slide: SlideModel, input: Input)
    requires
        slide.wf(),
        slide.is_finishing(),
        slide.accepts(input.clock, input.answer),
    ensures
        slide.given(input).0.is_past_release() == (slide.phase is Release
            || slide.is_past_release()),
{
}

impl SlideModel {
    /// The answer at `k` is that to window `index` being put back, at this stage.
    pub open spec fn told_at(
        self,
        inputs: Seq<Input>,
        k: int,
        index: int,
        settling: Settling,
        answer: Answer,
    ) -> bool {
        &&& inputs[k].answer == answer
        &&& match self.after(inputs.take(k)).phase {
            Phase::Unready { index: at, settling: stage } => at == index && stage == settling,
            Phase::Clearing { index: at, settling: stage } => at == index && stage == settling,
            _ => false,
        }
    }

    /// Window `index` was being put back, at this stage, and this was the answer.
    pub open spec fn told(
        self,
        inputs: Seq<Input>,
        index: int,
        settling: Settling,
        answer: Answer,
    ) -> bool {
        exists|k: int|
            0 <= k < inputs.len() && #[trigger] self.told_at(inputs, k, index, settling, answer)
    }

    /// The window ends where it belongs, and as it should. A floating incoming window is on the
    /// outer rect that was captured, if any: it was found there, or it was moved there. A tiled one
    /// is on its target in the same way, unless it is maximized or the target is empty. An outgoing
    /// one is left cloaked only where hiding is cloaking.
    pub open spec fn ends_right(self, inputs: Seq<Input>, index: int) -> bool {
        let window = self.after(inputs).windows[index];
        let calls = self.calls_of(inputs);
        if !window.incoming {
            window.cloaked ==> self.told(inputs, index, Settling::Conceal, Answer::Flag(true))
        } else if window.floating {
            ||| window.outer is None
            ||| calls.contains(SlideCall::MoveExact { hwnd: window.hwnd, rect: window.outer->0 })
            ||| self.told(
                inputs,
                index,
                Settling::Place { placing: Placing::Outer },
                Answer::Area(window.outer),
            )
        } else {
            ||| window.target.right <= 0
            ||| window.target.bottom <= 0
            ||| self.told(
                inputs,
                index,
                Settling::Place { placing: Placing::Maximized },
                Answer::Flag(true),
            )
            ||| calls.contains(SlideCall::Position { hwnd: window.hwnd, rect: window.target })
            ||| self.told(
                inputs,
                index,
                Settling::Place { placing: Placing::Rect },
                Answer::Area(Some(window.target)),
            )
        }
    }
}

/// What was told stays told.
proof fn lemma_told_extends(
    slide: SlideModel,
    inputs: Seq<Input>,
    index: int,
    settling: Settling,
    answer: Answer,
)
    requires
        inputs.len() > 0,
        slide.told(inputs.drop_last(), index, settling, answer),
    ensures
        slide.told(inputs, index, settling, answer),
{
    let shorter = inputs.drop_last();
    let k = choose|k: int|
        0 <= k < shorter.len() && #[trigger] slide.told_at(shorter, k, index, settling, answer);
    assert(inputs.take(k) =~= shorter.take(k));
    assert(slide.told_at(inputs, k, index, settling, answer));
}

/// A window that ends right and is left alone still ends right.
proof fn lemma_ends_right_extends(slide: SlideModel, inputs: Seq<Input>, index: int)
    requires
        inputs.len() > 0,
        slide.ends_right(inputs.drop_last(), index),
        slide.after(inputs).windows[index] == slide.after(inputs.drop_last()).windows[index],
    ensures
        slide.ends_right(inputs, index),
{
    let shorter = inputs.drop_last();
    let window = slide.after(inputs).windows[index];
    let (calls, more) = (
        slide.calls_of(shorter),
        slide.after(shorter).given(inputs.last()).1,
    );
    let exact = SlideCall::MoveExact { hwnd: window.hwnd, rect: window.outer->0 };
    let position = SlideCall::Position { hwnd: window.hwnd, rect: window.target };
    lemma_contains_extends(calls, more, exact);
    lemma_contains_extends(calls, more, position);
    let stages = seq![
        (Settling::Conceal, Answer::Flag(true)),
        (Settling::Place { placing: Placing::Outer }, Answer::Area(window.outer)),
        (Settling::Place { placing: Placing::Maximized }, Answer::Flag(true)),
        (Settling::Place { placing: Placing::Rect }, Answer::Area(Some(window.target))),
    ];
    assert forall|j: int|
        0 <= j < stages.len() && slide.told(
            shorter,
            index,
            (#[trigger] stages[j]).0,
            stages[j].1,
        ) implies slide.told(inputs, index, stages[j].0, stages[j].1) by {
        lemma_told_extends(slide, inputs, index, stages[j].0, stages[j].1);
    }
    assert(stages[0] == (Settling::Conceal, Answer::Flag(true)));
    assert(stages[1] == (
        Settling::Place { placing: Placing::Outer },
        Answer::Area(window.outer),
    ));
    assert(stages[2] == (Settling::Place { placing: Placing::Maximized }, Answer::Flag(true)));
    assert(stages[3] == (
        Settling::Place { placing: Placing::Rect },
        Answer::Area(Some(window.target)),
    ));
}

/// A window that has just been settled ends right.
proof fn lemma_settled_window_ends_right(slide: SlideModel, inputs: Seq<Input>, index: usize)
    requires
        inputs.len() > 0,
        ({
            let before = slide.after(inputs.drop_last());
            let answer = inputs.last().answer;
            &&& before.wf()
            &&& before.accepts(inputs.last().clock, answer)
            &&& index < before.windows.len()
            &&& match before.phase {
                Phase::Unready { index: at, settling } => at == index && before.windows[at as int]
                    .settle_next(settling, answer).1 is Settled,
                Phase::Clearing { index: at, settling } => at == index && before.windows[at as int]
                    .settle_next(settling, answer).1 is Settled,
                _ => false,
            }
        }),
    ensures
        slide.ends_right(inputs, index as int),
{
    let shorter = inputs.drop_last();
    let before = slide.after(shorter);
    let answer = inputs.last().answer;
    let window = before.windows[index as int];
    let last: int = inputs.len() - 1;
    assert(inputs.take(last) =~= shorter);
    assert(inputs[last] == inputs.last());
    let settling = match before.phase {
        Phase::Unready { settling, .. } => settling,
        Phase::Clearing { settling, .. } => settling,
        _ => Settling::Settled,
    };
    assert(slide.told_at(inputs, last, index as int, settling, answer));
    assert(slide.told(inputs, index as int, settling, answer));
    let (calls, more) = (slide.calls_of(shorter), before.given(inputs.last()).1);
    let (after, _, made) = window.settle_next(settling, answer);
    assert(slide.after(inputs).windows[index as int] == after);
    assert(more == made);
    lemma_settling_ends_right(window, settling, answer);
    let exact = SlideCall::MoveExact { hwnd: window.hwnd, rect: window.outer->0 };
    let position = SlideCall::Position { hwnd: window.hwnd, rect: window.target };
    lemma_contains_extends(calls, more, exact);
    lemma_contains_extends(calls, more, position);
    assert(slide.calls_of(inputs) == calls + more);
}

/// The last step of putting a window back: what it was told, or what it calls, puts the window in
/// its place.
proof fn lemma_settling_ends_right(window: TrackedWindow, settling: Settling, answer: Answer)
    requires
        window.settling_wf(settling),
        answers(window.settling_asks(settling), answer),
        !(settling is Settled),
        window.settle_next(settling, answer).1 is Settled,
    ensures
        ({
            let (after, _, calls) = window.settle_next(settling, answer);
            &&& after.same_role_as(window)
            &&& after.target == window.target
            &&& !window.incoming ==> settling is Conceal && (after.cloaked ==> answer
                == Answer::Flag(true))
            &&& window.incoming && window.floating ==> {
                &&& settling == (Settling::Place { placing: Placing::Outer })
                &&& answer == Answer::Area(window.outer) || calls.contains(
                    SlideCall::MoveExact { hwnd: window.hwnd, rect: window.outer->0 },
                )
            }
            &&& window.incoming && !window.floating ==> {
                ||| window.target.right <= 0
                ||| window.target.bottom <= 0
                ||| settling == (Settling::Place { placing: Placing::Maximized }) && answer
                    == Answer::Flag(true)
                ||| settling == (Settling::Place { placing: Placing::Rect }) && (answer
                    == Answer::Area(Some(window.target)) || calls.contains(
                    SlideCall::Position { hwnd: window.hwnd, rect: window.target },
                ))
            }
        }),
{
    if let Settling::Place { placing } = settling {
        let moved = window.place_next(placing, answer).1;
        let rest = window.revealed_calls();
        if moved.len() > 0 {
            assert(moved.contains(moved[0]));
            lemma_contains_extends(moved, rest, moved[0]);
        }
    }
}

/// A window that is put back in one step, without a question, ends right: it is a floating one that
/// was never captured.
proof fn lemma_settled_at_once_ends_right(slide: SlideModel, inputs: Seq<Input>, index: int)
    requires
        inputs.len() > 0,
        ({
            let window = slide.after(inputs.drop_last()).windows[index];
            &&& window.settle_start().1 is Settled
            &&& slide.after(inputs).windows[index] == window.settle_start().0
        }),
    ensures
        slide.ends_right(inputs, index),
{
}

/// Up to any point of finishing, every owned window that has been put back ends right.
#[verifier::rlimit(40)]
proof fn lemma_finish_ends_right(slide: SlideModel, inputs: Seq<Input>)
    requires
        slide.wf(),
        slide.windows.len() <= usize::MAX,
        slide.phase is Begin,
        slide.takes(inputs),
    ensures
        ({
            let after = slide.after(inputs);
            forall|i: int|
                0 <= i < after.put_back_count() && i < after.windows.len() && after.owned.contains(
                    (#[trigger] after.windows[i]).hwnd,
                ) ==> slide.ends_right(inputs, i)
        }),
    decreases inputs.len(),
{
    if inputs.len() > 0 {
        let shorter = inputs.drop_last();
        let input = inputs.last();
        let before = slide.after(shorter);
        let after = slide.after(inputs);
        lemma_finish_ends_right(slide, shorter);
        lemma_finish_course(slide, shorter);
        lemma_finish_step(before, input, slide.calls_of(shorter));
        lemma_step_changes_one_window(before, input);
        assert forall|i: int|
            0 <= i < after.put_back_count() && i < after.windows.len() && after.owned.contains(
                (#[trigger] after.windows[i]).hwnd,
            ) implies slide.ends_right(inputs, i) by {
            if before.turn() == Some(i) {
                match before.phase {
                    Phase::Clear { .. } => {
                        lemma_settled_at_once_ends_right(slide, inputs, i);
                    },
                    Phase::Clearing { index, .. } => {
                        lemma_settled_window_ends_right(slide, inputs, index);
                    },
                    _ => {},
                }
            } else {
                assert(after.windows[i] == before.windows[i]);
                lemma_ends_right_extends(slide, inputs, i);
            }
        }
    }
}

/// When a slide has finished, however its questions were answered, no window has a ghost any more.
/// Every incoming window that the slide still owned is in its place, uncloaked and restored; every
/// outgoing one is hidden, and cloaked only where hiding is cloaking. No call acted on a window that
/// a newer slide had taken over. No overlay is left, and the borders are back.
pub proof fn law_finish_puts_every_window_back(slide: SlideModel, inputs: Seq<Input>)
    requires
        slide.wf(),
        slide.windows.len() <= usize::MAX,
        slide.phase is Begin,
        slide.takes(inputs),
        slide.after(inputs).phase is Idle,
    ensures
        ({
            let after = slide.after(inputs);
            let owned = slide.owns(inputs[0].driven);
            let calls = slide.calls_of(inputs);
            &&& after.same_windows_as(slide)
            &&& forall|i: int|
                0 <= i < after.windows.len() ==> put_back(
                    #[trigger] after.windows[i],
                    owned,
                    calls,
                )
            &&& forall|i: int|
                0 <= i < after.windows.len() && owned.contains((#[trigger] after.windows[i]).hwnd)
                    ==> slide.ends_right(inputs, i)
            &&& touches_only(calls, owned)
            &&& after.overlays.len() == 0
            &&& !after.borders_suppressed
        }),
{
    lemma_finish_course(slide, inputs);
    lemma_finish_ends_right(slide, inputs);
    law_slide_keeps_invariant(slide, inputs);
}

/// A slide that finishes leaves the count of running slides exactly once, and no other step of any
/// slide changes the count.
pub proof fn law_slide_leaves_the_count_once(
    slide: SlideModel,
    inputs: Seq<Input>,
    state: SlideStateModel,
    clock: Clock,
)
    requires
        slide.wf(),
        slide.windows.len() <= usize::MAX,
    ensures
        slide.phase is Begin && slide.takes(inputs) && slide.after(inputs).phase is Idle
            ==> slide.departures(inputs) == 1,
        slide.phase is Release && state.active > 0 ==> slide.next_state(state, clock).active
            == state.active - 1,
        !(slide.phase is Release) ==> slide.next_state(state, clock).active == state.active,
{
    if slide.phase is Begin && slide.takes(inputs) && slide.after(inputs).phase is Idle {
        lemma_finish_course(slide, inputs);
    }
}

/// Only the step that lets the windows go brings the borders back, and it does so if they were
/// hidden; no step hides them.
proof fn lemma_step_and_borders(slide: SlideModel, input: Input)
    requires
        slide.wf(),
        slide.accepts(input.clock, input.answer),
    ensures
        ({
            let (after, calls) = slide.given(input);
            &&& !calls.contains(SlideCall::SuppressBorders)
            &&& calls.contains(SlideCall::RestoreBorders) <==> slide.phase is Release
                && slide.borders_suppressed
            &&& after.borders_suppressed == (slide.borders_suppressed && !(slide.phase is Release))
        }),
{
    let (after, calls) = slide.given(input);
    match slide.phase {
        Phase::Rect { index, .. } => {
            lemma_settle_start_calls(slide.windows[index as int]);
        },
        Phase::Create { index } => {
            lemma_settle_start_calls(slide.windows[index as int]);
        },
        Phase::Clear { index } => {
            if index < slide.windows.len() {
                lemma_settle_start_calls(slide.windows[index as int]);
            }
        },
        Phase::Unready { index, settling } => {
            lemma_settle_calls(slide.windows[index as int], settling, input.answer);
        },
        Phase::Clearing { index, settling } => {
            lemma_settle_calls(slide.windows[index as int], settling, input.answer);
        },
        Phase::Release => {
            if slide.borders_suppressed {
                assert(calls[0] == SlideCall::RestoreBorders);
            }
        },
        _ => {},
    }
    assert(forall|k: int| 0 <= k < calls.len() ==> #[trigger] calls[k]
        != SlideCall::SuppressBorders);
    assert(!(slide.phase is Release) ==> forall|k: int|
        0 <= k < calls.len() ==> #[trigger] calls[k] != SlideCall::RestoreBorders);
}

/// The borders that a slide hides when it is prepared come back once: as long as they are hidden
/// they have not come back, they come back exactly when they are no longer hidden, and where they
/// are not hidden they do not come back again. No step hides them a second time.
pub proof fn law_borders_come_back_once(slide: SlideModel, inputs: Seq<Input>)
    requires
        slide.wf(),
        slide.windows.len() <= usize::MAX,
        slide.takes(inputs),
    ensures
        slide.calls_of(inputs).contains(SlideCall::RestoreBorders) <==> slide.borders_suppressed
            && !slide.after(inputs).borders_suppressed,
        !slide.borders_suppressed ==> !slide.after(inputs).borders_suppressed,
        !slide.calls_of(inputs).contains(SlideCall::SuppressBorders),
    decreases inputs.len(),
{
    if inputs.len() > 0 {
        let shorter = inputs.drop_last();
        let before = slide.after(shorter);
        law_borders_come_back_once(slide, shorter);
        law_slide_keeps_invariant(slide, shorter);
        lemma_step_and_borders(before, inputs.last());
        let (calls, more) = (slide.calls_of(shorter), before.given(inputs.last()).1);
        assert forall|call: SlideCall| #[trigger]
            (calls + more).contains(call) <==> calls.contains(call) || more.contains(call) by {
            lemma_contains_extends(calls, more, call);
            if (calls + more).contains(call) {
                let k = choose|k: int| 0 <= k < (calls + more).len() && (calls + more)[k] == call;
                if k < calls.len() {
                    assert(calls[k] == call);
                } else {
                    assert(more[k - calls.len()] == call);
                }
            }
        }
        assert((calls + more).contains(SlideCall::RestoreBorders) <==> calls.contains(
            SlideCall::RestoreBorders,
        ) || more.contains(SlideCall::RestoreBorders));
        assert((calls + more).contains(SlideCall::SuppressBorders) <==> calls.contains(
            SlideCall::SuppressBorders,
        ) || more.contains(SlideCall::SuppressBorders));
    }
}

// ---------------------------------------------------------------------------------------------
// Preparing
// ---------------------------------------------------------------------------------------------

impl SlideModel {
    /// What holds at every point of preparing, with the calls made up to there.
    spec fn prepares_well(self, calls: Seq<SlideCall>) -> bool {
        &&& !self.is_finishing()
        &&& forall|i: int|
            0 <= i < self.opened() && i < self.windows.len() ==> (
            #[trigger] self.windows[i]).ghost_window is Some || put_back(
                self.windows[i],
                Set::full(),
                calls,
            )
        &&& self.phase matches Phase::Unready { index, settling } ==> settling is Conceal
            ==> calls.contains(SlideCall::Hide { hwnd: self.windows[index as int].hwnd })
    }
}

/// One step of preparing keeps what holds at every point of it.
#[verifier::rlimit(60)]
proof fn lemma_prepare_step(slide: SlideModel, input: Input, calls: Seq<SlideCall>)
    requires
        slide.wf(),
        slide.windows.len() <= usize::MAX,
        slide.accepts(input.clock, input.answer),
        slide.prepares_well(calls),
        !slide.given(input).0.is_finishing(),
    ensures
        slide.given(input).0.prepares_well(calls + slide.given(input).1),
{
    let (after, more) = slide.given(input);
    let all = calls + more;
    lemma_step_changes_one_window(slide, input);
    assert forall|i: int| 0 <= i < after.opened() && i < after.windows.len() implies (
    #[trigger] after.windows[i]).ghost_window is Some || put_back(
        after.windows[i],
        Set::full(),
        all,
    ) by {
        let window = slide.windows[i];
        lemma_contains_extends(calls, more, SlideCall::Restore { hwnd: window.hwnd });
        lemma_contains_extends(calls, more, SlideCall::Hide { hwnd: window.hwnd });
        if slide.turn() == Some(i) {
            match slide.phase {
                Phase::Rect { .. } => {
                    lemma_settle_start_calls(window);
                },
                Phase::Create { .. } => {
                    lemma_settle_start_calls(window);
                },
                Phase::Unready { settling, .. } => {
                    lemma_settle_calls(window, settling, input.answer);
                },
                _ => {},
            }
        } else {
            assert(after.windows[i] == window);
            assert(i < slide.opened());
        }
    }
    if let Phase::Unready { index, settling } = after.phase {
        let window = slide.windows[index as int];
        lemma_contains_extends(calls, more, SlideCall::Hide { hwnd: window.hwnd });
        lemma_settle_start_calls(window);
    }
}

/// Once a slide finishes, it does not go back to preparing.
pub(crate) proof fn lemma_preparing_comes_first(slide: SlideModel, input: Input)
    requires
        slide.accepts(input.clock, input.answer),
        slide.phase is Opened || slide.is_finishing(),
    ensures
        slide.given(input).0.is_finishing(),
{
}

/// Preparing goes well up to any point of it.
proof fn lemma_prepare_course(slide: SlideModel, inputs: Seq<Input>)
    requires
        slide.wf(),
        slide.windows.len() <= usize::MAX,
        slide.phase is Suppress,
        slide.takes(inputs),
        !slide.after(inputs).is_finishing(),
    ensures
        slide.after(inputs).prepares_well(slide.calls_of(inputs)),
    decreases inputs.len(),
{
    if inputs.len() > 0 {
        let shorter = inputs.drop_last();
        let before = slide.after(shorter);
        law_slide_keeps_invariant(slide, shorter);
        if before.is_finishing() {
            lemma_preparing_comes_first(before, inputs.last());
        }
        lemma_prepare_course(slide, shorter);
        lemma_prepare_step(before, inputs.last(), slide.calls_of(shorter));
    }
}

/// Up to any point of preparing, every window that has been put back ends right.
#[verifier::rlimit(40)]
proof fn lemma_prepare_ends_right(slide: SlideModel, inputs: Seq<Input>)
    requires
        slide.wf(),
        slide.windows.len() <= usize::MAX,
        slide.phase is Suppress,
        slide.takes(inputs),
        !slide.after(inputs).is_finishing(),
    ensures
        ({
            let after = slide.after(inputs);
            forall|i: int|
                0 <= i < after.opened() && i < after.windows.len() && (
                #[trigger] after.windows[i]).ghost_window is None ==> slide.ends_right(inputs, i)
        }),
    decreases inputs.len(),
{
    if inputs.len() > 0 {
        let shorter = inputs.drop_last();
        let input = inputs.last();
        let before = slide.after(shorter);
        let after = slide.after(inputs);
        law_slide_keeps_invariant(slide, shorter);
        if before.is_finishing() {
            lemma_preparing_comes_first(before, input);
        }
        lemma_prepare_ends_right(slide, shorter);
        lemma_step_changes_one_window(before, input);
        assert forall|i: int|
            0 <= i < after.opened() && i < after.windows.len() && (
            #[trigger] after.windows[i]).ghost_window is None implies slide.ends_right(
            inputs,
            i,
        ) by {
            if before.turn() == Some(i) {
                match before.phase {
                    Phase::Rect { .. } => {
                        lemma_settled_at_once_ends_right(slide, inputs, i);
                    },
                    Phase::Create { .. } => {
                        lemma_settled_at_once_ends_right(slide, inputs, i);
                    },
                    Phase::Unready { index, .. } => {
                        lemma_settled_window_ends_right(slide, inputs, index);
                    },
                    _ => {},
                }
            } else {
                assert(after.windows[i] == before.windows[i]);
                assert(i < before.opened());
                lemma_ends_right_extends(slide, inputs, i);
            }
        }
    }
}

/// When a slide is prepared, however its questions were answered, every window either has a ghost
/// and is cloaked, or has been put back: shown in its place if it is incoming, hidden if it is
/// outgoing.
pub proof fn law_prepared_windows_slide_or_are_put_back(slide: SlideModel, inputs: Seq<Input>)
    requires
        slide.wf(),
        slide.windows.len() <= usize::MAX,
        slide.phase is Suppress,
        slide.takes(inputs),
        slide.after(inputs).phase is Opened,
    ensures
        ({
            let after = slide.after(inputs);
            let calls = slide.calls_of(inputs);
            &&& after.same_windows_as(slide)
            &&& forall|i: int|
                0 <= i < after.windows.len() ==> {
                    let window = #[trigger] after.windows[i];
                    ||| window.ghost_window is Some && window.active && window.cloaked
                    ||| put_back(window, Set::full(), calls) && slide.ends_right(inputs, i)
                }
        }),
{
    let after = slide.after(inputs);
    law_slide_keeps_invariant(slide, inputs);
    lemma_prepare_course(slide, inputs);
    lemma_prepare_ends_right(slide, inputs);
    assert(after.opened() == after.windows.len());
}

// ---------------------------------------------------------------------------------------------
// Cancelling
// ---------------------------------------------------------------------------------------------

/// The call takes the focus or the cursor to a window.
pub open spec fn takes_focus(call: SlideCall) -> bool {
    call is Focus || call is CenterCursor
}

impl SlideModel {
    /// Finishing without a fade and without the focus is under way, or over.
    spec fn is_quiet(self) -> bool {
        &&& self.is_finishing()
        &&& !(self.phase is Begin) ==> !(self.phase is Cover) && !(self.phase is Overlay)
        &&& !(self.phase is Cursor)
        &&& !self.move_mouse
        &&& self.overlays.len() == 0
    }
}

/// The calls that put a window back take the focus nowhere.
pub(crate) proof fn lemma_settle_takes_no_focus(
    window: TrackedWindow,
    settling: Settling,
    answer: Answer,
)
    requires
        window.settling_wf(settling),
        answers(window.settling_asks(settling), answer),
    ensures
        forall|k: int|
            0 <= k < window.settle_start().2.len() ==> !takes_focus(
                #[trigger] window.settle_start().2[k],
            ),
        !(settling is Settled) ==> forall|k: int|
            0 <= k < window.settle_next(settling, answer).2.len() ==> !takes_focus(
                #[trigger] window.settle_next(settling, answer).2[k],
            ),
{
}

/// A cancelled slide puts its windows back without a fade, and without taking the focus or the
/// cursor anywhere.
pub proof fn law_cancelled_slide_takes_no_focus(slide: SlideModel, inputs: Seq<Input>)
    requires
        slide.wf(),
        slide.windows.len() <= usize::MAX,
        slide.phase is Begin,
        !slide.move_mouse,
        slide.takes(inputs),
    ensures
        !(slide.after(inputs).phase is Overlay),
        slide.after(inputs).overlays.len() == 0,
        forall|k: int|
            0 <= k < slide.calls_of(inputs).len() ==> !takes_focus(
                #[trigger] slide.calls_of(inputs)[k],
            ),
{
    lemma_quiet_course(slide, inputs);
}

proof fn lemma_quiet_course(slide: SlideModel, inputs: Seq<Input>)
    requires
        slide.wf(),
        slide.windows.len() <= usize::MAX,
        slide.phase is Begin,
        !slide.move_mouse,
        slide.takes(inputs),
    ensures
        slide.after(inputs).is_quiet(),
        forall|k: int|
            0 <= k < slide.calls_of(inputs).len() ==> !takes_focus(
                #[trigger] slide.calls_of(inputs)[k],
            ),
    decreases inputs.len(),
{
    if inputs.len() > 0 {
        let shorter = inputs.drop_last();
        let before = slide.after(shorter);
        let input = inputs.last();
        lemma_quiet_course(slide, shorter);
        law_slide_keeps_invariant(slide, shorter);
        lemma_quiet_step(before, input);
        let (calls, more) = (slide.calls_of(shorter), before.given(input).1);
        assert forall|k: int| 0 <= k < (calls + more).len() implies !takes_focus(
            #[trigger] (calls + more)[k],
        ) by {
            if k < calls.len() {
                assert((calls + more)[k] == calls[k]);
            } else {
                assert((calls + more)[k] == more[k - calls.len()]);
            }
        }
    }
}

proof fn lemma_quiet_step(slide: SlideModel, input: Input)
    requires
        slide.wf(),
        slide.accepts(input.clock, input.answer),
        slide.is_quiet(),
    ensures
        slide.given(input).0.is_quiet(),
        forall|k: int|
            0 <= k < slide.given(input).1.len() ==> !takes_focus(
                #[trigger] slide.given(input).1[k],
            ),
{
    match slide.phase {
        Phase::Clear { index } => {
            if index < slide.windows.len() {
                lemma_settle_takes_no_focus(
                    slide.windows[index as int],
                    Settling::Settled,
                    Answer::Nothing,
                );
            }
        },
        Phase::Clearing { index, settling } => {
            lemma_settle_takes_no_focus(slide.windows[index as int], settling, input.answer);
        },
        _ => {},
    }
}

// ---------------------------------------------------------------------------------------------
// Coming to an end
// ---------------------------------------------------------------------------------------------

/// How many questions a read may still ask.
pub open spec fn reads_left(read: RectRead) -> int {
    match read {
        RectRead::First { .. } => 2,
        RectRead::Second { .. } => 1,
        RectRead::Done { .. } => 0,
    }
}

/// How many questions putting a window back may still ask.
pub open spec fn settling_left(settling: Settling) -> int {
    match settling {
        Settling::Place { placing: Placing::Maximized } => 2,
        Settling::Settled => 0,
        _ => 1,
    }
}

impl SlideModel {
    /// How many steps a slide takes at most, those of the fade left out.
    pub open spec fn steps_left(self) -> int {
        let n: int = self.windows.len() as int;
        let managers: int = if self.ending is FinaliseAndRelease {
            3
        } else {
            0
        };
        let finish: int = 6 * n + 15;
        match self.phase {
            Phase::Idle => 0,
            Phase::Foreground => managers + 1,
            Phase::BusyMovement => managers + 2,
            Phase::BusyWorkspace => managers + 3,
            Phase::Fading { .. } => 7,
            Phase::FadeStart => 8,
            Phase::Cursor => 9,
            Phase::Release => 10,
            Phase::Clear { index } => 4 * (n - index) + 11,
            Phase::Clearing { index, settling } => 4 * (n - index) + 8 + settling_left(settling),
            Phase::Cover { index } => 2 * (n - index) + 4 * n + 12,
            Phase::Overlay { index } => 2 * (n - index) + 4 * n + 11,
            Phase::Begin => finish,
            Phase::Opened => finish + 1,
            Phase::Look { index } => 8 * (n - index) + finish + 2,
            Phase::Rect { index, read } => 8 * (n - index) + finish - 1 + reads_left(read),
            Phase::Outer { index, .. } => 8 * (n - index) + finish - 1,
            Phase::Create { index } => 8 * (n - index) + finish - 2,
            Phase::Unready { index, settling } => 8 * (n - index) + finish - 5 + settling_left(
                settling,
            ),
            Phase::Suppress => 8 * n + finish + 3,
        }
    }

    /// The slide fades and goes on fading.
    pub open spec fn fades_on(self, input: Input) -> bool {
        self.phase matches Phase::Fading { .. } && self.given(input).0 == self
    }

    /// How many of the steps belong to the fade.
    pub open spec fn fade_steps(self, inputs: Seq<Input>) -> nat
        decreases inputs.len(),
    {
        if inputs.len() == 0 {
            0
        } else {
            self.fade_steps(inputs.drop_last()) + if self.after(inputs.drop_last()).fades_on(
                inputs.last(),
            ) {
                1nat
            } else {
                0nat
            }
        }
    }
}

/// Putting a window back comes closer to its end with every answer.
proof fn lemma_settling_comes_closer(window: TrackedWindow, settling: Settling, answer: Answer)
    requires
        window.settling_wf(settling),
        answers(window.settling_asks(settling), answer),
    ensures
        0 <= settling_left(window.settle_start().1) <= 2,
        !(settling is Settled) ==> 0 <= settling_left(window.settle_next(settling, answer).1)
            < settling_left(settling),
        settling_left(settling) <= 2,
        window.settle_start().1 is Settled <==> settling_left(window.settle_start().1) == 0,
        settling is Settled <==> settling_left(settling) == 0,
{
}

/// Preparing comes closer to its end with every step.
proof fn lemma_preparing_comes_closer(slide: SlideModel, input: Input)
    requires
        slide.phase_wf(),
        slide.windows.len() <= usize::MAX,
        slide.accepts(input.clock, input.answer),
        !slide.is_finishing(),
    ensures
        0 <= slide.given(input).0.steps_left() < slide.steps_left(),
{
    let after = slide.given(input).0;
    match slide.phase {
        Phase::Rect { index, read } => {
            lemma_settling_comes_closer(
                slide.windows[index as int],
                Settling::Settled,
                Answer::Nothing,
            );
            assert(after.windows.len() == slide.windows.len());
            assert(0 <= after.steps_left() < slide.steps_left());
        },
        Phase::Outer { index, .. } => {
            assert(after.windows.len() == slide.windows.len());
            assert(0 <= after.steps_left() < slide.steps_left());
        },
        Phase::Create { index } => {
            lemma_settling_comes_closer(
                slide.windows[index as int],
                Settling::Settled,
                Answer::Nothing,
            );
            assert(after.windows.len() == slide.windows.len());
            assert(0 <= after.steps_left() < slide.steps_left());
        },
        Phase::Unready { index, settling } => {
            lemma_settling_comes_closer(slide.windows[index as int], settling, input.answer);
            assert(after.windows.len() == slide.windows.len());
            assert(0 <= after.steps_left() < slide.steps_left());
        },
        _ => {
            assert(after.windows.len() == slide.windows.len());
            assert(0 <= after.steps_left() < slide.steps_left());
        },
    }
}

/// Finishing comes closer to its end with every step that is not one of the fade.
proof fn lemma_finishing_comes_closer(slide: SlideModel, input: Input)
    requires
        slide.phase_wf(),
        slide.windows.len() <= usize::MAX,
        slide.accepts(input.clock, input.answer),
        slide.is_finishing(),
        !slide.fades_on(input),
    ensures
        0 <= slide.given(input).0.steps_left() < slide.steps_left(),
{
    let after = slide.given(input).0;
    match slide.phase {
        Phase::Clear { index } => {
            if index < slide.windows.len() {
                lemma_settling_comes_closer(
                    slide.windows[index as int],
                    Settling::Settled,
                    Answer::Nothing,
                );
            }
            assert(after.windows.len() == slide.windows.len());
            assert(0 <= after.steps_left() < slide.steps_left());
        },
        Phase::Clearing { index, settling } => {
            lemma_settling_comes_closer(slide.windows[index as int], settling, input.answer);
            assert(after.windows.len() == slide.windows.len());
            assert(0 <= after.steps_left() < slide.steps_left());
        },
        _ => {
            assert(after.windows.len() == slide.windows.len());
            assert(0 <= after.steps_left() < slide.steps_left());
        },
    }
}

/// However its questions are answered, a slide comes to an end: apart from the steps of the fade it
/// takes no more than `steps_left` says.
pub proof fn law_slide_ends(slide: SlideModel, inputs: Seq<Input>)
    requires
        slide.wf(),
        slide.windows.len() <= usize::MAX,
        slide.takes(inputs),
    ensures
        inputs.len() + slide.after(inputs).steps_left() <= slide.steps_left() + slide.fade_steps(
            inputs,
        ),
        slide.after(inputs).steps_left() >= 0,
    decreases inputs.len(),
{
    if inputs.len() > 0 {
        let shorter = inputs.drop_last();
        let before = slide.after(shorter);
        law_slide_ends(slide, shorter);
        law_slide_keeps_invariant(slide, shorter);
        if before.is_finishing() {
            if !before.fades_on(inputs.last()) {
                lemma_finishing_comes_closer(before, inputs.last());
            }
        } else {
            lemma_preparing_comes_closer(before, inputs.last());
        }
    }
}

/// A fade takes no longer than the fade time, which is no longer than half the slide, and is cut
/// short when another slide waits. Then every overlay is taken down, each by one command.
pub proof fn law_fade_ends(slide: SlideModel, started: u128, input: Input)
    requires
        slide.phase == (Phase::Fading { started }),
        input.clock.now - started >= fade_of(slide.duration) || input.settle_requests > 0,
    ensures
        2 * fade_of(slide.duration) <= slide.duration,
        fade_of(slide.duration) <= REVEAL_FADE,
        slide.given(input).0.phase is BusyWorkspace,
        slide.given(input).0.overlays.len() == 0,
        slide.given(input).1 == uncover_calls(slide.overlays),
{
}

} // verus!

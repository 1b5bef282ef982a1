//! Moving ghosts: one at a time, or every ghost of a frame in one batch.
use vstd::prelude::*;

use crate::geometry::Rect;
use crate::ghost::{
    clip_properties, crop_properties, source_fits, thumbnail_properties, whole_properties,
    GhostClip,
};
use crate::owner::{
    answers, step, OwnerAnswer, OwnerAsk, OwnerCall, OwnerStep, PosFlags, ZOrder, HIDE,
};

verus! {

/// A host that moves keeps its place in the stacking order and gets neither focus nor a redraw.
pub open spec fn moving_flags(show_window: bool) -> PosFlags {
    PosFlags { no_activate: true, no_z_order: true, no_redraw: true, show_window }
}

fn moving(show_window: bool) -> (r: PosFlags)
    ensures
        r == moving_flags(show_window),
{
    PosFlags { no_activate: true, no_z_order: true, no_redraw: true, show_window }
}

/// The source area of a shown clip ends inside the range of `i32`.
pub open spec fn clip_fits(clip: GhostClip) -> bool {
    clip.host is Some ==> source_fits(
        clip.source_x as int,
        clip.source_y as int,
        clip.source_width as int,
        clip.source_height as int,
    )
}

/// The question that moves the host of a clip onto `host` and shows it.
pub open spec fn clip_move(clip: GhostClip, host: Rect) -> OwnerAsk {
    OwnerAsk::SetPos {
        hwnd: clip.host_hwnd,
        z: ZOrder::Keep,
        rect: host,
        flags: moving_flags(true),
    }
}

/// The question that crops the thumbnail of a clip.
pub open spec fn clip_crop(clip: GhostClip, host: Rect) -> OwnerAsk {
    OwnerAsk::UpdateThumb {
        hthumb: clip.hthumb,
        props: crop_properties(
            host,
            clip.source_x as int,
            clip.source_y as int,
            clip.source_width as int,
            clip.source_height as int,
        ),
    }
}

fn ask_clip_move(clip: &GhostClip, host: Rect) -> (r: OwnerAsk)
    ensures
        r == clip_move(*clip, host),
{
    OwnerAsk::SetPos { hwnd: clip.host_hwnd, z: ZOrder::Keep, rect: host, flags: moving(true) }
}

fn ask_clip_crop(clip: &GhostClip, host: Rect) -> (r: OwnerAsk)
    requires
        source_fits(
            clip.source_x as int,
            clip.source_y as int,
            clip.source_width as int,
            clip.source_height as int,
        ),
    ensures
        r == clip_crop(*clip, host),
{
    let props = clip_properties(
        host,
        clip.source_x,
        clip.source_y,
        clip.source_width,
        clip.source_height,
    );
    OwnerAsk::UpdateThumb { hthumb: clip.hthumb, props }
}

// ---------------------------------------------------------------------------------------------
// One ghost, moved whole
// ---------------------------------------------------------------------------------------------

/// How far the move of one whole ghost has come.
#[derive(Debug, PartialEq, Eq)]
pub enum UpdateGhost<E> {
    Move { host_hwnd: isize, hthumb: isize, rect: Rect },
    Props { hthumb: isize, rect: Rect },
    Done { reply: Result<(), E> },
}

/// Start to move a ghost onto `rect`, thumbnail included.
pub fn update_ghost<E>(host_hwnd: isize, hthumb: isize, rect: Rect) -> (r: (
    UpdateGhost<E>,
    OwnerStep,
))
    ensures
        r.0 == (UpdateGhost::<E>::Move { host_hwnd, hthumb, rect }),
        r.1.calls@ == Seq::<OwnerCall>::empty(),
        r.1.ask == r.0.asked(),
{
    let ask = OwnerAsk::SetPos { hwnd: host_hwnd, z: ZOrder::Keep, rect, flags: moving(false) };
    (UpdateGhost::Move { host_hwnd, hthumb, rect }, step(Vec::new(), ask))
}

impl<E> UpdateGhost<E> {
    /// The question that the stage waits on.
    pub open spec fn asked(self) -> OwnerAsk {
        match self {
            UpdateGhost::Move { host_hwnd, rect, .. } => OwnerAsk::SetPos {
                hwnd: host_hwnd,
                z: ZOrder::Keep,
                rect,
                flags: moving_flags(false),
            },
            UpdateGhost::Props { hthumb, rect } => OwnerAsk::UpdateThumb {
                hthumb,
                props: whole_properties(rect.right, rect.bottom),
            },
            UpdateGhost::Done { .. } => OwnerAsk::Finished,
        }
    }

    /// The stage after `answer`. The thumbnail follows only a host that has moved.
    pub open spec fn next(self, answer: OwnerAnswer<E>) -> UpdateGhost<E> {
        match (self, answer) {
            (_, OwnerAnswer::Failed(error)) => UpdateGhost::Done { reply: Err(error) },
            (UpdateGhost::Move { hthumb, rect, .. }, _) => UpdateGhost::Props { hthumb, rect },
            (UpdateGhost::Props { .. }, _) => UpdateGhost::Done { reply: Ok(()) },
            (UpdateGhost::Done { .. }, _) => self,
        }
    }

    /// Go on with the answer to the question.
    pub fn resume(self, answer: OwnerAnswer<E>) -> (r: (UpdateGhost<E>, OwnerStep))
        requires
            answers(self.asked(), answer),
        ensures
            r.0 == self.next(answer),
            r.1.calls@ == Seq::<OwnerCall>::empty(),
            r.1.ask == r.0.asked(),
    {
        match (self, answer) {
            (_, OwnerAnswer::Failed(error)) => (
                UpdateGhost::Done { reply: Err(error) },
                step(Vec::new(), OwnerAsk::Finished),
            ),
            (UpdateGhost::Move { hthumb, rect, .. }, _) => {
                let props = thumbnail_properties(rect.right, rect.bottom);
                (
                    UpdateGhost::Props { hthumb, rect },
                    step(Vec::new(), OwnerAsk::UpdateThumb { hthumb, props }),
                )
            },
            (UpdateGhost::Props { .. }, _) => (
                UpdateGhost::Done { reply: Ok(()) },
                step(Vec::new(), OwnerAsk::Finished),
            ),
            (task, _) => (task, step(Vec::new(), OwnerAsk::Finished)),
        }
    }
}

// ---------------------------------------------------------------------------------------------
// One ghost, clipped
// ---------------------------------------------------------------------------------------------

/// How far the update of one clipped ghost has come.
#[derive(Debug, PartialEq, Eq)]
pub enum UpdateClip<E> {
    Move { clip: GhostClip, host: Rect },
    Props { clip: GhostClip, host: Rect },
    Done { reply: Result<(), E> },
}

/// The first stage: a clip that shows nothing is done at once.
pub open spec fn update_clip_start<E>(clip: GhostClip) -> UpdateClip<E> {
    match clip.host {
        None => UpdateClip::Done { reply: Ok(()) },
        Some(host) => UpdateClip::Move { clip, host },
    }
}

/// The calls of the first stage: a clip that shows nothing hides its ghost.
pub open spec fn update_clip_start_calls(clip: GhostClip) -> Seq<OwnerCall> {
    if clip.host is None {
        seq![OwnerCall::Show { hwnd: clip.host_hwnd, command: HIDE }]
    } else {
        seq![]
    }
}

/// Start to show only the portion of the source that lies on the clip's host.
pub fn update_ghost_clip<E>(clip: GhostClip) -> (r: (UpdateClip<E>, OwnerStep))
    requires
        clip_fits(clip),
    ensures
        r.0 == update_clip_start::<E>(clip),
        r.0.wf(),
        r.1.calls@ == update_clip_start_calls(clip),
        r.1.ask == r.0.asked(),
{
    match clip.host {
        None => (
            UpdateClip::Done { reply: Ok(()) },
            step(
                vec![OwnerCall::Show { hwnd: clip.host_hwnd, command: HIDE }],
                OwnerAsk::Finished,
            ),
        ),
        Some(host) => (
            UpdateClip::Move { clip, host },
            step(Vec::new(), ask_clip_move(&clip, host)),
        ),
    }
}

impl<E> UpdateClip<E> {
    pub open spec fn wf(self) -> bool {
        match self {
            UpdateClip::Move { clip, host } => clip.host == Some(host) && clip_fits(clip),
            UpdateClip::Props { clip, host } => clip.host == Some(host) && clip_fits(clip),
            UpdateClip::Done { .. } => true,
        }
    }

    /// The question that the stage waits on.
    pub open spec fn asked(self) -> OwnerAsk {
        match self {
            UpdateClip::Move { clip, host } => clip_move(clip, host),
            UpdateClip::Props { clip, host } => clip_crop(clip, host),
            UpdateClip::Done { .. } => OwnerAsk::Finished,
        }
    }

    /// The stage after `answer`. The crop follows only a host that has moved.
    pub open spec fn next(self, answer: OwnerAnswer<E>) -> UpdateClip<E> {
        match (self, answer) {
            (_, OwnerAnswer::Failed(error)) => UpdateClip::Done { reply: Err(error) },
            (UpdateClip::Move { clip, host }, _) => UpdateClip::Props { clip, host },
            (UpdateClip::Props { .. }, _) => UpdateClip::Done { reply: Ok(()) },
            (UpdateClip::Done { .. }, _) => self,
        }
    }

    /// Go on with the answer to the question.
    pub fn resume(self, answer: OwnerAnswer<E>) -> (r: (UpdateClip<E>, OwnerStep))
        requires
            self.wf(),
            answers(self.asked(), answer),
        ensures
            r.0 == self.next(answer),
            r.0.wf(),
            r.1.calls@ == Seq::<OwnerCall>::empty(),
            r.1.ask == r.0.asked(),
    {
        match (self, answer) {
            (_, OwnerAnswer::Failed(error)) => (
                UpdateClip::Done { reply: Err(error) },
                step(Vec::new(), OwnerAsk::Finished),
            ),
            (UpdateClip::Move { clip, host }, _) => {
                let ask = ask_clip_crop(&clip, host);
                (UpdateClip::Props { clip, host }, step(Vec::new(), ask))
            },
            (UpdateClip::Props { .. }, _) => (
                UpdateClip::Done { reply: Ok(()) },
                step(Vec::new(), OwnerAsk::Finished),
            ),
            (task, _) => (task, step(Vec::new(), OwnerAsk::Finished)),
        }
    }
}

// ---------------------------------------------------------------------------------------------
// A frame
// ---------------------------------------------------------------------------------------------

/// How far a frame has come.
#[derive(Debug, PartialEq, Eq)]
pub enum FrameStage<E> {
    /// Waits for the batch.
    Begin,
    /// Clip `index` is next; `open` is the batch that is being built, if there is one.
    Clip { index: usize, open: Option<isize> },
    /// Waits for the move of clip `index` to join the batch.
    Defer { index: usize, batch: isize },
    /// Waits for the crop of clip `index`, whose move is in the batch.
    Props { index: usize, batch: isize },
    /// Clip `index` moves on its own.
    Single { index: usize, update: UpdateClip<E> },
    Done,
}

/// A frame: every visible host moves in one batch, so a frame with many windows costs one
/// window-manager pass. Where the batch cannot be built, or breaks while it is built, each host
/// moves on its own.
#[derive(Debug, PartialEq, Eq)]
pub struct PresentFrame<E> {
    pub clips: Vec<GhostClip>,
    pub stage: FrameStage<E>,
}

/// How many of the clips show something.
pub open spec fn visible_clips(clips: Seq<GhostClip>) -> nat
    decreases clips.len(),
{
    if clips.len() == 0 {
        0
    } else {
        visible_clips(clips.drop_last()) + if clips.last().host is Some {
            1nat
        } else {
            0nat
        }
    }
}

/// The first stage. A batch is asked for with the number of moves that it is to hold; more moves
/// than an `i32` counts are made without one.
pub open spec fn frame_start<E>(clips: Seq<GhostClip>) -> FrameStage<E> {
    if visible_clips(clips) <= i32::MAX {
        FrameStage::Begin
    } else {
        FrameStage::Clip { index: 0, open: None }
    }
}

fn count_visible(clips: &Vec<GhostClip>) -> (r: usize)
    ensures
        r == visible_clips(clips@),
{
    let mut count: usize = 0;
    let mut index: usize = 0;
    while index < clips.len()
        invariant
            index <= clips@.len(),
            count <= index,
            count == visible_clips(clips@.take(index as int)),
        decreases clips@.len() - index,
    {
        proof {
            assert(clips@.take(index + 1).drop_last() =~= clips@.take(index as int));
        }
        if clips[index].host.is_some() {
            count = count + 1;
        }
        index = index + 1;
    }
    proof {
        assert(clips@.take(clips@.len() as int) =~= clips@);
    }
    count
}

/// Start to present a frame.
pub fn present_frame<E>(clips: Vec<GhostClip>) -> (r: (PresentFrame<E>, OwnerStep))
    requires
        forall|i: int| 0 <= i < clips@.len() ==> clip_fits(#[trigger] clips@[i]),
    ensures
        r.0.clips == clips,
        r.0.stage == frame_start::<E>(clips@),
        r.0.wf(),
        r.1.calls@ == Seq::<OwnerCall>::empty(),
        r.1.ask == r.0.asked(),
{
    let visible: usize = count_visible(&clips);
    if visible <= i32::MAX as usize {
        let count: i32 = visible as i32;
        (
            PresentFrame { clips, stage: FrameStage::Begin },
            step(Vec::new(), OwnerAsk::BeginBatch { count }),
        )
    } else {
        (
            PresentFrame { clips, stage: FrameStage::Clip { index: 0, open: None } },
            step(Vec::new(), OwnerAsk::Nothing),
        )
    }
}

impl<E> PresentFrame<E> {
    /// Every clip can be cropped, and the stage is one of this frame.
    pub open spec fn wf(self) -> bool {
        &&& forall|i: int| 0 <= i < self.clips@.len() ==> clip_fits(#[trigger] self.clips@[i])
        &&& frame_stage_wf(self.clips@, self.stage)
    }

    /// The question that the stage waits on.
    pub open spec fn asked(self) -> OwnerAsk {
        frame_asked(self.clips@, self.stage)
    }

    /// Go on with the answer to the question.
    pub fn resume(self, answer: OwnerAnswer<E>) -> (r: (PresentFrame<E>, OwnerStep))
        requires
            self.wf(),
            answers(self.asked(), answer),
        ensures
            r.0.clips == self.clips,
            (r.0.stage, r.1.calls@) == frame_next(self.clips@, self.stage, answer),
            r.0.wf(),
            r.1.ask == r.0.asked(),
    {
        let PresentFrame { clips, stage } = self;
        assert(clips.len() == clips@.len());
        match stage {
            FrameStage::Begin => {
                let open = match answer {
                    OwnerAnswer::Handle(batch) => Some(batch),
                    _ => None,
                };
                (
                    PresentFrame { clips, stage: FrameStage::Clip { index: 0, open } },
                    step(Vec::new(), OwnerAsk::Nothing),
                )
            },
            FrameStage::Clip { index, open } => {
                if index >= clips.len() {
                    let calls = match open {
                        Some(batch) => vec![OwnerCall::EndBatch { batch }],
                        None => Vec::new(),
                    };
                    return (
                        PresentFrame { clips, stage: FrameStage::Done },
                        step(calls, OwnerAsk::Finished),
                    );
                }
                let clip: GhostClip = clips[index];
                match (clip.host, open) {
                    (None, _) => (
                        PresentFrame { clips, stage: FrameStage::Clip { index: index + 1, open } },
                        step(
                            vec![OwnerCall::Show { hwnd: clip.host_hwnd, command: HIDE }],
                            OwnerAsk::Nothing,
                        ),
                    ),
                    (Some(_), None) => {
                        let (update, first) = update_ghost_clip(clip);
                        (
                            PresentFrame { clips, stage: FrameStage::Single { index, update } },
                            first,
                        )
                    },
                    (Some(host), Some(batch)) => {
                        let ask = OwnerAsk::Defer {
                            batch,
                            hwnd: clip.host_hwnd,
                            rect: host,
                            flags: moving(true),
                        };
                        (
                            PresentFrame { clips, stage: FrameStage::Defer { index, batch } },
                            step(Vec::new(), ask),
                        )
                    },
                }
            },
            FrameStage::Defer { index, .. } => {
                let clip: GhostClip = clips[index];
                match (answer, clip.host) {
                    (OwnerAnswer::Handle(batch), Some(host)) => {
                        let ask = ask_clip_crop(&clip, host);
                        (
                            PresentFrame { clips, stage: FrameStage::Props { index, batch } },
                            step(Vec::new(), ask),
                        )
                    },
                    // The moves that had joined went with the batch.
                    _ => (
                        PresentFrame { clips, stage: FrameStage::Clip { index: 0, open: None } },
                        step(Vec::new(), OwnerAsk::Nothing),
                    ),
                }
            },
            FrameStage::Props { index, batch } => (
                PresentFrame {
                    clips,
                    stage: FrameStage::Clip { index: index + 1, open: Some(batch) },
                },
                step(Vec::new(), OwnerAsk::Nothing),
            ),
            FrameStage::Single { index, update } => {
                let (update, next) = update.resume(answer);
                match update {
                    UpdateClip::Done { .. } => (
                        PresentFrame {
                            clips,
                            stage: FrameStage::Clip { index: index + 1, open: None },
                        },
                        step(Vec::new(), OwnerAsk::Nothing),
                    ),
                    update => (
                        PresentFrame { clips, stage: FrameStage::Single { index, update } },
                        next,
                    ),
                }
            },
            FrameStage::Done => (
                PresentFrame { clips, stage: FrameStage::Done },
                step(Vec::new(), OwnerAsk::Finished),
            ),
        }
    }
}

/// The stage after `answer`, and the calls to make on the way there. A move that cannot join the
/// batch frees it, and the moves that had joined are lost with it: the frame starts over, and every
/// host moves on its own.
pub open spec fn frame_next<E>(
    clips: Seq<GhostClip>,
    stage: FrameStage<E>,
    answer: OwnerAnswer<E>,
) -> (FrameStage<E>, Seq<OwnerCall>) {
    match stage {
        FrameStage::Begin => (
            FrameStage::Clip {
                index: 0,
                open: match answer {
                    OwnerAnswer::Handle(batch) => Some(batch),
                    _ => None,
                },
            },
            seq![],
        ),
        FrameStage::Clip { index, open } => if index >= clips.len() {
            (
                FrameStage::Done,
                match open {
                    Some(batch) => seq![OwnerCall::EndBatch { batch }],
                    None => seq![],
                },
            )
        } else {
            let clip = clips[index as int];
            match (clip.host, open) {
                (None, _) => (
                    FrameStage::Clip { index: (index + 1) as usize, open },
                    seq![OwnerCall::Show { hwnd: clip.host_hwnd, command: HIDE }],
                ),
                (Some(_), None) => (
                    FrameStage::Single { index, update: update_clip_start(clip) },
                    seq![],
                ),
                (Some(_), Some(batch)) => (FrameStage::Defer { index, batch }, seq![]),
            }
        },
        FrameStage::Defer { index, .. } => match answer {
            OwnerAnswer::Handle(batch) => (FrameStage::Props { index, batch }, seq![]),
            _ => (FrameStage::Clip { index: 0, open: None }, seq![]),
        },
        FrameStage::Props { index, batch } => (
            FrameStage::Clip { index: (index + 1) as usize, open: Some(batch) },
            seq![],
        ),
        FrameStage::Single { index, update } => match update.next(answer) {
            UpdateClip::Done { .. } => (
                FrameStage::Clip { index: (index + 1) as usize, open: None },
                seq![],
            ),
            update => (FrameStage::Single { index, update }, seq![]),
        },
        FrameStage::Done => (FrameStage::Done, seq![]),
    }
}

/// The stage that a frame reaches with the given answers.
pub open spec fn frame_run<E>(clips: Seq<GhostClip>, given: Seq<OwnerAnswer<E>>) -> FrameStage<E>
    decreases given.len(),
{
    if given.len() == 0 {
        frame_start(clips)
    } else {
        frame_next(clips, frame_run(clips, given.drop_last()), given.last()).0
    }
}

/// The question that a stage of a frame waits on.
pub open spec fn frame_asked<E>(clips: Seq<GhostClip>, stage: FrameStage<E>) -> OwnerAsk {
    match stage {
        FrameStage::Begin => OwnerAsk::BeginBatch { count: visible_clips(clips) as i32 },
        FrameStage::Clip { .. } => OwnerAsk::Nothing,
        FrameStage::Defer { index, batch } => OwnerAsk::Defer {
            batch,
            hwnd: clips[index as int].host_hwnd,
            rect: clips[index as int].host->0,
            flags: moving_flags(true),
        },
        FrameStage::Props { index, .. } => clip_crop(
            clips[index as int],
            clips[index as int].host->0,
        ),
        FrameStage::Single { update, .. } => update.asked(),
        FrameStage::Done => OwnerAsk::Finished,
    }
}

/// Every answer is of the kind that its question asks for, and the frame was not over before.
pub open spec fn frame_run_answered<E>(clips: Seq<GhostClip>, given: Seq<OwnerAnswer<E>>) -> bool
    decreases given.len(),
{
    given.len() > 0 ==> {
        &&& frame_run_answered(clips, given.drop_last())
        &&& answers(
            frame_asked(clips, frame_run::<E>(clips, given.drop_last())),
            given.last(),
        )
    }
}

/// The index of a stage names a clip, and the clip that moves on its own is that one.
pub open spec fn frame_stage_wf<E>(clips: Seq<GhostClip>, stage: FrameStage<E>) -> bool {
    match stage {
        FrameStage::Begin => visible_clips(clips) <= i32::MAX,
        FrameStage::Clip { index, .. } => index <= clips.len(),
        FrameStage::Defer { index, .. } => index < clips.len() && clips[index as int].host is Some,
        FrameStage::Props { index, .. } => index < clips.len() && clips[index as int].host is Some,
        FrameStage::Single { index, update } => {
            &&& index < clips.len()
            &&& update.wf()
            &&& match update {
                UpdateClip::Move { clip, .. } => clip == clips[index as int],
                UpdateClip::Props { clip, .. } => clip == clips[index as int],
                UpdateClip::Done { .. } => false,
            }
        },
        FrameStage::Done => true,
    }
}

/// The batch that is open at a stage.
pub open spec fn open_batch<E>(stage: FrameStage<E>) -> Option<isize> {
    match stage {
        FrameStage::Clip { open, .. } => open,
        FrameStage::Defer { batch, .. } => Some(batch),
        FrameStage::Props { batch, .. } => Some(batch),
        _ => None,
    }
}

/// A batch is never left open. It opens when the window system grants it, goes on under the number
/// that each joining move gives it, is gone once a move could not join, and a frame that ends with
/// an open batch ends the batch: only then, and only that one.
pub proof fn law_batch_is_ended_or_freed<E>(
    clips: Seq<GhostClip>,
    stage: FrameStage<E>,
    answer: OwnerAnswer<E>,
)
    requires
        frame_stage_wf(clips, stage),
        answers(frame_asked(clips, stage), answer),
    ensures
        ({
            let (next, calls) = frame_next(clips, stage, answer);
            &&& match (stage, answer) {
                (FrameStage::Begin, OwnerAnswer::Handle(batch)) => open_batch(next) == Some(batch),
                (FrameStage::Defer { .. }, OwnerAnswer::Handle(batch)) => open_batch(next) == Some(
                    batch,
                ),
                (FrameStage::Defer { .. }, _) => open_batch(next) is None,
                _ => next is Done || open_batch(next) == open_batch(stage),
            }
            &&& next is Done ==> match open_batch(stage) {
                Some(batch) => calls == seq![OwnerCall::EndBatch { batch }],
                None => calls.len() == 0,
            }
            &&& !(next is Done) ==> forall|i: int|
                0 <= i < calls.len() ==> !(#[trigger] calls[i] is EndBatch)
        }),
{
}

/// Once a host has been told to move, its thumbnail is cropped next, unless the move failed.
pub proof fn law_moved_host_is_cropped<E>(
    clips: Seq<GhostClip>,
    stage: FrameStage<E>,
    answer: OwnerAnswer<E>,
)
    requires
        frame_stage_wf(clips, stage),
        answers(frame_asked(clips, stage), answer),
        !(answer is Failed),
    ensures
        ({
            let next = frame_next(clips, stage, answer).0;
            match stage {
                FrameStage::Defer { index, .. } => frame_asked(clips, next) == clip_crop(
                    clips[index as int],
                    clips[index as int].host->0,
                ),
                FrameStage::Single { index, update: UpdateClip::Move { .. } } => frame_asked(
                    clips,
                    next,
                ) == clip_crop(clips[index as int], clips[index as int].host->0),
                _ => true,
            }
        }),
{
}

/// With the answer at `k`, the move of clip `i` joined the batch.
pub open spec fn joined_at<E>(
    clips: Seq<GhostClip>,
    given: Seq<OwnerAnswer<E>>,
    k: int,
    i: int,
) -> bool {
    &&& given[k] is Handle
    &&& frame_run::<E>(clips, given.take(k)) matches FrameStage::Defer { index, .. } && index == i
}

/// The move of clip `i` joined the batch.
pub open spec fn joined<E>(clips: Seq<GhostClip>, given: Seq<OwnerAnswer<E>>, i: int) -> bool {
    exists|k: int| 0 <= k < given.len() && #[trigger] joined_at(clips, given, k, i)
}

/// The answer at `k` is that to the move of clip `i` on its own.
pub open spec fn moved_alone_at<E>(
    clips: Seq<GhostClip>,
    given: Seq<OwnerAnswer<E>>,
    k: int,
    i: int,
) -> bool {
    frame_run::<E>(clips, given.take(k)) matches FrameStage::Single { index, update } && index == i
        && update is Move
}

/// The host of clip `i` was told to move on its own.
pub open spec fn moved_alone<E>(clips: Seq<GhostClip>, given: Seq<OwnerAnswer<E>>, i: int) -> bool {
    exists|k: int| 0 <= k < given.len() && #[trigger] moved_alone_at(clips, given, k, i)
}

/// The step of the answer at `k` hides the host of clip `i`.
pub open spec fn hidden_at<E>(
    clips: Seq<GhostClip>,
    given: Seq<OwnerAnswer<E>>,
    k: int,
    i: int,
) -> bool {
    frame_next(clips, frame_run::<E>(clips, given.take(k)), given[k]).1 == seq![
        OwnerCall::Show { hwnd: clips[i].host_hwnd, command: HIDE },
    ]
}

/// The host of clip `i` was told to hide.
pub open spec fn hidden<E>(clips: Seq<GhostClip>, given: Seq<OwnerAnswer<E>>, i: int) -> bool {
    exists|k: int| 0 <= k < given.len() && #[trigger] hidden_at(clips, given, k, i)
}

/// How many clips a stage has behind it.
pub open spec fn clips_behind<E>(clips: Seq<GhostClip>, stage: FrameStage<E>) -> int {
    match stage {
        FrameStage::Begin => 0,
        FrameStage::Clip { index, .. } => index as int,
        FrameStage::Defer { index, .. } => index as int,
        FrameStage::Props { index, .. } => index as int,
        FrameStage::Single { index, .. } => index as int,
        FrameStage::Done => clips.len() as int,
    }
}

/// How many answers are left at most: three for each clip in the batch and three for each on its
/// own, one to begin, and one to end either pass.
pub open spec fn frame_answers_left<E>(clips: Seq<GhostClip>, stage: FrameStage<E>) -> int {
    let n: int = clips.len() as int;
    match stage {
        FrameStage::Begin => 6 * n + 3,
        FrameStage::Clip { index, open } => 3 * (n - index) + 1 + if open is Some {
            3 * n + 1
        } else {
            0
        },
        FrameStage::Defer { index, .. } => 3 * (n - index) + 3 * n + 1,
        FrameStage::Props { index, .. } => 3 * (n - index) + 3 * n,
        FrameStage::Single { index, update } => 3 * (n - index) - if update is Move {
            0int
        } else {
            1int
        },
        FrameStage::Done => 0,
    }
}

/// Clip `i` is dealt with at this stage: hidden if it shows nothing; else its move is in the open
/// batch, or it was moved on its own where there is no batch.
spec fn dealt_with<E>(
    clips: Seq<GhostClip>,
    given: Seq<OwnerAnswer<E>>,
    stage: FrameStage<E>,
    i: int,
) -> bool {
    if clips[i].host is None {
        hidden(clips, given, i)
    } else if open_batch(stage) is Some {
        joined(clips, given, i)
    } else {
        moved_alone(clips, given, i)
    }
}

/// What happened before an answer has still happened after it.
proof fn lemma_dealt_with_extends<E>(clips: Seq<GhostClip>, given: Seq<OwnerAnswer<E>>, i: int)
    requires
        given.len() > 0,
    ensures
        joined(clips, given.drop_last(), i) ==> joined(clips, given, i),
        moved_alone(clips, given.drop_last(), i) ==> moved_alone(clips, given, i),
        hidden(clips, given.drop_last(), i) ==> hidden(clips, given, i),
{
    let shorter = given.drop_last();
    assert forall|k: int| 0 <= k < shorter.len() implies #[trigger] given.take(k)
        == shorter.take(k) by {
        assert(given.take(k) =~= shorter.take(k));
    }
    if joined(clips, shorter, i) {
        let k = choose|k: int| 0 <= k < shorter.len() && #[trigger] joined_at(clips, shorter, k, i);
        assert(given.take(k) == shorter.take(k));
        assert(joined_at(clips, given, k, i));
    }
    if moved_alone(clips, shorter, i) {
        let k = choose|k: int|
            0 <= k < shorter.len() && #[trigger] moved_alone_at(clips, shorter, k, i);
        assert(given.take(k) == shorter.take(k));
        assert(moved_alone_at(clips, given, k, i));
    }
    if hidden(clips, shorter, i) {
        let k = choose|k: int| 0 <= k < shorter.len() && #[trigger] hidden_at(clips, shorter, k, i);
        assert(given.take(k) == shorter.take(k));
        assert(hidden_at(clips, given, k, i));
    }
}

/// Up to any point of a frame, every clip behind is dealt with.
proof fn lemma_frame_course<E>(clips: Seq<GhostClip>, given: Seq<OwnerAnswer<E>>)
    requires
        clips.len() <= usize::MAX,
        forall|i: int| 0 <= i < clips.len() ==> clip_fits(#[trigger] clips[i]),
        frame_run_answered(clips, given),
    ensures
        ({
            let stage = frame_run::<E>(clips, given);
            &&& frame_stage_wf(clips, stage)
            &&& !(stage is Done) ==> forall|i: int|
                0 <= i < clips_behind(clips, stage) ==> #[trigger] dealt_with(
                    clips,
                    given,
                    stage,
                    i,
                )
            &&& stage matches FrameStage::Props { index, .. } ==> joined(clips, given, index as int)
            &&& stage matches FrameStage::Single { index, update } ==> update is Props
                ==> moved_alone(clips, given, index as int)
        }),
    decreases given.len(),
{
    let stage = frame_run::<E>(clips, given);
    if given.len() > 0 {
        let shorter = given.drop_last();
        let before = frame_run::<E>(clips, shorter);
        let last: int = given.len() - 1;
        lemma_frame_course(clips, shorter);
        assert(given.take(last) =~= shorter);
        assert(given[last] == given.last());
        match before {
            FrameStage::Clip { index, .. } => {
                if index < clips.len() && clips[index as int].host is None {
                    assert(hidden_at(clips, given, last, index as int));
                }
            },
            FrameStage::Defer { index, .. } => {
                if given.last() is Handle {
                    assert(joined_at(clips, given, last, index as int));
                }
            },
            FrameStage::Props { index, .. } => {
                lemma_dealt_with_extends(clips, given, index as int);
            },
            FrameStage::Single { index, update } => {
                lemma_dealt_with_extends(clips, given, index as int);
                if update is Move {
                    assert(moved_alone_at(clips, given, last, index as int));
                }
            },
            _ => {},
        }
        if !(stage is Done) {
            assert forall|i: int| 0 <= i < clips_behind(clips, stage) implies
                #[trigger] dealt_with(clips, given, stage, i) by {
                lemma_dealt_with_extends(clips, given, i);
                if i < clips_behind(clips, before) {
                    assert(dealt_with(clips, shorter, before, i));
                }
            }
        }
    }
}

/// A frame moves every host that it shows. When the frame is over, whatever failed on the way, the
/// move of each shown host is in the batch that this very step ends, or the host was told to move
/// on its own.
pub proof fn law_frame_moves_every_shown_host<E>(
    clips: Seq<GhostClip>,
    given: Seq<OwnerAnswer<E>>,
    last: OwnerAnswer<E>,
)
    requires
        clips.len() <= usize::MAX,
        forall|i: int| 0 <= i < clips.len() ==> clip_fits(#[trigger] clips[i]),
        frame_run_answered(clips, given),
        !(frame_run::<E>(clips, given) is Done),
        frame_next(clips, frame_run::<E>(clips, given), last).0 is Done,
    ensures
        ({
            let stage = frame_run::<E>(clips, given);
            let calls = frame_next(clips, stage, last).1;
            forall|i: int|
                0 <= i < clips.len() && (#[trigger] clips[i]).host is Some ==> {
                    ||| open_batch(stage) is Some && calls == seq![
                        OwnerCall::EndBatch { batch: open_batch(stage)->0 },
                    ] && joined(clips, given, i)
                    ||| moved_alone(clips, given, i)
                }
        }),
{
    lemma_frame_course(clips, given);
    let stage = frame_run::<E>(clips, given);
    assert forall|i: int| 0 <= i < clips.len() && (#[trigger] clips[i]).host is Some implies {
        ||| open_batch(stage) is Some && frame_next(clips, stage, last).1 == seq![
            OwnerCall::EndBatch { batch: open_batch(stage)->0 },
        ] && joined(clips, given, i)
        ||| moved_alone(clips, given, i)
    } by {
        assert(dealt_with(clips, given, stage, i));
    }
}

/// A frame hides every host that it does not show.
pub proof fn law_frame_hides_every_other_host<E>(
    clips: Seq<GhostClip>,
    given: Seq<OwnerAnswer<E>>,
    last: OwnerAnswer<E>,
)
    requires
        clips.len() <= usize::MAX,
        forall|i: int| 0 <= i < clips.len() ==> clip_fits(#[trigger] clips[i]),
        frame_run_answered(clips, given),
        !(frame_run::<E>(clips, given) is Done),
        frame_next(clips, frame_run::<E>(clips, given), last).0 is Done,
    ensures
        forall|i: int|
            0 <= i < clips.len() && (#[trigger] clips[i]).host is None ==> hidden(clips, given, i),
{
    lemma_frame_course(clips, given);
    let stage = frame_run::<E>(clips, given);
    assert forall|i: int| 0 <= i < clips.len() && (#[trigger] clips[i]).host is None implies hidden(
        clips,
        given,
        i,
    ) by {
        assert(dealt_with(clips, given, stage, i));
    }
}

/// Each answer brings a frame closer to its end: it asks at most six times for each clip, and
/// three times more.
pub proof fn law_frame_ends<E>(clips: Seq<GhostClip>, given: Seq<OwnerAnswer<E>>)
    requires
        clips.len() <= usize::MAX,
        forall|i: int| 0 <= i < clips.len() ==> clip_fits(#[trigger] clips[i]),
        frame_run_answered(clips, given),
    ensures
        given.len() + frame_answers_left(clips, frame_run::<E>(clips, given)) <= 6 * clips.len()
            + 3,
        given.len() == 6 * clips.len() + 3 ==> frame_run::<E>(clips, given) is Done,
    decreases given.len(),
{
    lemma_frame_course(clips, given);
    if given.len() > 0 {
        law_frame_ends(clips, given.drop_last());
        lemma_frame_course(clips, given.drop_last());
    }
}

/// What a frame asks for. The batch is asked for with as many moves as clips show something. A host
/// that moves, with the batch or on its own, goes exactly onto the area of its clip, is shown there,
/// and keeps its place in the stacking order without a focus or a redraw. Its thumbnail then fills
/// the host with exactly the part of the source that the clip names.
pub proof fn law_frame_asks_for_its_clips<E>(clips: Seq<GhostClip>, stage: FrameStage<E>)
    requires
        frame_stage_wf(clips, stage),
        forall|i: int| 0 <= i < clips.len() ==> clip_fits(#[trigger] clips[i]),
    ensures
        stage is Begin ==> (frame_asked(clips, stage) matches OwnerAsk::BeginBatch { count } && count
            == clips.filter(|clip: GhostClip| clip.host is Some).len()),
        stage matches FrameStage::Defer { index, batch } ==> (frame_asked(
            clips,
            stage,
        ) matches OwnerAsk::Defer { batch: joined, hwnd, rect, flags } && {
            &&& joined == batch
            &&& hwnd == clips[index as int].host_hwnd
            &&& Some(rect) == clips[index as int].host
            &&& flags.show_window && flags.no_activate && flags.no_redraw && flags.no_z_order
        }),
        stage matches FrameStage::Single { index, update: UpdateClip::Move { .. } } ==> (frame_asked(
            clips,
            stage,
        ) matches OwnerAsk::SetPos { hwnd, z, rect, flags } && {
            &&& hwnd == clips[index as int].host_hwnd
            &&& Some(rect) == clips[index as int].host
            &&& z is Keep
            &&& flags.show_window && flags.no_activate && flags.no_redraw && flags.no_z_order
        }),
        ({
            let cropping = match stage {
                FrameStage::Props { index, .. } => Some(index),
                FrameStage::Single { index, update: UpdateClip::Props { .. } } => Some(index),
                _ => None,
            };
            cropping matches Some(index) ==> (frame_asked(clips, stage) matches
                OwnerAsk::UpdateThumb { hthumb, props } && {
                let clip = clips[index as int];
                &&& hthumb == clip.hthumb
                &&& props.visible && props.opacity == 255
                &&& props.flags.visible && props.flags.opacity
                &&& props.flags.source && props.flags.destination
                &&& props.destination.left == 0 && props.destination.top == 0
                &&& props.destination.right == clip.host->0.right
                &&& props.destination.bottom == clip.host->0.bottom
                &&& props.source.left == clip.source_x && props.source.top == clip.source_y
                &&& props.source.right - props.source.left == clip.source_width
                &&& props.source.bottom - props.source.top == clip.source_height
            })
        }),
{
    lemma_visible_clips_counts(clips);
    if let FrameStage::Props { index, .. } = stage {
        assert(clip_fits(clips[index as int]));
    }
    if let FrameStage::Single { index, .. } = stage {
        assert(clip_fits(clips[index as int]));
    }
}

/// The visible clips are counted, and are no more than the clips.
pub(crate) proof fn lemma_visible_clips_counts(clips: Seq<GhostClip>)
    ensures
        visible_clips(clips) == clips.filter(|clip: GhostClip| clip.host is Some).len(),
        visible_clips(clips) <= clips.len(),
    decreases clips.len(),
{
    reveal(Seq::filter);
    if clips.len() > 0 {
        lemma_visible_clips_counts(clips.drop_last());
    }
}

/// A frame goes through its clips in order and leaves none out. A batch that is not granted means
/// that each host moves on its own; so does a batch that breaks, and then from the first clip on. A
/// crop that fails stops nothing, nor does a host that cannot move.
pub proof fn law_frame_goes_through_its_clips<E>(
    clips: Seq<GhostClip>,
    stage: FrameStage<E>,
    answer: OwnerAnswer<E>,
)
    requires
        clips.len() <= usize::MAX,
        frame_stage_wf(clips, stage),
        answers(frame_asked(clips, stage), answer),
    ensures
        ({
            let (next, calls) = frame_next(clips, stage, answer);
            &&& !(stage is Clip) ==> calls.len() == 0
            &&& match stage {
                FrameStage::Begin => next matches FrameStage::Clip { index, open } && index == 0 && (
                open is Some <==> answer is Handle) && (answer matches OwnerAnswer::Handle(batch)
                    ==> open == Some(batch)),
                FrameStage::Clip { index, open } => if index == clips.len() {
                    &&& next is Done
                    &&& open is None ==> calls.len() == 0
                    &&& open matches Some(batch) ==> calls == seq![OwnerCall::EndBatch { batch }]
                } else if clips[index as int].host is None {
                    &&& next == (FrameStage::<E>::Clip { index: (index + 1) as usize, open })
                    &&& calls.len() == 1 && (calls[0] matches OwnerCall::Show { hwnd, command }
                        && hwnd == clips[index as int].host_hwnd && command == 0)
                } else if open is Some {
                    next == (FrameStage::<E>::Defer { index, batch: open->0 }) && calls.len() == 0
                } else {
                    next matches FrameStage::Single { index: alone, update } && alone == index
                        && update is Move && calls.len() == 0
                },
                FrameStage::Defer { index, .. } => match answer {
                    OwnerAnswer::Handle(batch) => next == (FrameStage::<E>::Props { index, batch }),
                    _ => next == (FrameStage::<E>::Clip { index: 0, open: None }),
                },
                FrameStage::Props { index, batch } => next == (FrameStage::<E>::Clip {
                    index: (index + 1) as usize,
                    open: Some(batch),
                }),
                FrameStage::Single { index, update } => if update is Move && answer is Done {
                    next matches FrameStage::Single { index: same, update } && same == index
                        && update is Props
                } else {
                    next == (FrameStage::<E>::Clip { index: (index + 1) as usize, open: None })
                },
                FrameStage::Done => next is Done,
            }
        }),
{
}

/// A ghost that moves as a whole goes exactly onto the rect, neither shown nor raised by that, and
/// its thumbnail then fills it. A ghost that is clipped moves and is cropped as in a frame, or is
/// hidden. The first call that fails ends the update with its error; the thumbnail follows only a
/// host that has moved.
pub proof fn law_updates_do_what_they_say<E>(
    host_hwnd: isize,
    hthumb: isize,
    rect: Rect,
    clip: GhostClip,
    error: E,
)
    requires
        clip_fits(clip),
    ensures
        ({
            let first = UpdateGhost::<E>::Move { host_hwnd, hthumb, rect };
            let second = first.next(OwnerAnswer::Done);
            &&& first.asked() matches OwnerAsk::SetPos { hwnd, z, rect: onto, flags } && {
                &&& hwnd == host_hwnd && onto == rect && z is Keep
                &&& flags.no_activate && flags.no_redraw && flags.no_z_order && !flags.show_window
            }
            &&& second.asked() matches OwnerAsk::UpdateThumb { hthumb: updated, props } && {
                &&& updated == hthumb
                &&& props.visible && props.opacity == 255
                &&& props.flags.destination && !props.flags.source
                &&& props.destination.left == 0 && props.destination.top == 0
                &&& props.destination.right == rect.right && props.destination.bottom == rect.bottom
            }
            &&& second.next(OwnerAnswer::Done) == (UpdateGhost::<E>::Done { reply: Ok(()) })
            &&& first.next(OwnerAnswer::Failed(error)) == (UpdateGhost::Done { reply: Err(error) })
            &&& second.next(OwnerAnswer::Failed(error)) == (UpdateGhost::Done { reply: Err(error) })
        }),
        clip.host is None ==> {
            &&& update_clip_start::<E>(clip) == (UpdateClip::<E>::Done { reply: Ok(()) })
            &&& update_clip_start_calls(clip) == seq![
                OwnerCall::Show { hwnd: clip.host_hwnd, command: 0 },
            ]
        },
        clip.host matches Some(host) ==> {
            let first = update_clip_start::<E>(clip);
            let second = first.next(OwnerAnswer::Done);
            &&& update_clip_start_calls(clip).len() == 0
            &&& first.asked() matches OwnerAsk::SetPos { hwnd, z, rect: onto, flags } && {
                &&& hwnd == clip.host_hwnd && onto == host && z is Keep
                &&& flags.no_activate && flags.no_redraw && flags.no_z_order && flags.show_window
            }
            &&& second.asked() matches OwnerAsk::UpdateThumb { hthumb: updated, props } && {
                &&& updated == clip.hthumb
                &&& props.source.left == clip.source_x && props.source.top == clip.source_y
                &&& props.source.right - props.source.left == clip.source_width
                &&& props.source.bottom - props.source.top == clip.source_height
                &&& props.destination.right == host.right
                &&& props.destination.bottom == host.bottom
            }
            &&& second.next(OwnerAnswer::Done) == (UpdateClip::<E>::Done { reply: Ok(()) })
            &&& first.next(OwnerAnswer::Failed(error)) == (UpdateClip::Done { reply: Err(error) })
            &&& second.next(OwnerAnswer::Failed(error)) == (UpdateClip::Done { reply: Err(error) })
        },
{
}

} // verus!

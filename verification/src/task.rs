//! What the ghost owner does with a command, and the loop around it.
use vstd::prelude::*;

use crate::create::{create_ghost, CreateGhost, GhostRequest};
use crate::frame::{
    clip_fits, frame_next, frame_start, lemma_visible_clips_counts, present_frame,
    update_clip_start, update_clip_start_calls, update_ghost, update_ghost_clip, FrameStage,
    PresentFrame, UpdateClip, UpdateGhost,
};
use crate::geometry::{is_i32, Rect};
use crate::ghost::{GhostClip, GhostCmd};
use crate::overlay::{
    create_overlay, desktop_area_fits, overlay_holdings, overlay_start, CreateOverlay,
    OverlayError,
};
use crate::owner::{
    answers, given_back, is_answer, lemma_given_back_unfolds, step, Holdings, OwnerAnswer,
    OwnerAsk, OwnerCall, OwnerStep,
};

verus! {

/// How long the owner waits for a command before it looks at its window messages again, in
/// milliseconds.
pub const COMMAND_WAIT_MS: u64 = 8;

/// What the owner has to say about a command that it has carried out.
#[derive(Debug, PartialEq, Eq)]
pub enum OwnerReply<E> {
    /// Nobody waits for an answer.
    Nothing,
    Created(Result<(isize, isize), E>),
    Overlaid(Result<(isize, isize, isize), OverlayError<E>>),
    /// The frame is on screen.
    Presented,
    /// Nobody waits for this either, but a failure is worth a note.
    Updated(Result<(), E>),
}

/// A command at work.
#[derive(Debug, PartialEq, Eq)]
pub enum OwnerTask<E> {
    Create(CreateGhost<E>),
    Rect(UpdateGhost<E>),
    Clip(UpdateClip<E>),
    Present(PresentFrame<E>),
    Overlay(CreateOverlay<E>),
    Done(OwnerReply<E>),
}

/// Every coordinate that carrying the command out computes stays inside the range of `i32`.
pub open spec fn cmd_fits(cmd: GhostCmd) -> bool {
    match cmd {
        GhostCmd::UpdateClip { clip } => clip_fits(clip),
        GhostCmd::Present { clips } => forall|i: int|
            0 <= i < clips@.len() ==> clip_fits(#[trigger] clips@[i]),
        GhostCmd::CreateOverlay { clip, .. } => clip_fits(clip),
        _ => true,
    }
}

/// Whether the source area of a shown clip ends inside the range of `i32`.
pub fn is_clip_fit(clip: &GhostClip) -> (r: bool)
    ensures
        r == clip_fits(*clip),
{
    if clip.host.is_none() {
        return true;
    }
    let right: i64 = clip.source_x as i64 + clip.source_width as i64;
    let bottom: i64 = clip.source_y as i64 + clip.source_height as i64;
    is_i32(right) && is_i32(bottom)
}

fn are_clips_fit(clips: &Vec<GhostClip>) -> (r: bool)
    ensures
        r == forall|i: int| 0 <= i < clips@.len() ==> clip_fits(#[trigger] clips@[i]),
{
    let mut index: usize = 0;
    while index < clips.len()
        invariant
            index <= clips@.len(),
            forall|i: int| 0 <= i < index ==> clip_fits(#[trigger] clips@[i]),
        decreases clips@.len() - index,
    {
        if !is_clip_fit(&clips[index]) {
            return false;
        }
        index = index + 1;
    }
    true
}

/// Whether the command can be carried out with coordinates that stay inside the range of `i32`.
pub fn is_cmd_fit(cmd: &GhostCmd) -> (r: bool)
    ensures
        r == cmd_fits(*cmd),
{
    match cmd {
        GhostCmd::UpdateClip { clip } => is_clip_fit(clip),
        GhostCmd::CreateOverlay { clip, .. } => is_clip_fit(clip),
        GhostCmd::Present { clips } => are_clips_fit(clips),
        _ => true,
    }
}

/// The calls that take a ghost down: its thumbnail, then its host.
pub open spec fn destroy_ghost_calls(host_hwnd: isize, hthumb: isize) -> Seq<OwnerCall> {
    seq![OwnerCall::Unregister { hthumb }, OwnerCall::DestroyWindow { hwnd: host_hwnd }]
}

/// The calls that take an overlay down: its two thumbnails, then its host.
pub open spec fn destroy_overlay_calls(
    host_hwnd: isize,
    hdesktop: isize,
    hthumb: isize,
) -> Seq<OwnerCall> {
    seq![
        OwnerCall::Unregister { hthumb: hdesktop },
        OwnerCall::Unregister { hthumb },
        OwnerCall::DestroyWindow { hwnd: host_hwnd },
    ]
}

pub fn destroy_ghost(host_hwnd: isize, hthumb: isize) -> (r: Vec<OwnerCall>)
    ensures
        r@ == destroy_ghost_calls(host_hwnd, hthumb),
{
    vec![OwnerCall::Unregister { hthumb }, OwnerCall::DestroyWindow { hwnd: host_hwnd }]
}

/// The task that a command starts as.
pub open spec fn task_start<E>(cmd: GhostCmd) -> OwnerTask<E> {
    match cmd {
        GhostCmd::Create { src_hwnd, start_rect, z_above, visible } => OwnerTask::Create(
            CreateGhost::<E>::Instance {
                request: GhostRequest { src_hwnd, start_rect, z_above, visible },
            },
        ),
        GhostCmd::UpdateRect { host_hwnd, hthumb, rect } => OwnerTask::Rect(
            UpdateGhost::<E>::Move { host_hwnd, hthumb, rect },
        ),
        GhostCmd::UpdateClip { clip } => match update_clip_start::<E>(clip) {
            UpdateClip::Done { reply } => OwnerTask::Done(OwnerReply::Updated(reply)),
            update => OwnerTask::Clip(update),
        },
        GhostCmd::Destroy { .. } => OwnerTask::Done(OwnerReply::Nothing),
        GhostCmd::Present { clips } => OwnerTask::Present(
            PresentFrame::<E> { clips, stage: frame_start(clips@) },
        ),
        GhostCmd::CreateOverlay { src_hwnd, clip } => match overlay_start::<E>(
            src_hwnd,
            clip,
        ) {
            CreateOverlay::Done { reply } => OwnerTask::Done(OwnerReply::Overlaid(reply)),
            overlay => OwnerTask::Overlay(overlay),
        },
        GhostCmd::DestroyOverlay { .. } => OwnerTask::Done(OwnerReply::Nothing),
    }
}

/// The calls that a command starts with.
pub open spec fn task_start_calls(cmd: GhostCmd) -> Seq<OwnerCall> {
    match cmd {
        GhostCmd::UpdateClip { clip } => update_clip_start_calls(clip),
        GhostCmd::Destroy { host_hwnd, hthumb } => destroy_ghost_calls(host_hwnd, hthumb),
        GhostCmd::DestroyOverlay { host_hwnd, hdesktop, hthumb } => destroy_overlay_calls(
            host_hwnd,
            hdesktop,
            hthumb,
        ),
        _ => seq![],
    }
}

/// Start to carry a command out.
pub fn handle_cmd<E>(cmd: GhostCmd) -> (r: (OwnerTask<E>, OwnerStep))
    requires
        cmd_fits(cmd),
    ensures
        r.0 == task_start::<E>(cmd),
        r.0.wf(),
        r.1.calls@ == task_start_calls(cmd),
        r.1.ask == r.0.asked(),
{
    match cmd {
        GhostCmd::Create { src_hwnd, start_rect, z_above, visible } => {
            let (task, first) = create_ghost(src_hwnd, start_rect, z_above, visible);
            (OwnerTask::Create(task), first)
        },
        GhostCmd::UpdateRect { host_hwnd, hthumb, rect } => {
            let (task, first) = update_ghost(host_hwnd, hthumb, rect);
            (OwnerTask::Rect(task), first)
        },
        GhostCmd::UpdateClip { clip } => {
            let (task, first) = update_ghost_clip(clip);
            (OwnerTask::from_clip(task), first)
        },
        GhostCmd::Destroy { host_hwnd, hthumb } => (
            OwnerTask::Done(OwnerReply::Nothing),
            step(destroy_ghost(host_hwnd, hthumb), OwnerAsk::Finished),
        ),
        GhostCmd::Present { clips } => {
            let (task, first) = present_frame(clips);
            (OwnerTask::Present(task), first)
        },
        GhostCmd::CreateOverlay { src_hwnd, clip } => {
            let (task, first) = create_overlay(src_hwnd, clip);
            (OwnerTask::from_overlay(task), first)
        },
        GhostCmd::DestroyOverlay { host_hwnd, hdesktop, hthumb } => {
            let calls = vec![
                OwnerCall::Unregister { hthumb: hdesktop },
                OwnerCall::Unregister { hthumb },
                OwnerCall::DestroyWindow { hwnd: host_hwnd },
            ];
            (OwnerTask::Done(OwnerReply::Nothing), step(calls, OwnerAsk::Finished))
        },
    }
}

impl<E> OwnerTask<E> {
    pub open spec fn wf(self) -> bool {
        match self {
            OwnerTask::Create(task) => !(task is Done),
            OwnerTask::Rect(task) => !(task is Done),
            OwnerTask::Clip(task) => task.wf() && !(task is Done),
            OwnerTask::Present(task) => task.wf() && !(task.stage is Done),
            OwnerTask::Overlay(task) => task.wf() && !(task is Done),
            OwnerTask::Done(_) => true,
        }
    }

    /// The question that the task waits on.
    pub open spec fn asked(self) -> OwnerAsk {
        match self {
            OwnerTask::Create(task) => task.asked(),
            OwnerTask::Rect(task) => task.asked(),
            OwnerTask::Clip(task) => task.asked(),
            OwnerTask::Present(task) => task.asked(),
            OwnerTask::Overlay(task) => task.asked(),
            OwnerTask::Done(_) => OwnerAsk::Finished,
        }
    }

    /// The answer is one that the task can go on with.
    pub open spec fn accepts(self, answer: OwnerAnswer<E>) -> bool {
        match self {
            OwnerTask::Overlay(task) => task.accepts(answer),
            _ => answers(self.asked(), answer),
        }
    }

    /// The task after `answer`: each kind goes on by its own rules, and what it ends with becomes
    /// the reply.
    pub open spec fn next(self, answer: OwnerAnswer<E>) -> OwnerTask<E> {
        match self {
            OwnerTask::Create(task) => match task.next(answer).0 {
                CreateGhost::Done { reply } => OwnerTask::Done(OwnerReply::Created(reply)),
                task => OwnerTask::Create(task),
            },
            OwnerTask::Rect(task) => match task.next(answer) {
                UpdateGhost::Done { reply } => OwnerTask::Done(OwnerReply::Updated(reply)),
                task => OwnerTask::Rect(task),
            },
            OwnerTask::Clip(task) => match task.next(answer) {
                UpdateClip::Done { reply } => OwnerTask::Done(OwnerReply::Updated(reply)),
                task => OwnerTask::Clip(task),
            },
            OwnerTask::Present(task) => match frame_next(
                task.clips@,
                task.stage,
                answer,
            ).0 {
                FrameStage::Done => OwnerTask::Done(OwnerReply::Presented),
                stage => OwnerTask::Present(PresentFrame { clips: task.clips, stage }),
            },
            OwnerTask::Overlay(task) => match task.next(answer).0 {
                CreateOverlay::Done { reply } => OwnerTask::Done(OwnerReply::Overlaid(reply)),
                task => OwnerTask::Overlay(task),
            },
            OwnerTask::Done(_) => self,
        }
    }

    /// The calls to make after `answer`. A frame that is over waits for composition.
    pub open spec fn next_calls(self, answer: OwnerAnswer<E>) -> Seq<OwnerCall> {
        match self {
            OwnerTask::Create(task) => task.next(answer).1,
            OwnerTask::Present(task) => {
                let (stage, calls) = frame_next(task.clips@, task.stage, answer);
                if stage is Done {
                    calls.push(OwnerCall::Flush)
                } else {
                    calls
                }
            },
            OwnerTask::Overlay(task) => task.next(answer).1,
            _ => seq![],
        }
    }

    fn from_clip(task: UpdateClip<E>) -> (r: OwnerTask<E>)
        ensures
            r == match task {
                UpdateClip::Done { reply } => OwnerTask::Done(OwnerReply::Updated(reply)),
                task => OwnerTask::Clip(task),
            },
    {
        match task {
            UpdateClip::Done { reply } => OwnerTask::Done(OwnerReply::Updated(reply)),
            task => OwnerTask::Clip(task),
        }
    }

    fn from_overlay(task: CreateOverlay<E>) -> (r: OwnerTask<E>)
        ensures
            r == match task {
                CreateOverlay::Done { reply } => OwnerTask::Done(OwnerReply::Overlaid(reply)),
                task => OwnerTask::Overlay(task),
            },
    {
        match task {
            CreateOverlay::Done { reply } => OwnerTask::Done(OwnerReply::Overlaid(reply)),
            task => OwnerTask::Overlay(task),
        }
    }

    /// Whether the task can go on with `answer`, which is an answer to `ask`, the question that the
    /// task has asked.
    pub fn is_acceptable(&self, ask: &OwnerAsk, answer: &OwnerAnswer<E>) -> (r: bool)
        requires
            *ask == self.asked(),
        ensures
            r == self.accepts(*answer),
    {
        if !is_answer(ask, answer) {
            return false;
        }
        match (self, answer) {
            (
                OwnerTask::Overlay(CreateOverlay::DesktopRect { request, .. }),
                OwnerAnswer::Area(desktop),
            ) => desktop_area_fits(&request.host, desktop),
            _ => true,
        }
    }

    /// Go on with the answer to the question.
    pub fn resume(self, answer: OwnerAnswer<E>) -> (r: (OwnerTask<E>, OwnerStep))
        requires
            self.wf(),
            self.accepts(answer),
        ensures
            r.0 == self.next(answer),
            r.0.wf(),
            r.1.calls@ == self.next_calls(answer),
            r.1.ask == r.0.asked(),
    {
        match self {
            OwnerTask::Create(task) => {
                let (task, next) = task.resume(answer);
                match task {
                    CreateGhost::Done { reply } => (
                        OwnerTask::Done(OwnerReply::Created(reply)),
                        next,
                    ),
                    task => (OwnerTask::Create(task), next),
                }
            },
            OwnerTask::Rect(task) => {
                let (task, next) = task.resume(answer);
                match task {
                    UpdateGhost::Done { reply } => (
                        OwnerTask::Done(OwnerReply::Updated(reply)),
                        next,
                    ),
                    task => (OwnerTask::Rect(task), next),
                }
            },
            OwnerTask::Clip(task) => {
                let (task, next) = task.resume(answer);
                (OwnerTask::from_clip(task), next)
            },
            OwnerTask::Present(task) => {
                let (task, next) = task.resume(answer);
                if matches!(task.stage, FrameStage::Done) {
                    let mut calls = next.calls;
                    calls.push(OwnerCall::Flush);
                    (OwnerTask::Done(OwnerReply::Presented), step(calls, OwnerAsk::Finished))
                } else {
                    (OwnerTask::Present(task), next)
                }
            },
            OwnerTask::Overlay(task) => {
                let (task, next) = task.resume(answer);
                (OwnerTask::from_overlay(task), next)
            },
            OwnerTask::Done(reply) => (
                OwnerTask::Done(reply),
                step(Vec::new(), OwnerAsk::Finished),
            ),
        }
    }
}

/// Destroying a ghost gives back exactly what its creation handed out.
pub proof fn law_destroy_undoes_create<E>(host: isize, hthumb: isize)
    ensures
        given_back(task_start_calls(GhostCmd::Destroy { host_hwnd: host, hthumb }))
            == (CreateGhost::<E>::Done { reply: Ok((host, hthumb)) }).holds(),
{
    lemma_given_back_unfolds(destroy_ghost_calls(host, hthumb));
    assert(given_back(destroy_ghost_calls(host, hthumb)) =~= Holdings::host(host).plus(
        Holdings::thumb(hthumb),
    ));
}

/// Destroying an overlay gives back exactly what its creation handed out.
pub proof fn law_destroy_overlay_undoes_create<E>(host: isize, hdesktop: isize, hthumb: isize)
    ensures
        given_back(
            task_start_calls(GhostCmd::DestroyOverlay { host_hwnd: host, hdesktop, hthumb }),
        ) == (CreateOverlay::<E>::Done { reply: Ok((host, hdesktop, hthumb)) }).holds(),
{
    lemma_given_back_unfolds(destroy_overlay_calls(host, hdesktop, hthumb));
    assert(given_back(destroy_overlay_calls(host, hdesktop, hthumb)) =~= overlay_holdings(
        host,
        hdesktop,
        hthumb,
    ));
}

/// A command is refused only where the far edge of a crop that it shows leaves the range of `i32`.
pub proof fn law_command_is_refused_only_out_of_range(cmd: GhostCmd)
    requires
        !cmd_fits(cmd),
    ensures
        match cmd {
            GhostCmd::UpdateClip { clip } => crop_is_out_of_range(clip),
            GhostCmd::CreateOverlay { clip, .. } => crop_is_out_of_range(clip),
            GhostCmd::Present { clips } => exists|i: int|
                0 <= i < clips@.len() && crop_is_out_of_range(#[trigger] clips@[i]),
            _ => false,
        },
{
    if let GhostCmd::Present { clips } = cmd {
        let i = choose|i: int| 0 <= i < clips@.len() && !clip_fits(#[trigger] clips@[i]);
        assert(crop_is_out_of_range(clips@[i]));
    }
}

/// The clip is shown, and the far edge of its crop is not one of `i32`.
pub open spec fn crop_is_out_of_range(clip: GhostClip) -> bool {
    clip.host is Some && !(-0x8000_0000 <= clip.source_x + clip.source_width <= 0x7fff_ffff
        && -0x8000_0000 <= clip.source_y + clip.source_height <= 0x7fff_ffff)
}

/// Each command starts the work that it names, on exactly what it names, and no other.
pub proof fn law_commands_start_their_work<E>(
    src_hwnd: isize,
    rect: Rect,
    z_above: Option<isize>,
    visible: bool,
    host_hwnd: isize,
    hdesktop: isize,
    hthumb: isize,
    clip: GhostClip,
    clips: Vec<GhostClip>,
)
    ensures
        task_start::<E>(GhostCmd::Create { src_hwnd, start_rect: rect, z_above, visible })
            matches OwnerTask::Create(CreateGhost::Instance { request }) && {
            &&& request.src_hwnd == src_hwnd && request.start_rect == rect
            &&& request.z_above == z_above && request.visible == visible
        },
        task_start_calls(
            GhostCmd::Create { src_hwnd, start_rect: rect, z_above, visible },
        ).len() == 0,
        task_start::<E>(GhostCmd::UpdateRect { host_hwnd, hthumb, rect }) == OwnerTask::Rect(
            UpdateGhost::<E>::Move { host_hwnd, hthumb, rect },
        ),
        clip.host matches Some(host) ==> {
            &&& task_start::<E>(GhostCmd::UpdateClip { clip }) == OwnerTask::Clip(
                UpdateClip::<E>::Move { clip, host },
            )
            &&& task_start::<E>(GhostCmd::CreateOverlay { src_hwnd, clip })
                matches OwnerTask::Overlay(CreateOverlay::Shell { request }) && {
                &&& request.src_hwnd == src_hwnd && request.clip == clip && request.host == host
            }
        },
        clip.host is None ==> {
            &&& task_start::<E>(GhostCmd::UpdateClip { clip }) == OwnerTask::<E>::Done(
                OwnerReply::Updated(Ok(())),
            )
            &&& task_start::<E>(GhostCmd::CreateOverlay { src_hwnd, clip }) == OwnerTask::<E>::Done(
                OwnerReply::Overlaid(Err(OverlayError::OffScreen)),
            )
        },
        task_start::<E>(GhostCmd::Present { clips }) matches OwnerTask::Present(frame)
            && frame.clips == clips && (clips@.len() <= 0x7fff_ffff ==> frame.stage is Begin),
        task_start_calls(GhostCmd::UpdateRect { host_hwnd, hthumb, rect }).len() == 0,
        task_start_calls(GhostCmd::Present { clips }).len() == 0,
        task_start_calls(GhostCmd::CreateOverlay { src_hwnd, clip }).len() == 0,
        clip.host is Some ==> task_start_calls(GhostCmd::UpdateClip { clip }).len() == 0,
        clip.host is None ==> task_start_calls(GhostCmd::UpdateClip { clip }) == seq![
            OwnerCall::Show { hwnd: clip.host_hwnd, command: 0 },
        ],
        task_start_calls(GhostCmd::Destroy { host_hwnd, hthumb }) == seq![
            OwnerCall::Unregister { hthumb },
            OwnerCall::DestroyWindow { hwnd: host_hwnd },
        ],
        task_start_calls(GhostCmd::DestroyOverlay { host_hwnd, hdesktop, hthumb }) == seq![
            OwnerCall::Unregister { hthumb: hdesktop },
            OwnerCall::Unregister { hthumb },
            OwnerCall::DestroyWindow { hwnd: host_hwnd },
        ],
        task_start::<E>(GhostCmd::Destroy { host_hwnd, hthumb }) == OwnerTask::<E>::Done(
            OwnerReply::Nothing,
        ),
        task_start::<E>(GhostCmd::DestroyOverlay { host_hwnd, hdesktop, hthumb }) == OwnerTask::<
            E,
        >::Done(OwnerReply::Nothing),
{
    lemma_visible_clips_counts(clips@);
}

/// A command ends exactly when its work does, and is answered with what the work ended with; it
/// asks what the work asks.
pub proof fn law_commands_are_answered_with_their_outcome<E>(
    create: CreateGhost<E>,
    rect: UpdateGhost<E>,
    clip: UpdateClip<E>,
    overlay: CreateOverlay<E>,
    answer: OwnerAnswer<E>,
)
    ensures
        OwnerTask::Create(create).asked() == create.asked(),
        OwnerTask::Rect(rect).asked() == rect.asked(),
        OwnerTask::Clip(clip).asked() == clip.asked(),
        OwnerTask::Overlay(overlay).asked() == overlay.asked(),
        OwnerTask::Create(create).next_calls(answer) == create.next(answer).1,
        OwnerTask::Overlay(overlay).next_calls(answer) == overlay.next(answer).1,
        OwnerTask::Rect(rect).next_calls(answer).len() == 0,
        OwnerTask::Clip(clip).next_calls(answer).len() == 0,
        match create.next(answer).0 {
            CreateGhost::Done { reply } => OwnerTask::Create(create).next(answer)
                == OwnerTask::Done(OwnerReply::Created(reply)),
            later => OwnerTask::Create(create).next(answer) == OwnerTask::Create(later),
        },
        match rect.next(answer) {
            UpdateGhost::Done { reply } => OwnerTask::Rect(rect).next(answer) == OwnerTask::Done(
                OwnerReply::Updated(reply),
            ),
            later => OwnerTask::Rect(rect).next(answer) == OwnerTask::Rect(later),
        },
        match clip.next(answer) {
            UpdateClip::Done { reply } => OwnerTask::Clip(clip).next(answer) == OwnerTask::Done(
                OwnerReply::Updated(reply),
            ),
            later => OwnerTask::Clip(clip).next(answer) == OwnerTask::Clip(later),
        },
        match overlay.next(answer).0 {
            CreateOverlay::Done { reply } => OwnerTask::Overlay(overlay).next(answer)
                == OwnerTask::Done(OwnerReply::Overlaid(reply)),
            later => OwnerTask::Overlay(overlay).next(answer) == OwnerTask::Overlay(later),
        },
{
}

/// Whoever waits for a frame is answered only once it has been composed, and always then.
pub proof fn law_frame_is_composed_before_the_reply<E>(task: OwnerTask<E>, answer: OwnerAnswer<E>)
    requires
        task is Present,
        task.wf(),
        task.accepts(answer),
    ensures
        task.next(answer) is Done ==> {
            &&& task.next(answer) == OwnerTask::<E>::Done(OwnerReply::Presented)
            &&& task.next_calls(answer).len() > 0
            &&& task.next_calls(answer).last() is Flush
            &&& task.next_calls(answer).drop_last() == frame_next(
                task->Present_0.clips@,
                task->Present_0.stage,
                answer,
            ).1
        },
        !(task.next(answer) is Done) ==> {
            &&& task.next(answer) is Present
            &&& task.next(answer)->Present_0.clips == task->Present_0.clips
            &&& (task.next(answer)->Present_0.stage, task.next_calls(answer)) == frame_next(
                task->Present_0.clips@,
                task->Present_0.stage,
                answer,
            )
        },
        task.next(answer) is Done <==> frame_next(
            task->Present_0.clips@,
            task->Present_0.stage,
            answer,
        ).0 is Done,
{
}

// ---------------------------------------------------------------------------------------------
// The loop
// ---------------------------------------------------------------------------------------------

/// What the owner thread does next.
#[derive(Clone, Copy, Debug, PartialEq, Eq, Structural)]
pub enum OwnerLoop {
    /// Find the instance that the window class belongs to.
    Instance,
    /// Register the window class. That it is registered already is no failure, so the result does
    /// not matter.
    RegisterClass { instance: isize },
    /// Look for a window message.
    Drain,
    /// Translate and dispatch the message that was found.
    Dispatch,
    /// Wait for a command, no longer than [`COMMAND_WAIT_MS`].
    Receive,
    /// Carry out the command that has arrived.
    Handle,
    /// Leave the loop.
    Stop,
}

/// What came of it.
#[derive(Clone, Copy, Debug, PartialEq, Eq, Structural)]
pub enum LoopEvent {
    /// It is done.
    Done,
    Instance(isize),
    /// There is no instance.
    NoInstance,
    /// A window message was waiting.
    Message,
    /// No window message is waiting.
    Empty,
    /// A command has arrived.
    Command,
    TimedOut,
    Disconnected,
}

/// What the owner thread starts with: its window class.
pub fn register_ghost_class() -> (r: OwnerLoop)
    ensures
        r is Instance,
{
    OwnerLoop::Instance
}

/// What comes next. Messages are drained before each wait for a command; without an instance there
/// are no hosts, so the thread stops; it stops too once nobody can send a command any more.
pub open spec fn loop_next(at: OwnerLoop, event: LoopEvent) -> OwnerLoop {
    match (at, event) {
        (OwnerLoop::Instance, LoopEvent::Instance(instance)) => OwnerLoop::RegisterClass {
            instance,
        },
        (OwnerLoop::Instance, _) => OwnerLoop::Stop,
        (OwnerLoop::RegisterClass { .. }, _) => OwnerLoop::Drain,
        (OwnerLoop::Drain, LoopEvent::Message) => OwnerLoop::Dispatch,
        (OwnerLoop::Drain, _) => OwnerLoop::Receive,
        (OwnerLoop::Dispatch, _) => OwnerLoop::Drain,
        (OwnerLoop::Receive, LoopEvent::Command) => OwnerLoop::Handle,
        (OwnerLoop::Receive, LoopEvent::Disconnected) => OwnerLoop::Stop,
        (OwnerLoop::Receive, _) => OwnerLoop::Drain,
        (OwnerLoop::Handle, _) => OwnerLoop::Drain,
        (OwnerLoop::Stop, _) => OwnerLoop::Stop,
    }
}

/// The owner waits for a command only when no window message is left, carries out every command
/// that arrives, and stops only when it has no instance or nobody can send a command any more.
pub proof fn law_owner_drains_before_it_waits(at: OwnerLoop, event: LoopEvent)
    ensures
        loop_next(at, event) is Receive ==> at is Drain && !(event is Message),
        at is Receive && event is Command <==> loop_next(at, event) is Handle,
        loop_next(at, event) is Stop && !(at is Stop) <==> (at is Instance && !(event is Instance)
            || at is Receive && event is Disconnected),
        at is Stop ==> loop_next(at, event) is Stop,
        at is Instance ==> (event matches LoopEvent::Instance(instance) ==> loop_next(at, event)
            == OwnerLoop::RegisterClass { instance }),
        loop_next(at, event) is Dispatch <==> at is Drain && event is Message,
        at is Drain && !(event is Message) ==> loop_next(at, event) is Receive,
        at is RegisterClass || at is Dispatch || at is Handle ==> loop_next(at, event) is Drain,
        at is Receive && event is TimedOut ==> loop_next(at, event) is Drain,
        COMMAND_WAIT_MS == 8,
{
}

/// Go on with the owner loop.
pub fn run_owner_loop(at: OwnerLoop, event: LoopEvent) -> (r: OwnerLoop)
    ensures
        r == loop_next(at, event),
{
    match (at, event) {
        (OwnerLoop::Instance, LoopEvent::Instance(instance)) => OwnerLoop::RegisterClass {
            instance,
        },
        (OwnerLoop::Instance, _) => OwnerLoop::Stop,
        (OwnerLoop::RegisterClass { .. }, _) => OwnerLoop::Drain,
        (OwnerLoop::Drain, LoopEvent::Message) => OwnerLoop::Dispatch,
        (OwnerLoop::Drain, _) => OwnerLoop::Receive,
        (OwnerLoop::Dispatch, _) => OwnerLoop::Drain,
        (OwnerLoop::Receive, LoopEvent::Command) => OwnerLoop::Handle,
        (OwnerLoop::Receive, LoopEvent::Disconnected) => OwnerLoop::Stop,
        (OwnerLoop::Receive, _) => OwnerLoop::Drain,
        (OwnerLoop::Handle, _) => OwnerLoop::Drain,
        (OwnerLoop::Stop, _) => OwnerLoop::Stop,
    }
}

} // verus!

//! Creating a reveal overlay: an opaque copy of what a ghost showed, with the desktop under it.
use vstd::prelude::*;

use crate::geometry::{fits_i32, is_i32, Rect};
use crate::ghost::{
    clip_properties, crop_properties, source_fits, GhostClip, ThumbnailProperties,
};
use crate::owner::{
    answers, given_back, lemma_given_back_unfolds, made, step, Holdings, OwnerAnswer,
    OwnerAsk, OwnerCall, OwnerStep, PosFlags, ZOrder, LAYERED, SHOW_NO_ACTIVATE,
};

verus! {

/// Why an overlay could not be created.
#[derive(Debug, PartialEq, Eq)]
pub enum OverlayError<E> {
    /// The clip shows nothing of the source.
    OffScreen,
    /// There is no desktop to draw under the source.
    NoShell,
    /// A call failed.
    Call(E),
}

/// The overlay that is to be created: `host` is the area of the clip.
#[derive(Clone, Copy, Debug, PartialEq, Eq, Structural)]
pub struct OverlayRequest {
    pub src_hwnd: isize,
    pub clip: GhostClip,
    pub host: Rect,
}

/// The part of the desktop window under `host`, and its far edges, are coordinates of `i32`.
pub open spec fn desktop_fits(host: Rect, desktop: Rect) -> bool {
    &&& fits_i32(host.left - desktop.left)
    &&& fits_i32(host.top - desktop.top)
    &&& source_fits(
        host.left - desktop.left,
        host.top - desktop.top,
        host.right as int,
        host.bottom as int,
    )
}

/// Whether the part of the desktop window under `host` can be named in the range of `i32`.
pub fn desktop_area_fits(host: &Rect, desktop: &Rect) -> (r: bool)
    ensures
        r == desktop_fits(*host, *desktop),
{
    let x: i64 = host.left as i64 - desktop.left as i64;
    let y: i64 = host.top as i64 - desktop.top as i64;
    let right: i64 = x + host.right as i64;
    let bottom: i64 = y + host.bottom as i64;
    is_i32(x) && is_i32(y) && is_i32(right) && is_i32(bottom)
}

impl OverlayRequest {
    /// The copy of the source: the crop that the ghost showed.
    pub open spec fn source_properties(self) -> ThumbnailProperties {
        crop_properties(
            self.host,
            self.clip.source_x as int,
            self.clip.source_y as int,
            self.clip.source_width as int,
            self.clip.source_height as int,
        )
    }

    /// The part of the desktop that lies under the host, at its own size.
    pub open spec fn desktop_properties(self, desktop: Rect) -> ThumbnailProperties {
        crop_properties(
            self.host,
            self.host.left - desktop.left,
            self.host.top - desktop.top,
            self.host.right as int,
            self.host.bottom as int,
        )
    }

    pub open spec fn fits(self) -> bool {
        source_fits(
            self.clip.source_x as int,
            self.clip.source_y as int,
            self.clip.source_width as int,
            self.clip.source_height as int,
        )
    }

    /// The call that lays the host over everything else.
    pub open spec fn place_call(self, host_hwnd: isize) -> OwnerCall {
        OwnerCall::SetPos {
            hwnd: host_hwnd,
            z: ZOrder::Topmost,
            rect: self.host,
            flags: PosFlags {
                no_activate: true,
                no_z_order: false,
                no_redraw: true,
                show_window: false,
            },
        }
    }
}

/// How far the creation of an overlay has come: each stage waits for the answer to one question.
#[derive(Debug, PartialEq, Eq)]
pub enum CreateOverlay<E> {
    Shell { request: OverlayRequest },
    DesktopRect { request: OverlayRequest, shell: isize },
    Instance { request: OverlayRequest, shell: isize, desktop: Rect },
    Host { request: OverlayRequest, shell: isize, desktop: Rect, instance: isize },
    Style { request: OverlayRequest, shell: isize, desktop: Rect, host: isize },
    Opaque { request: OverlayRequest, shell: isize, desktop: Rect, host: isize },
    DesktopThumb { request: OverlayRequest, shell: isize, desktop: Rect, host: isize },
    DesktopProps { request: OverlayRequest, desktop: Rect, host: isize, hdesktop: isize },
    SourceThumb { request: OverlayRequest, host: isize, hdesktop: isize },
    SourceProps { request: OverlayRequest, host: isize, hdesktop: isize, hthumb: isize },
    /// Host, desktop thumbnail and source thumbnail, or why there is no overlay.
    Done { reply: Result<(isize, isize, isize), OverlayError<E>> },
}

/// Start to create a topmost, layered host that draws the desktop under the clip with the source
/// window over it: what its ghost looked like, but opaque, so fading the host crossfades to
/// whatever the real window shows beneath.
pub fn create_overlay<E>(src_hwnd: isize, clip: GhostClip) -> (r: (CreateOverlay<E>, OwnerStep))
    requires
        clip.host is Some ==> source_fits(
            clip.source_x as int,
            clip.source_y as int,
            clip.source_width as int,
            clip.source_height as int,
        ),
    ensures
        r.0 == overlay_start::<E>(src_hwnd, clip),
        r.0.wf(),
        r.1.calls@ == Seq::<OwnerCall>::empty(),
        r.1.ask == r.0.asked(),
{
    match clip.host {
        None => (
            CreateOverlay::Done { reply: Err(OverlayError::OffScreen) },
            step(Vec::new(), OwnerAsk::Finished),
        ),
        Some(host) => (
            CreateOverlay::Shell { request: OverlayRequest { src_hwnd, clip, host } },
            step(Vec::new(), OwnerAsk::ShellWindow),
        ),
    }
}

/// The first stage: a clip that shows nothing ends the creation before it begins.
pub open spec fn overlay_start<E>(src_hwnd: isize, clip: GhostClip) -> CreateOverlay<E> {
    match clip.host {
        None => CreateOverlay::Done { reply: Err(OverlayError::OffScreen) },
        Some(host) => CreateOverlay::Shell { request: OverlayRequest { src_hwnd, clip, host } },
    }
}

impl<E> CreateOverlay<E> {
    /// Every coordinate that a later stage computes stays inside the range of `i32`.
    pub open spec fn wf(self) -> bool {
        match self {
            CreateOverlay::Shell { request } => request.fits(),
            CreateOverlay::DesktopRect { request, .. } => request.fits(),
            CreateOverlay::Instance { request, desktop, .. } => request.fits() && desktop_fits(
                request.host,
                desktop,
            ),
            CreateOverlay::Host { request, desktop, .. } => request.fits() && desktop_fits(
                request.host,
                desktop,
            ),
            CreateOverlay::Style { request, desktop, .. } => request.fits() && desktop_fits(
                request.host,
                desktop,
            ),
            CreateOverlay::Opaque { request, desktop, .. } => request.fits() && desktop_fits(
                request.host,
                desktop,
            ),
            CreateOverlay::DesktopThumb { request, desktop, .. } => request.fits()
                && desktop_fits(request.host, desktop),
            CreateOverlay::DesktopProps { request, desktop, .. } => request.fits()
                && desktop_fits(request.host, desktop),
            CreateOverlay::SourceThumb { request, .. } => request.fits(),
            CreateOverlay::SourceProps { request, .. } => request.fits(),
            CreateOverlay::Done { .. } => true,
        }
    }

    /// The question that the stage waits on.
    pub open spec fn asked(self) -> OwnerAsk {
        match self {
            CreateOverlay::Shell { .. } => OwnerAsk::ShellWindow,
            CreateOverlay::DesktopRect { shell, .. } => OwnerAsk::OuterRect { hwnd: shell },
            CreateOverlay::Instance { .. } => OwnerAsk::Instance,
            CreateOverlay::Host { instance, .. } => OwnerAsk::CreateHost { instance },
            CreateOverlay::Style { host, .. } => OwnerAsk::ExStyle { hwnd: host },
            CreateOverlay::Opaque { host, .. } => OwnerAsk::SetTransparent {
                hwnd: host,
                alpha: 255,
            },
            CreateOverlay::DesktopThumb { shell, host, .. } => OwnerAsk::RegisterThumb {
                host_hwnd: host,
                src_hwnd: shell,
            },
            CreateOverlay::DesktopProps { request, desktop, hdesktop, .. } => {
                OwnerAsk::UpdateThumb {
                    hthumb: hdesktop,
                    props: request.desktop_properties(desktop),
                }
            },
            CreateOverlay::SourceThumb { request, host, .. } => OwnerAsk::RegisterThumb {
                host_hwnd: host,
                src_hwnd: request.src_hwnd,
            },
            CreateOverlay::SourceProps { request, hthumb, .. } => OwnerAsk::UpdateThumb {
                hthumb,
                props: request.source_properties(),
            },
            CreateOverlay::Done { .. } => OwnerAsk::Finished,
        }
    }

    /// The answer is of the kind that the question asks for, and a desktop area lets the part under
    /// the host be named.
    pub open spec fn accepts(self, answer: OwnerAnswer<E>) -> bool {
        &&& answers(self.asked(), answer)
        &&& match (self, answer) {
            (CreateOverlay::DesktopRect { request, .. }, OwnerAnswer::Area(desktop)) => {
                desktop_fits(request.host, desktop)
            },
            _ => true,
        }
    }

    /// The stage after `answer`, and the calls to make on the way there. A failure takes down what
    /// the stages before have made, thumbnails first. The source is registered after the desktop,
    /// so it draws over it.
    pub open spec fn next(self, answer: OwnerAnswer<E>) -> (CreateOverlay<E>, Seq<OwnerCall>) {
        match (self, answer) {
            (CreateOverlay::Shell { request }, OwnerAnswer::Handle(shell)) => (
                CreateOverlay::DesktopRect { request, shell },
                seq![],
            ),
            (CreateOverlay::Shell { .. }, OwnerAnswer::Nothing) => (
                CreateOverlay::Done { reply: Err(OverlayError::NoShell) },
                seq![],
            ),
            (CreateOverlay::DesktopRect { request, shell }, OwnerAnswer::Area(desktop)) => (
                CreateOverlay::Instance { request, shell, desktop },
                seq![],
            ),
            (CreateOverlay::DesktopRect { .. }, OwnerAnswer::Failed(error)) => (
                CreateOverlay::Done { reply: Err(OverlayError::Call(error)) },
                seq![],
            ),
            (
                CreateOverlay::Instance { request, shell, desktop },
                OwnerAnswer::Handle(instance),
            ) => (CreateOverlay::Host { request, shell, desktop, instance }, seq![]),
            (CreateOverlay::Instance { .. }, OwnerAnswer::Failed(error)) => (
                CreateOverlay::Done { reply: Err(OverlayError::Call(error)) },
                seq![],
            ),
            (CreateOverlay::Host { request, shell, desktop, .. }, OwnerAnswer::Handle(host)) => (
                CreateOverlay::Style { request, shell, desktop, host },
                seq![],
            ),
            (CreateOverlay::Host { .. }, OwnerAnswer::Failed(error)) => (
                CreateOverlay::Done { reply: Err(OverlayError::Call(error)) },
                seq![],
            ),
            (CreateOverlay::Style { request, shell, desktop, host }, OwnerAnswer::Handle(style)) => (
                CreateOverlay::Opaque { request, shell, desktop, host },
                seq![OwnerCall::SetExStyle { hwnd: host, style: style | LAYERED }],
            ),
            (CreateOverlay::Opaque { request, shell, desktop, host }, OwnerAnswer::Done) => (
                CreateOverlay::DesktopThumb { request, shell, desktop, host },
                seq![request.place_call(host)],
            ),
            (CreateOverlay::Opaque { host, .. }, OwnerAnswer::Failed(error)) => (
                CreateOverlay::Done { reply: Err(OverlayError::Call(error)) },
                seq![OwnerCall::DestroyWindow { hwnd: host }],
            ),
            (
                CreateOverlay::DesktopThumb { request, desktop, host, .. },
                OwnerAnswer::Handle(hdesktop),
            ) => (CreateOverlay::DesktopProps { request, desktop, host, hdesktop }, seq![]),
            (CreateOverlay::DesktopThumb { host, .. }, OwnerAnswer::Failed(error)) => (
                CreateOverlay::Done { reply: Err(OverlayError::Call(error)) },
                seq![OwnerCall::DestroyWindow { hwnd: host }],
            ),
            (CreateOverlay::DesktopProps { request, host, hdesktop, .. }, OwnerAnswer::Done) => (
                CreateOverlay::SourceThumb { request, host, hdesktop },
                seq![],
            ),
            (CreateOverlay::DesktopProps { host, hdesktop, .. }, OwnerAnswer::Failed(error)) => (
                CreateOverlay::Done { reply: Err(OverlayError::Call(error)) },
                seq![
                    OwnerCall::Unregister { hthumb: hdesktop },
                    OwnerCall::DestroyWindow { hwnd: host },
                ],
            ),
            (
                CreateOverlay::SourceThumb { request, host, hdesktop },
                OwnerAnswer::Handle(hthumb),
            ) => (CreateOverlay::SourceProps { request, host, hdesktop, hthumb }, seq![]),
            (CreateOverlay::SourceThumb { host, hdesktop, .. }, OwnerAnswer::Failed(error)) => (
                CreateOverlay::Done { reply: Err(OverlayError::Call(error)) },
                seq![
                    OwnerCall::Unregister { hthumb: hdesktop },
                    OwnerCall::DestroyWindow { hwnd: host },
                ],
            ),
            (CreateOverlay::SourceProps { host, hdesktop, hthumb, .. }, OwnerAnswer::Done) => (
                CreateOverlay::Done { reply: Ok((host, hdesktop, hthumb)) },
                seq![OwnerCall::Show { hwnd: host, command: SHOW_NO_ACTIVATE }],
            ),
            (
                CreateOverlay::SourceProps { host, hdesktop, hthumb, .. },
                OwnerAnswer::Failed(error),
            ) => (
                CreateOverlay::Done { reply: Err(OverlayError::Call(error)) },
                seq![
                    OwnerCall::Unregister { hthumb: hdesktop },
                    OwnerCall::Unregister { hthumb },
                    OwnerCall::DestroyWindow { hwnd: host },
                ],
            ),
            _ => (self, seq![]),
        }
    }

    /// Go on with the answer to the question.
    pub fn resume(self, answer: OwnerAnswer<E>) -> (r: (CreateOverlay<E>, OwnerStep))
        requires
            self.wf(),
            self.accepts(answer),
        ensures
            (r.0, r.1.calls@) == self.next(answer),
            r.0.wf(),
            r.1.ask == r.0.asked(),
    {
        match (self, answer) {
            (CreateOverlay::Shell { request }, OwnerAnswer::Handle(shell)) => (
                CreateOverlay::DesktopRect { request, shell },
                step(Vec::new(), OwnerAsk::OuterRect { hwnd: shell }),
            ),
            (CreateOverlay::Shell { .. }, OwnerAnswer::Nothing) => (
                CreateOverlay::Done { reply: Err(OverlayError::NoShell) },
                step(Vec::new(), OwnerAsk::Finished),
            ),
            (CreateOverlay::DesktopRect { request, shell }, OwnerAnswer::Area(desktop)) => (
                CreateOverlay::Instance { request, shell, desktop },
                step(Vec::new(), OwnerAsk::Instance),
            ),
            (CreateOverlay::DesktopRect { .. }, OwnerAnswer::Failed(error)) => {
                Self::give_up(Vec::new(), error)
            },
            (
                CreateOverlay::Instance { request, shell, desktop },
                OwnerAnswer::Handle(instance),
            ) => (
                CreateOverlay::Host { request, shell, desktop, instance },
                step(Vec::new(), OwnerAsk::CreateHost { instance }),
            ),
            (CreateOverlay::Instance { .. }, OwnerAnswer::Failed(error)) => {
                Self::give_up(Vec::new(), error)
            },
            (CreateOverlay::Host { request, shell, desktop, .. }, OwnerAnswer::Handle(host)) => (
                CreateOverlay::Style { request, shell, desktop, host },
                step(Vec::new(), OwnerAsk::ExStyle { hwnd: host }),
            ),
            (CreateOverlay::Host { .. }, OwnerAnswer::Failed(error)) => {
                Self::give_up(Vec::new(), error)
            },
            (CreateOverlay::Style { request, shell, desktop, host }, OwnerAnswer::Handle(style)) => (
                CreateOverlay::Opaque { request, shell, desktop, host },
                step(
                    vec![OwnerCall::SetExStyle { hwnd: host, style: style | LAYERED }],
                    OwnerAsk::SetTransparent { hwnd: host, alpha: 255 },
                ),
            ),
            (CreateOverlay::Opaque { request, shell, desktop, host }, OwnerAnswer::Done) => {
                let flags = PosFlags {
                    no_activate: true,
                    no_z_order: false,
                    no_redraw: true,
                    show_window: false,
                };
                let place = OwnerCall::SetPos {
                    hwnd: host,
                    z: ZOrder::Topmost,
                    rect: request.host,
                    flags,
                };
                (
                    CreateOverlay::DesktopThumb { request, shell, desktop, host },
                    step(
                        vec![place],
                        OwnerAsk::RegisterThumb { host_hwnd: host, src_hwnd: shell },
                    ),
                )
            },
            (CreateOverlay::Opaque { host, .. }, OwnerAnswer::Failed(error)) => {
                Self::give_up(vec![OwnerCall::DestroyWindow { hwnd: host }], error)
            },
            (
                CreateOverlay::DesktopThumb { request, desktop, host, .. },
                OwnerAnswer::Handle(hdesktop),
            ) => {
                let props = clip_properties(
                    request.host,
                    request.host.left - desktop.left,
                    request.host.top - desktop.top,
                    request.host.right,
                    request.host.bottom,
                );
                (
                    CreateOverlay::DesktopProps { request, desktop, host, hdesktop },
                    step(Vec::new(), OwnerAsk::UpdateThumb { hthumb: hdesktop, props }),
                )
            },
            (CreateOverlay::DesktopThumb { host, .. }, OwnerAnswer::Failed(error)) => {
                Self::give_up(vec![OwnerCall::DestroyWindow { hwnd: host }], error)
            },
            (CreateOverlay::DesktopProps { request, host, hdesktop, .. }, OwnerAnswer::Done) => (
                CreateOverlay::SourceThumb { request, host, hdesktop },
                step(
                    Vec::new(),
                    OwnerAsk::RegisterThumb { host_hwnd: host, src_hwnd: request.src_hwnd },
                ),
            ),
            (CreateOverlay::DesktopProps { host, hdesktop, .. }, OwnerAnswer::Failed(error)) => {
                Self::give_up(
                    vec![
                        OwnerCall::Unregister { hthumb: hdesktop },
                        OwnerCall::DestroyWindow { hwnd: host },
                    ],
                    error,
                )
            },
            (
                CreateOverlay::SourceThumb { request, host, hdesktop },
                OwnerAnswer::Handle(hthumb),
            ) => {
                let props = clip_properties(
                    request.host,
                    request.clip.source_x,
                    request.clip.source_y,
                    request.clip.source_width,
                    request.clip.source_height,
                );
                (
                    CreateOverlay::SourceProps { request, host, hdesktop, hthumb },
                    step(Vec::new(), OwnerAsk::UpdateThumb { hthumb, props }),
                )
            },
            (CreateOverlay::SourceThumb { host, hdesktop, .. }, OwnerAnswer::Failed(error)) => {
                Self::give_up(
                    vec![
                        OwnerCall::Unregister { hthumb: hdesktop },
                        OwnerCall::DestroyWindow { hwnd: host },
                    ],
                    error,
                )
            },
            (CreateOverlay::SourceProps { host, hdesktop, hthumb, .. }, OwnerAnswer::Done) => (
                CreateOverlay::Done { reply: Ok((host, hdesktop, hthumb)) },
                step(
                    vec![OwnerCall::Show { hwnd: host, command: SHOW_NO_ACTIVATE }],
                    OwnerAsk::Finished,
                ),
            ),
            (
                CreateOverlay::SourceProps { host, hdesktop, hthumb, .. },
                OwnerAnswer::Failed(error),
            ) => Self::give_up(
                vec![
                    OwnerCall::Unregister { hthumb: hdesktop },
                    OwnerCall::Unregister { hthumb },
                    OwnerCall::DestroyWindow { hwnd: host },
                ],
                error,
            ),
            (task, _) => (task, step(Vec::new(), OwnerAsk::Finished)),
        }
    }

    /// End with the error of the call that failed, after the given calls.
    fn give_up(calls: Vec<OwnerCall>, error: E) -> (r: (CreateOverlay<E>, OwnerStep))
        ensures
            r.0 == (CreateOverlay::<E>::Done { reply: Err(OverlayError::Call(error)) }),
            r.1.calls == calls,
            r.1.ask is Finished,
    {
        (
            CreateOverlay::Done { reply: Err(OverlayError::Call(error)) },
            step(calls, OwnerAsk::Finished),
        )
    }

    /// What the task has made and not given back at this stage.
    pub open spec fn holds(self) -> Holdings {
        match self {
            CreateOverlay::Shell { .. } => Holdings::none(),
            CreateOverlay::DesktopRect { .. } => Holdings::none(),
            CreateOverlay::Instance { .. } => Holdings::none(),
            CreateOverlay::Host { .. } => Holdings::none(),
            CreateOverlay::Style { host, .. } => Holdings::host(host),
            CreateOverlay::Opaque { host, .. } => Holdings::host(host),
            CreateOverlay::DesktopThumb { host, .. } => Holdings::host(host),
            CreateOverlay::DesktopProps { host, hdesktop, .. } => Holdings::host(host).plus(
                Holdings::thumb(hdesktop),
            ),
            CreateOverlay::SourceThumb { host, hdesktop, .. } => Holdings::host(host).plus(
                Holdings::thumb(hdesktop),
            ),
            CreateOverlay::SourceProps { host, hdesktop, hthumb, .. } => overlay_holdings(
                host,
                hdesktop,
                hthumb,
            ),
            CreateOverlay::Done { reply: Ok((host, hdesktop, hthumb)) } => overlay_holdings(
                host,
                hdesktop,
                hthumb,
            ),
            CreateOverlay::Done { reply: Err(_) } => Holdings::none(),
        }
    }

    /// How many questions are left at most.
    pub open spec fn questions_left(self) -> nat {
        match self {
            CreateOverlay::Shell { .. } => 10,
            CreateOverlay::DesktopRect { .. } => 9,
            CreateOverlay::Instance { .. } => 8,
            CreateOverlay::Host { .. } => 7,
            CreateOverlay::Style { .. } => 6,
            CreateOverlay::Opaque { .. } => 5,
            CreateOverlay::DesktopThumb { .. } => 4,
            CreateOverlay::DesktopProps { .. } => 3,
            CreateOverlay::SourceThumb { .. } => 2,
            CreateOverlay::SourceProps { .. } => 1,
            CreateOverlay::Done { .. } => 0,
        }
    }
}

/// What makes up one overlay.
pub open spec fn overlay_holdings(host: isize, hdesktop: isize, hthumb: isize) -> Holdings {
    Holdings::host(host).plus(Holdings::thumb(hdesktop)).plus(Holdings::thumb(hthumb))
}

/// The stage that the creation of an overlay reaches with the given answers.
pub open spec fn overlay_run<E>(
    src_hwnd: isize,
    clip: GhostClip,
    given: Seq<OwnerAnswer<E>>,
) -> CreateOverlay<E>
    decreases given.len(),
{
    if given.len() == 0 {
        overlay_start(src_hwnd, clip)
    } else {
        overlay_run(src_hwnd, clip, given.drop_last()).next(given.last()).0
    }
}

/// Every answer is one that its stage accepts.
pub open spec fn overlay_run_answered<E>(
    src_hwnd: isize,
    clip: GhostClip,
    given: Seq<OwnerAnswer<E>>,
) -> bool
    decreases given.len(),
{
    given.len() > 0 ==> {
        &&& overlay_run_answered(src_hwnd, clip, given.drop_last())
        &&& overlay_run(src_hwnd, clip, given.drop_last()).accepts(given.last())
    }
}

/// What the whole run has made.
pub open spec fn overlay_run_made<E>(
    src_hwnd: isize,
    clip: GhostClip,
    given: Seq<OwnerAnswer<E>>,
) -> Holdings
    decreases given.len(),
{
    if given.len() == 0 {
        Holdings::none()
    } else {
        overlay_run_made(src_hwnd, clip, given.drop_last()).plus(
            made(overlay_run(src_hwnd, clip, given.drop_last()).asked(), given.last()),
        )
    }
}

/// What the calls of the whole run have given back.
pub open spec fn overlay_run_given_back<E>(
    src_hwnd: isize,
    clip: GhostClip,
    given: Seq<OwnerAnswer<E>>,
) -> Holdings
    decreases given.len(),
{
    if given.len() == 0 {
        Holdings::none()
    } else {
        overlay_run_given_back(src_hwnd, clip, given.drop_last()).plus(
            given_back(overlay_run(src_hwnd, clip, given.drop_last()).next(given.last()).1),
        )
    }
}

/// One step of the creation keeps the books: what it holds and gives back afterwards is what it
/// held and made before.
proof fn lemma_overlay_step_balances<E>(task: CreateOverlay<E>, answer: OwnerAnswer<E>)
    requires
        task.accepts(answer),
    ensures
        task.holds().plus(made(task.asked(), answer)) == task.next(answer).0.holds().plus(
            given_back(task.next(answer).1),
        ),
        !(task.next(answer).0 matches CreateOverlay::Done { reply: Err(_) }) ==> given_back(
            task.next(answer).1,
        ) == Holdings::none(),
        task.next(answer).0.questions_left() < task.questions_left(),
{
    lemma_given_back_unfolds(task.next(answer).1);
    assert(task.holds().plus(made(task.asked(), answer)) =~= task.next(answer).0.holds().plus(
        given_back(task.next(answer).1),
    ));
}

/// Creating an overlay leaks nothing, whatever the window system answers: at every stage, what was
/// made is what was given back together with what the task still holds. A creation that fails has
/// given everything back; one that succeeds holds the host and the two thumbnails that it hands
/// out.
pub proof fn law_create_overlay_never_leaks<E>(
    src_hwnd: isize,
    clip: GhostClip,
    given: Seq<OwnerAnswer<E>>,
)
    requires
        overlay_run_answered(src_hwnd, clip, given),
    ensures
        overlay_run_made(src_hwnd, clip, given) == overlay_run_given_back(
            src_hwnd,
            clip,
            given,
        ).plus(overlay_run(src_hwnd, clip, given).holds()),
        overlay_run(src_hwnd, clip, given) matches CreateOverlay::Done { reply: Err(_) }
            ==> overlay_run_made(src_hwnd, clip, given) == overlay_run_given_back(
            src_hwnd,
            clip,
            given,
        ),
        overlay_run(src_hwnd, clip, given) matches CreateOverlay::Done {
            reply: Ok((host, hdesktop, hthumb)),
        } ==> {
            &&& overlay_run_made(src_hwnd, clip, given) == overlay_holdings(host, hdesktop, hthumb)
            &&& overlay_run_given_back(src_hwnd, clip, given) == Holdings::none()
        },
    decreases given.len(),
{
    let after = overlay_run(src_hwnd, clip, given);
    if given.len() > 0 {
        let before = overlay_run(src_hwnd, clip, given.drop_last());
        law_create_overlay_never_leaks(src_hwnd, clip, given.drop_last());
        lemma_overlay_keeps_all(src_hwnd, clip, given);
        lemma_overlay_step_balances(before, given.last());
        lemma_plus_shuffles(
            overlay_run_given_back(src_hwnd, clip, given.drop_last()),
            before.holds(),
            made(before.asked(), given.last()),
            after.holds(),
            given_back(before.next(given.last()).1),
        );
    } else {
        assert(Holdings::none().plus(Holdings::none()) =~= Holdings::none());
    }
    assert(overlay_run_given_back(src_hwnd, clip, given).plus(Holdings::none())
        =~= overlay_run_given_back(src_hwnd, clip, given));
    assert(Holdings::none().plus(after.holds()) =~= after.holds());
}

/// Nothing is given back before the creation fails.
proof fn lemma_overlay_keeps_all<E>(
    src_hwnd: isize,
    clip: GhostClip,
    given: Seq<OwnerAnswer<E>>,
)
    requires
        overlay_run_answered(src_hwnd, clip, given),
    ensures
        overlay_run(src_hwnd, clip, given) matches CreateOverlay::Done { reply: Err(_) }
            || overlay_run_given_back(src_hwnd, clip, given) == Holdings::none(),
    decreases given.len(),
{
    if given.len() > 0 {
        lemma_overlay_keeps_all(src_hwnd, clip, given.drop_last());
        lemma_overlay_step_balances(
            overlay_run(src_hwnd, clip, given.drop_last()),
            given.last(),
        );
        assert(Holdings::none().plus(Holdings::none()) =~= Holdings::none());
    }
}

proof fn lemma_plus_shuffles(
    returned: Holdings,
    held: Holdings,
    gain: Holdings,
    kept: Holdings,
    loss: Holdings,
)
    requires
        held.plus(gain) == kept.plus(loss),
    ensures
        returned.plus(held).plus(gain) == returned.plus(loss).plus(kept),
{
    assert(returned.plus(held).plus(gain) =~= returned.plus(held.plus(gain)));
    assert(returned.plus(kept.plus(loss)) =~= returned.plus(loss).plus(kept));
}

/// Each answer brings the creation closer to its end: a run asks ten questions at most.
pub proof fn law_create_overlay_ends<E>(
    src_hwnd: isize,
    clip: GhostClip,
    given: Seq<OwnerAnswer<E>>,
)
    requires
        overlay_run_answered(src_hwnd, clip, given),
    ensures
        given.len() + overlay_run(src_hwnd, clip, given).questions_left() <= 10,
        given.len() == 10 ==> overlay_run(src_hwnd, clip, given) is Done,
    decreases given.len(),
{
    if given.len() > 0 {
        law_create_overlay_ends(src_hwnd, clip, given.drop_last());
        lemma_overlay_step_balances(
            overlay_run(src_hwnd, clip, given.drop_last()),
            given.last(),
        );
    }
}

/// An overlay that is created is what was asked for. Its host lies on the area of the clip, above
/// everything else, layered and opaque, without taking the focus. The desktop is drawn first: the
/// part of it that lies under the host, at its own size. The source is drawn over it, cropped as the
/// clip is. The host is shown last, and handed out with the two thumbnails. A clip that shows
/// nothing, or a missing shell, makes no overlay.
pub proof fn law_created_overlay_is_what_was_asked_for<E>(
    src_hwnd: isize,
    clip: GhostClip,
    shell: isize,
    desktop: Rect,
    instance: isize,
    host: isize,
    style: isize,
    hdesktop: isize,
    hthumb: isize,
)
    requires
        clip.host matches Some(area) ==> desktop_fits(area, desktop) && source_fits(
            clip.source_x as int,
            clip.source_y as int,
            clip.source_width as int,
            clip.source_height as int,
        ),
    ensures
        clip.host is None ==> overlay_start::<E>(src_hwnd, clip) == (CreateOverlay::<E>::Done {
            reply: Err(OverlayError::OffScreen),
        }),
        clip.host matches Some(area) ==> {
            let first = overlay_start::<E>(src_hwnd, clip);
            let (second, c1) = first.next(OwnerAnswer::Handle(shell));
            let (third, c2) = second.next(OwnerAnswer::Area(desktop));
            let (fourth, c3) = third.next(OwnerAnswer::Handle(instance));
            let (fifth, c4) = fourth.next(OwnerAnswer::Handle(host));
            let (sixth, layering) = fifth.next(OwnerAnswer::Handle(style));
            let (seventh, placing) = sixth.next(OwnerAnswer::Done);
            let (eighth, c7) = seventh.next(OwnerAnswer::Handle(hdesktop));
            let (ninth, c8) = eighth.next(OwnerAnswer::Done);
            let (tenth, c9) = ninth.next(OwnerAnswer::Handle(hthumb));
            let (last, showing) = tenth.next(OwnerAnswer::Done);
            &&& first.asked() is ShellWindow
            &&& first.next(OwnerAnswer::Nothing).0 == (CreateOverlay::<E>::Done {
                reply: Err(OverlayError::NoShell),
            })
            &&& second.asked() == (OwnerAsk::OuterRect { hwnd: shell })
            &&& third.asked() is Instance
            &&& fourth.asked() == (OwnerAsk::CreateHost { instance })
            &&& fifth.asked() == (OwnerAsk::ExStyle { hwnd: host })
            &&& sixth.asked() == (OwnerAsk::SetTransparent { hwnd: host, alpha: 255 })
            &&& seventh.asked() == (OwnerAsk::RegisterThumb { host_hwnd: host, src_hwnd: shell })
            &&& eighth.asked() matches OwnerAsk::UpdateThumb { hthumb: updated, props } && {
                &&& updated == hdesktop
                &&& props.visible && props.opacity == 255 && props.flags.source
                &&& props.flags.destination && props.flags.opacity && props.flags.visible
                &&& props.destination.left == 0 && props.destination.top == 0
                &&& props.destination.right == area.right
                &&& props.destination.bottom == area.bottom
                &&& desktop.left + props.source.left == area.left
                &&& desktop.top + props.source.top == area.top
                &&& props.source.right - props.source.left == area.right
                &&& props.source.bottom - props.source.top == area.bottom
            }
            &&& ninth.asked() == (OwnerAsk::RegisterThumb { host_hwnd: host, src_hwnd })
            &&& tenth.asked() matches OwnerAsk::UpdateThumb { hthumb: updated, props } && {
                &&& updated == hthumb
                &&& props.visible && props.opacity == 255 && props.flags.source
                &&& props.flags.destination && props.flags.opacity && props.flags.visible
                &&& props.destination.left == 0 && props.destination.top == 0
                &&& props.destination.right == area.right
                &&& props.destination.bottom == area.bottom
                &&& props.source.left == clip.source_x && props.source.top == clip.source_y
                &&& props.source.right - props.source.left == clip.source_width
                &&& props.source.bottom - props.source.top == clip.source_height
            }
            &&& last.asked() is Finished
            &&& last == (CreateOverlay::<E>::Done { reply: Ok((host, hdesktop, hthumb)) })
            &&& c1.len() == 0 && c2.len() == 0 && c3.len() == 0 && c4.len() == 0
            &&& c7.len() == 0 && c8.len() == 0 && c9.len() == 0
            &&& layering == seq![OwnerCall::SetExStyle { hwnd: host, style: style | 0x80000isize }]
            &&& placing.len() == 1 && (placing[0] matches OwnerCall::SetPos { hwnd, z, rect, flags }
                && {
                &&& hwnd == host
                &&& rect == area
                &&& z is Topmost
                &&& flags.no_activate && flags.no_redraw && !flags.no_z_order && !flags.show_window
            })
            &&& showing == seq![OwnerCall::Show { hwnd: host, command: 4 }]
        },
{
}

/// A call that fails ends the creation of an overlay with the error of that call, and what had been
/// made by then goes: first the thumbnails, that of the desktop before that of the window, then the
/// host that they are in. Nothing else is touched.
pub proof fn law_overlay_hands_its_error_on<E>(task: CreateOverlay<E>, error: E)
    requires
        answers(task.asked(), OwnerAnswer::Failed(error)),
    ensures
        task.next(OwnerAnswer::Failed(error)).0 == (CreateOverlay::<E>::Done {
            reply: Err(OverlayError::Call(error)),
        }),
        ({
            let calls = task.next(OwnerAnswer::Failed(error)).1;
            match task {
                CreateOverlay::Opaque { host, .. } => calls == seq![
                    OwnerCall::DestroyWindow { hwnd: host },
                ],
                CreateOverlay::DesktopThumb { host, .. } => calls == seq![
                    OwnerCall::DestroyWindow { hwnd: host },
                ],
                CreateOverlay::DesktopProps { host, hdesktop, .. } => calls == seq![
                    OwnerCall::Unregister { hthumb: hdesktop },
                    OwnerCall::DestroyWindow { hwnd: host },
                ],
                CreateOverlay::SourceThumb { host, hdesktop, .. } => calls == seq![
                    OwnerCall::Unregister { hthumb: hdesktop },
                    OwnerCall::DestroyWindow { hwnd: host },
                ],
                CreateOverlay::SourceProps { host, hdesktop, hthumb, .. } => calls == seq![
                    OwnerCall::Unregister { hthumb: hdesktop },
                    OwnerCall::Unregister { hthumb },
                    OwnerCall::DestroyWindow { hwnd: host },
                ],
                _ => calls.len() == 0,
            }
        }),
{
}

/// Making an overlay goes on with any answer of the kind that it asks for. It refuses one only where
/// the place of the overlay on the desktop cannot be named.
pub proof fn law_overlay_goes_on_unless_out_of_range<E>(
    overlay: CreateOverlay<E>,
    answer: OwnerAnswer<E>,
)
    requires
        answers(overlay.asked(), answer),
        !overlay.accepts(answer),
    ensures
        overlay matches CreateOverlay::DesktopRect { request, .. } && answer
            matches OwnerAnswer::Area(desktop) && {
            let (x, y) = (request.host.left - desktop.left, request.host.top - desktop.top);
            ||| !(-0x8000_0000 <= x <= 0x7fff_ffff && -0x8000_0000 <= y <= 0x7fff_ffff)
            ||| !(-0x8000_0000 <= x + request.host.right <= 0x7fff_ffff)
            ||| !(-0x8000_0000 <= y + request.host.bottom <= 0x7fff_ffff)
        },
{
}

} // verus!

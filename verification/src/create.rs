//! Creating a ghost: a host window on the start rect with a thumbnail of the source in it.
use vstd::prelude::*;

use crate::geometry::Rect;
use crate::ghost::{thumbnail_properties, whole_properties};
use crate::owner::{
    answers, given_back, lemma_given_back_unfolds, made, step, Holdings, OwnerAnswer,
    OwnerAsk, OwnerCall, OwnerStep, PosFlags, ZOrder, HIDE, SHOW_NA,
};

verus! {

/// The ghost that is to be created.
#[derive(Clone, Copy, Debug, PartialEq, Eq, Structural)]
pub struct GhostRequest {
    pub src_hwnd: isize,
    pub start_rect: Rect,
    pub z_above: Option<isize>,
    pub visible: bool,
}

impl GhostRequest {
    /// The call that puts the new host on the start rect, right behind the window that it follows,
    /// or on top where it follows none.
    pub open spec fn place_call(self, host: isize) -> OwnerCall {
        OwnerCall::SetPos {
            hwnd: host,
            z: match self.z_above {
                Some(hwnd) => ZOrder::Behind(hwnd),
                None => ZOrder::Top,
            },
            rect: self.start_rect,
            flags: PosFlags {
                no_activate: true,
                no_z_order: false,
                no_redraw: true,
                show_window: self.visible,
            },
        }
    }

    /// The call that shows the finished ghost, or keeps it hidden.
    pub open spec fn show_call(self, host: isize) -> OwnerCall {
        OwnerCall::Show {
            hwnd: host,
            command: if self.visible {
                SHOW_NA
            } else {
                HIDE
            },
        }
    }

    fn place(&self, host: isize) -> (r: OwnerCall)
        ensures
            r == self.place_call(host),
    {
        let z = match self.z_above {
            Some(hwnd) => ZOrder::Behind(hwnd),
            None => ZOrder::Top,
        };
        let flags = PosFlags {
            no_activate: true,
            no_z_order: false,
            no_redraw: true,
            show_window: self.visible,
        };
        OwnerCall::SetPos { hwnd: host, z, rect: self.start_rect, flags }
    }
}

/// How far the creation of a ghost has come: each stage waits for the answer to one question.
#[derive(Debug, PartialEq, Eq)]
pub enum CreateGhost<E> {
    Instance { request: GhostRequest },
    Host { request: GhostRequest, instance: isize },
    Thumb { request: GhostRequest, host: isize },
    Props { request: GhostRequest, host: isize, hthumb: isize },
    /// Host and thumbnail of the ghost, or the error of the call that failed.
    Done { reply: Result<(isize, isize), E> },
}

/// Start to create a ghost.
pub fn create_ghost<E>(
    src_hwnd: isize,
    start_rect: Rect,
    z_above: Option<isize>,
    visible: bool,
) -> (r: (CreateGhost<E>, OwnerStep))
    ensures
        r.0 == (CreateGhost::<E>::Instance {
            request: GhostRequest { src_hwnd, start_rect, z_above, visible },
        }),
        r.1.calls@ == Seq::<OwnerCall>::empty(),
        r.1.ask == r.0.asked(),
{
    let request = GhostRequest { src_hwnd, start_rect, z_above, visible };
    (CreateGhost::Instance { request }, step(Vec::new(), OwnerAsk::Instance))
}

impl<E> CreateGhost<E> {
    /// The question that the stage waits on.
    pub open spec fn asked(self) -> OwnerAsk {
        match self {
            CreateGhost::Instance { .. } => OwnerAsk::Instance,
            CreateGhost::Host { instance, .. } => OwnerAsk::CreateHost { instance },
            CreateGhost::Thumb { request, host } => OwnerAsk::RegisterThumb {
                host_hwnd: host,
                src_hwnd: request.src_hwnd,
            },
            CreateGhost::Props { request, hthumb, .. } => OwnerAsk::UpdateThumb {
                hthumb,
                props: whole_properties(request.start_rect.right, request.start_rect.bottom),
            },
            CreateGhost::Done { .. } => OwnerAsk::Finished,
        }
    }

    /// The stage after `answer`, and the calls to make on the way there. A failure takes down what
    /// the stages before have made, thumbnail first.
    pub open spec fn next(self, answer: OwnerAnswer<E>) -> (CreateGhost<E>, Seq<OwnerCall>) {
        match (self, answer) {
            (CreateGhost::Instance { request }, OwnerAnswer::Handle(instance)) => (
                CreateGhost::Host { request, instance },
                seq![],
            ),
            (CreateGhost::Instance { .. }, OwnerAnswer::Failed(error)) => (
                CreateGhost::Done { reply: Err(error) },
                seq![],
            ),
            (CreateGhost::Host { request, .. }, OwnerAnswer::Handle(host)) => (
                CreateGhost::Thumb { request, host },
                seq![request.place_call(host)],
            ),
            (CreateGhost::Host { .. }, OwnerAnswer::Failed(error)) => (
                CreateGhost::Done { reply: Err(error) },
                seq![],
            ),
            (CreateGhost::Thumb { request, host }, OwnerAnswer::Handle(hthumb)) => (
                CreateGhost::Props { request, host, hthumb },
                seq![],
            ),
            (CreateGhost::Thumb { host, .. }, OwnerAnswer::Failed(error)) => (
                CreateGhost::Done { reply: Err(error) },
                seq![OwnerCall::DestroyWindow { hwnd: host }],
            ),
            (CreateGhost::Props { request, host, hthumb }, OwnerAnswer::Done) => (
                CreateGhost::Done { reply: Ok((host, hthumb)) },
                seq![request.show_call(host)],
            ),
            (CreateGhost::Props { host, hthumb, .. }, OwnerAnswer::Failed(error)) => (
                CreateGhost::Done { reply: Err(error) },
                seq![
                    OwnerCall::Unregister { hthumb },
                    OwnerCall::DestroyWindow { hwnd: host },
                ],
            ),
            _ => (self, seq![]),
        }
    }

    /// Go on with the answer to the question.
    pub fn resume(self, answer: OwnerAnswer<E>) -> (r: (CreateGhost<E>, OwnerStep))
        requires
            answers(self.asked(), answer),
        ensures
            (r.0, r.1.calls@) == self.next(answer),
            r.1.ask == r.0.asked(),
    {
        match (self, answer) {
            (CreateGhost::Instance { request }, OwnerAnswer::Handle(instance)) => (
                CreateGhost::Host { request, instance },
                step(Vec::new(), OwnerAsk::CreateHost { instance }),
            ),
            (CreateGhost::Instance { .. }, OwnerAnswer::Failed(error)) => (
                CreateGhost::Done { reply: Err(error) },
                step(Vec::new(), OwnerAsk::Finished),
            ),
            (CreateGhost::Host { request, .. }, OwnerAnswer::Handle(host)) => (
                CreateGhost::Thumb { request, host },
                step(
                    vec![request.place(host)],
                    OwnerAsk::RegisterThumb { host_hwnd: host, src_hwnd: request.src_hwnd },
                ),
            ),
            (CreateGhost::Host { .. }, OwnerAnswer::Failed(error)) => (
                CreateGhost::Done { reply: Err(error) },
                step(Vec::new(), OwnerAsk::Finished),
            ),
            (CreateGhost::Thumb { request, host }, OwnerAnswer::Handle(hthumb)) => {
                let props = thumbnail_properties(
                    request.start_rect.right,
                    request.start_rect.bottom,
                );
                (
                    CreateGhost::Props { request, host, hthumb },
                    step(Vec::new(), OwnerAsk::UpdateThumb { hthumb, props }),
                )
            },
            (CreateGhost::Thumb { host, .. }, OwnerAnswer::Failed(error)) => (
                CreateGhost::Done { reply: Err(error) },
                step(vec![OwnerCall::DestroyWindow { hwnd: host }], OwnerAsk::Finished),
            ),
            (CreateGhost::Props { request, host, hthumb }, OwnerAnswer::Done) => {
                let command: i32 = if request.visible {
                    SHOW_NA
                } else {
                    HIDE
                };
                (
                    CreateGhost::Done { reply: Ok((host, hthumb)) },
                    step(vec![OwnerCall::Show { hwnd: host, command }], OwnerAsk::Finished),
                )
            },
            (CreateGhost::Props { host, hthumb, .. }, OwnerAnswer::Failed(error)) => (
                CreateGhost::Done { reply: Err(error) },
                step(
                    vec![
                        OwnerCall::Unregister { hthumb },
                        OwnerCall::DestroyWindow { hwnd: host },
                    ],
                    OwnerAsk::Finished,
                ),
            ),
            (task, _) => (task, step(Vec::new(), OwnerAsk::Finished)),
        }
    }

    /// What the task has made and not given back at this stage.
    pub open spec fn holds(self) -> Holdings {
        match self {
            CreateGhost::Instance { .. } | CreateGhost::Host { .. } => Holdings::none(),
            CreateGhost::Thumb { host, .. } => Holdings::host(host),
            CreateGhost::Props { host, hthumb, .. } => Holdings::host(host).plus(
                Holdings::thumb(hthumb),
            ),
            CreateGhost::Done { reply: Ok((host, hthumb)) } => Holdings::host(host).plus(
                Holdings::thumb(hthumb),
            ),
            CreateGhost::Done { reply: Err(_) } => Holdings::none(),
        }
    }
}

/// The stage that the creation of a ghost reaches with the given answers.
pub open spec fn create_run<E>(request: GhostRequest, given: Seq<OwnerAnswer<E>>) -> CreateGhost<E>
    decreases given.len(),
{
    if given.len() == 0 {
        CreateGhost::Instance { request }
    } else {
        create_run(request, given.drop_last()).next(given.last()).0
    }
}

/// Every answer is of the kind that its question asks for.
pub open spec fn create_run_answered<E>(request: GhostRequest, given: Seq<OwnerAnswer<E>>) -> bool
    decreases given.len(),
{
    given.len() > 0 ==> {
        &&& create_run_answered(request, given.drop_last())
        &&& answers(create_run(request, given.drop_last()).asked(), given.last())
    }
}

/// What the whole run has made.
pub open spec fn create_run_made<E>(request: GhostRequest, given: Seq<OwnerAnswer<E>>) -> Holdings
    decreases given.len(),
{
    if given.len() == 0 {
        Holdings::none()
    } else {
        create_run_made(request, given.drop_last()).plus(
            made(create_run(request, given.drop_last()).asked(), given.last()),
        )
    }
}

/// What the calls of the whole run have given back.
pub open spec fn create_run_given_back<E>(
    request: GhostRequest,
    given: Seq<OwnerAnswer<E>>,
) -> Holdings
    decreases given.len(),
{
    if given.len() == 0 {
        Holdings::none()
    } else {
        create_run_given_back(request, given.drop_last()).plus(
            given_back(create_run(request, given.drop_last()).next(given.last()).1),
        )
    }
}

/// Creating a ghost leaks nothing, whatever the window system answers: at every stage, what was
/// made is what was given back together with what the task still holds. A creation that fails has
/// given everything back; one that succeeds holds the host and the thumbnail that it hands out.
pub proof fn law_create_ghost_never_leaks<E>(request: GhostRequest, given: Seq<OwnerAnswer<E>>)
    requires
        create_run_answered(request, given),
    ensures
        create_run_made(request, given) == create_run_given_back(request, given).plus(
            create_run(request, given).holds(),
        ),
        create_run(request, given) matches CreateGhost::Done { reply: Err(_) } ==> create_run_made(
            request,
            given,
        ) == create_run_given_back(request, given),
        create_run(request, given) matches CreateGhost::Done { reply: Ok((host, hthumb)) } ==> {
            &&& create_run_made(request, given) == Holdings::host(host).plus(
                Holdings::thumb(hthumb),
            )
            &&& create_run_given_back(request, given) == Holdings::none()
        },
    decreases given.len(),
{
    if given.len() > 0 {
        let before = create_run(request, given.drop_last());
        law_create_ghost_never_leaks(request, given.drop_last());
        lemma_create_run_keeps_all(request, given.drop_last());
        lemma_given_back_unfolds(before.next(given.last()).1);
    }
    lemma_create_run_keeps_all(request, given);
    assert(create_run_made(request, given) =~= create_run_given_back(request, given).plus(
        create_run(request, given).holds(),
    ));
    assert(create_run(request, given) matches CreateGhost::Done { reply: Err(_) }
        ==> create_run_made(request, given) =~= create_run_given_back(request, given));
    assert(create_run(request, given) matches CreateGhost::Done { reply: Ok((host, hthumb)) }
        ==> create_run_made(request, given) =~= Holdings::host(host).plus(
        Holdings::thumb(hthumb),
    ));
}

/// Nothing is given back before the creation fails.
proof fn lemma_create_run_keeps_all<E>(request: GhostRequest, given: Seq<OwnerAnswer<E>>)
    requires
        create_run_answered(request, given),
    ensures
        create_run(request, given) matches CreateGhost::Done { reply: Err(_) }
            || create_run_given_back(request, given) == Holdings::none(),
    decreases given.len(),
{
    if given.len() > 0 {
        let before = create_run(request, given.drop_last());
        lemma_create_run_keeps_all(request, given.drop_last());
        lemma_given_back_unfolds(before.next(given.last()).1);
        assert(Holdings::none().plus(Holdings::none()) =~= Holdings::none());
    }
}

/// Four answers are enough: a run that goes on to its end ends within four questions.
pub proof fn law_create_ghost_ends<E>(request: GhostRequest, given: Seq<OwnerAnswer<E>>)
    requires
        create_run_answered(request, given),
    ensures
        given.len() <= 4,
        given.len() == 4 ==> create_run(request, given) is Done,
{
    lemma_create_run_stage(request, given);
}

/// After `n` answers the stage is the `n`-th one, or the run is over.
proof fn lemma_create_run_stage<E>(request: GhostRequest, given: Seq<OwnerAnswer<E>>)
    requires
        create_run_answered(request, given),
    ensures
        match create_run(request, given) {
            CreateGhost::Instance { .. } => given.len() == 0,
            CreateGhost::Host { .. } => given.len() == 1,
            CreateGhost::Thumb { .. } => given.len() == 2,
            CreateGhost::Props { .. } => given.len() == 3,
            CreateGhost::Done { .. } => 1 <= given.len() <= 4,
        },
    decreases given.len(),
{
    if given.len() > 0 {
        lemma_create_run_stage(request, given.drop_last());
    }
}

/// A ghost that is created is what was asked for. Its host is the window that was made of the
/// instance; it lies on the start rect, right behind the window that it follows or on top, without
/// taking the focus. Its thumbnail is one of the source, in that host, and as large as the start
/// rect. It ends shown only if it is to be visible, and is handed out as host and thumbnail. A call
/// that fails ends the creation with its error.
pub proof fn law_created_ghost_is_what_was_asked_for<E>(
    request: GhostRequest,
    instance: isize,
    host: isize,
    hthumb: isize,
    error: E,
)
    ensures
        ({
            let first = CreateGhost::<E>::Instance { request };
            let (second, none) = first.next(OwnerAnswer::Handle(instance));
            let (third, placing) = second.next(OwnerAnswer::Handle(host));
            let (fourth, nothing) = third.next(OwnerAnswer::Handle(hthumb));
            let (last, showing) = fourth.next(OwnerAnswer::Done);
            &&& first.asked() is Instance
            &&& second.asked() == (OwnerAsk::CreateHost { instance })
            &&& third.asked() == (OwnerAsk::RegisterThumb {
                host_hwnd: host,
                src_hwnd: request.src_hwnd,
            })
            &&& fourth.asked() matches OwnerAsk::UpdateThumb { hthumb: updated, props } && {
                &&& updated == hthumb
                &&& props.visible && props.flags.visible
                &&& props.opacity == 255 && props.flags.opacity
                &&& props.flags.destination && !props.flags.source
                &&& props.destination.left == 0 && props.destination.top == 0
                &&& props.destination.right == request.start_rect.right
                &&& props.destination.bottom == request.start_rect.bottom
            }
            &&& last.asked() is Finished
            &&& last == (CreateGhost::<E>::Done { reply: Ok((host, hthumb)) })
            &&& none.len() == 0 && nothing.len() == 0
            &&& placing.len() == 1 && (placing[0] matches OwnerCall::SetPos { hwnd, z, rect, flags }
                && {
                &&& hwnd == host
                &&& rect == request.start_rect
                &&& request.z_above matches Some(above) ==> z == ZOrder::Behind(above)
                &&& request.z_above is None ==> z is Top
                &&& flags.no_activate && flags.no_redraw && !flags.no_z_order
                &&& flags.show_window == request.visible
            })
            &&& showing.len() == 1 && (showing[0] matches OwnerCall::Show { hwnd, command } && hwnd
                == host && command == if request.visible {
                8i32
            } else {
                0i32
            })
            &&& first.next(OwnerAnswer::Failed(error)).0 == (CreateGhost::Done { reply: Err(error) })
            &&& second.next(OwnerAnswer::Failed(error)).0 == (CreateGhost::Done {
                reply: Err(error),
            })
            &&& third.next(OwnerAnswer::Failed(error)).0 == (CreateGhost::Done { reply: Err(error) })
            &&& fourth.next(OwnerAnswer::Failed(error)).0 == (CreateGhost::Done {
                reply: Err(error),
            })
        }),
{
}

/// A call that fails ends the creation of a ghost with its error, and what had been made by then
/// goes: first the thumbnail, then the host that it is in. Nothing else is touched.
pub proof fn law_failed_ghost_is_undone<E>(task: CreateGhost<E>, error: E)
    requires
        answers(task.asked(), OwnerAnswer::Failed(error)),
    ensures
        ({
            let (after, calls) = task.next(OwnerAnswer::Failed(error));
            &&& after == (CreateGhost::<E>::Done { reply: Err(error) })
            &&& match task {
                CreateGhost::Thumb { host, .. } => calls == seq![
                    OwnerCall::DestroyWindow { hwnd: host },
                ],
                CreateGhost::Props { host, hthumb, .. } => calls == seq![
                    OwnerCall::Unregister { hthumb },
                    OwnerCall::DestroyWindow { hwnd: host },
                ],
                _ => calls.len() == 0,
            }
        }),
{
}

} // verus!

use workspace_slide::geometry::Rect;
use workspace_slide::ghost::{GhostClip, GhostCmd};
use workspace_slide::overlay::{desktop_area_fits, OverlayError};
use workspace_slide::owner::{
    is_answer, OwnerAnswer, OwnerAsk, OwnerCall, PosFlags, ZOrder, HIDE, LAYERED, SHOW_NA,
    SHOW_NO_ACTIVATE,
};
use workspace_slide::task::{
    handle_cmd, is_clip_fit, is_cmd_fit, register_ghost_class, run_owner_loop, LoopEvent,
    OwnerLoop, OwnerReply, OwnerTask,
};

const RECT: Rect = Rect {
    left: 100,
    top: 200,
    right: 300,
    bottom: 400,
};
const DESKTOP: Rect = Rect {
    left: -1920,
    top: 0,
    right: 5760,
    bottom: 1080,
};

type Answer = OwnerAnswer<&'static str>;

/// Carry a command out with the given answers; every question and call, in order.
fn carry_out(
    cmd: GhostCmd,
    answers: Vec<Answer>,
) -> (OwnerReply<&'static str>, Vec<OwnerAsk>, Vec<OwnerCall>) {
    assert!(is_cmd_fit(&cmd));
    let (mut task, mut step) = handle_cmd(cmd);
    let mut asks = Vec::new();
    let mut calls = Vec::new();
    let mut answers = answers.into_iter();
    loop {
        calls.extend(step.calls);
        match step.ask {
            OwnerAsk::Finished => break,
            OwnerAsk::Nothing => {
                (task, step) = task.resume(OwnerAnswer::Nothing);
            }
            ask => {
                asks.push(ask);
                let answer = answers.next().expect("a question without an answer");
                assert!(task.is_acceptable(&ask, &answer));
                (task, step) = task.resume(answer);
            }
        }
    }
    assert!(answers.next().is_none(), "an answer without a question");
    match task {
        OwnerTask::Done(reply) => (reply, asks, calls),
        _ => panic!("the task is not over"),
    }
}

fn create(visible: bool, z_above: Option<isize>) -> GhostCmd {
    GhostCmd::Create {
        src_hwnd: 1,
        start_rect: RECT,
        z_above,
        visible,
    }
}

fn clip(host_hwnd: isize, host: Option<Rect>) -> GhostClip {
    GhostClip {
        host_hwnd,
        hthumb: host_hwnd + 1000,
        host,
        source_x: 7,
        source_y: 8,
        source_width: 9,
        source_height: 10,
    }
}

fn moving(show_window: bool) -> PosFlags {
    PosFlags {
        no_activate: true,
        no_z_order: true,
        no_redraw: true,
        show_window,
    }
}

#[test]
fn creating_a_ghost_places_and_shows_it() {
    let (reply, asks, calls) = carry_out(
        create(true, Some(1)),
        vec![
            OwnerAnswer::Handle(5),
            OwnerAnswer::Handle(60),
            OwnerAnswer::Handle(70),
            OwnerAnswer::Done,
        ],
    );
    assert_eq!(reply, OwnerReply::Created(Ok((60, 70))));
    assert_eq!(asks[0], OwnerAsk::Instance);
    assert_eq!(asks[1], OwnerAsk::CreateHost { instance: 5 });
    assert_eq!(
        asks[2],
        OwnerAsk::RegisterThumb {
            host_hwnd: 60,
            src_hwnd: 1
        }
    );
    match asks[3] {
        OwnerAsk::UpdateThumb { hthumb, props } => {
            assert_eq!(hthumb, 70);
            assert_eq!((props.destination.right, props.destination.bottom), (300, 400));
        }
        _ => panic!("the thumbnail comes last"),
    }
    assert_eq!(
        calls,
        vec![
            OwnerCall::SetPos {
                hwnd: 60,
                z: ZOrder::Behind(1),
                rect: RECT,
                flags: PosFlags {
                    no_activate: true,
                    no_z_order: false,
                    no_redraw: true,
                    show_window: true
                }
            },
            OwnerCall::Show {
                hwnd: 60,
                command: SHOW_NA
            },
        ]
    );
}

#[test]
fn a_ghost_can_start_hidden_and_on_top() {
    let (_, _, calls) = carry_out(
        create(false, None),
        vec![
            OwnerAnswer::Handle(5),
            OwnerAnswer::Handle(60),
            OwnerAnswer::Handle(70),
            OwnerAnswer::Done,
        ],
    );
    match calls[0] {
        OwnerCall::SetPos { z, flags, .. } => {
            assert_eq!(z, ZOrder::Top);
            assert!(!flags.show_window);
        }
        _ => panic!("the host is placed first"),
    }
    assert_eq!(
        calls[1],
        OwnerCall::Show {
            hwnd: 60,
            command: HIDE
        }
    );
}

#[test]
fn a_ghost_that_fails_gives_everything_back() {
    let (reply, _, calls) = carry_out(create(true, None), vec![OwnerAnswer::Failed("module")]);
    assert_eq!(reply, OwnerReply::Created(Err("module")));
    assert!(calls.is_empty());

    let (reply, _, calls) = carry_out(
        create(true, None),
        vec![OwnerAnswer::Handle(5), OwnerAnswer::Failed("host")],
    );
    assert_eq!(reply, OwnerReply::Created(Err("host")));
    assert!(calls.is_empty());

    let (reply, _, calls) = carry_out(
        create(true, None),
        vec![
            OwnerAnswer::Handle(5),
            OwnerAnswer::Handle(60),
            OwnerAnswer::Failed("thumb"),
        ],
    );
    assert_eq!(reply, OwnerReply::Created(Err("thumb")));
    assert_eq!(calls[1..], [OwnerCall::DestroyWindow { hwnd: 60 }]);

    let (reply, _, calls) = carry_out(
        create(true, None),
        vec![
            OwnerAnswer::Handle(5),
            OwnerAnswer::Handle(60),
            OwnerAnswer::Handle(70),
            OwnerAnswer::Failed("props"),
        ],
    );
    assert_eq!(reply, OwnerReply::Created(Err("props")));
    assert_eq!(
        calls[1..],
        [
            OwnerCall::Unregister { hthumb: 70 },
            OwnerCall::DestroyWindow { hwnd: 60 }
        ]
    );
}

#[test]
fn destroying_undoes_creating() {
    let (reply, asks, calls) = carry_out(
        GhostCmd::Destroy {
            host_hwnd: 60,
            hthumb: 70,
        },
        Vec::new(),
    );
    assert_eq!(reply, OwnerReply::Nothing);
    assert!(asks.is_empty());
    assert_eq!(
        calls,
        vec![
            OwnerCall::Unregister { hthumb: 70 },
            OwnerCall::DestroyWindow { hwnd: 60 }
        ]
    );

    let (_, _, calls) = carry_out(
        GhostCmd::DestroyOverlay {
            host_hwnd: 60,
            hdesktop: 71,
            hthumb: 72,
        },
        Vec::new(),
    );
    assert_eq!(
        calls,
        vec![
            OwnerCall::Unregister { hthumb: 71 },
            OwnerCall::Unregister { hthumb: 72 },
            OwnerCall::DestroyWindow { hwnd: 60 }
        ]
    );
}

#[test]
fn a_whole_ghost_moves_with_its_thumbnail() {
    let cmd = || GhostCmd::UpdateRect {
        host_hwnd: 60,
        hthumb: 70,
        rect: RECT,
    };
    let (reply, asks, calls) = carry_out(cmd(), vec![OwnerAnswer::Done, OwnerAnswer::Done]);
    assert_eq!(reply, OwnerReply::Updated(Ok(())));
    assert_eq!(
        asks[0],
        OwnerAsk::SetPos {
            hwnd: 60,
            z: ZOrder::Keep,
            rect: RECT,
            flags: moving(false)
        }
    );
    assert!(calls.is_empty());

    // The thumbnail follows only a host that has moved.
    let (reply, asks, _) = carry_out(cmd(), vec![OwnerAnswer::Failed("stuck")]);
    assert_eq!(reply, OwnerReply::Updated(Err("stuck")));
    assert_eq!(asks.len(), 1);

    let (reply, _, _) = carry_out(cmd(), vec![OwnerAnswer::Done, OwnerAnswer::Failed("props")]);
    assert_eq!(reply, OwnerReply::Updated(Err("props")));
}

#[test]
fn a_clip_moves_or_hides_its_ghost() {
    let (reply, _, calls) = carry_out(
        GhostCmd::UpdateClip {
            clip: clip(60, None),
        },
        Vec::new(),
    );
    assert_eq!(reply, OwnerReply::Updated(Ok(())));
    assert_eq!(
        calls,
        vec![OwnerCall::Show {
            hwnd: 60,
            command: HIDE
        }]
    );

    let (reply, asks, _) = carry_out(
        GhostCmd::UpdateClip {
            clip: clip(60, Some(RECT)),
        },
        vec![OwnerAnswer::Done, OwnerAnswer::Failed("props")],
    );
    assert_eq!(reply, OwnerReply::Updated(Err("props")));
    assert_eq!(
        asks[0],
        OwnerAsk::SetPos {
            hwnd: 60,
            z: ZOrder::Keep,
            rect: RECT,
            flags: moving(true)
        }
    );
    match asks[1] {
        OwnerAsk::UpdateThumb { hthumb, props } => {
            assert_eq!(hthumb, 1060);
            assert_eq!((props.source.left, props.source.right), (7, 16));
            assert_eq!((props.source.top, props.source.bottom), (8, 18));
        }
        _ => panic!("the crop comes second"),
    }
}

#[test]
fn a_frame_moves_its_hosts_in_one_batch() {
    let clips = vec![clip(60, Some(RECT)), clip(61, None), clip(62, Some(RECT))];
    let (reply, asks, calls) = carry_out(
        GhostCmd::Present { clips },
        vec![
            OwnerAnswer::Handle(900),
            OwnerAnswer::Handle(901),
            OwnerAnswer::Done,
            OwnerAnswer::Handle(902),
            // A crop that fails stops nothing.
            OwnerAnswer::Failed("props"),
        ],
    );
    assert_eq!(reply, OwnerReply::Presented);
    assert_eq!(asks[0], OwnerAsk::BeginBatch { count: 2 });
    assert_eq!(
        asks[1],
        OwnerAsk::Defer {
            batch: 900,
            hwnd: 60,
            rect: RECT,
            flags: moving(true)
        }
    );
    assert_eq!(
        asks[3],
        OwnerAsk::Defer {
            batch: 901,
            hwnd: 62,
            rect: RECT,
            flags: moving(true)
        }
    );
    assert_eq!(
        calls,
        vec![
            OwnerCall::Show {
                hwnd: 61,
                command: HIDE
            },
            OwnerCall::EndBatch { batch: 902 },
            OwnerCall::Flush,
        ]
    );
}

#[test]
fn without_a_batch_each_host_moves_on_its_own() {
    let clips = vec![clip(60, Some(RECT)), clip(61, Some(RECT))];
    let (reply, asks, calls) = carry_out(
        GhostCmd::Present { clips },
        vec![
            OwnerAnswer::Failed("no batch"),
            OwnerAnswer::Done,
            OwnerAnswer::Done,
            OwnerAnswer::Failed("stuck"),
        ],
    );
    assert_eq!(reply, OwnerReply::Presented);
    assert_eq!(asks.len(), 4);
    assert_eq!(calls, vec![OwnerCall::Flush]);
}

#[test]
fn a_move_that_cannot_join_frees_the_batch() {
    let clips = vec![
        clip(60, Some(RECT)),
        clip(61, None),
        clip(62, Some(RECT)),
        clip(63, Some(RECT)),
    ];
    let (reply, asks, calls) = carry_out(
        GhostCmd::Present { clips },
        vec![
            OwnerAnswer::Handle(900),
            OwnerAnswer::Handle(901),
            OwnerAnswer::Done,
            OwnerAnswer::Failed("freed"),
            OwnerAnswer::Done,
            OwnerAnswer::Done,
            OwnerAnswer::Done,
            OwnerAnswer::Done,
            OwnerAnswer::Done,
            OwnerAnswer::Done,
        ],
    );
    assert_eq!(reply, OwnerReply::Presented);
    // The move of the first host was lost with the batch, so it moves on its own too.
    for (at, hwnd) in [(4, 60), (6, 62), (8, 63)] {
        assert_eq!(
            asks[at],
            OwnerAsk::SetPos {
                hwnd,
                z: ZOrder::Keep,
                rect: RECT,
                flags: moving(true)
            }
        );
        match asks[at + 1] {
            OwnerAsk::UpdateThumb { hthumb, .. } => assert_eq!(hthumb, hwnd + 1000),
            _ => panic!("a moved host is cropped next"),
        }
    }
    // No batch is ended that was freed.
    let hide = OwnerCall::Show {
        hwnd: 61,
        command: HIDE,
    };
    assert_eq!(calls, vec![hide, hide, OwnerCall::Flush]);
}

#[test]
fn the_first_move_that_cannot_join_frees_the_batch() {
    let clips = vec![clip(60, Some(RECT)), clip(61, Some(RECT))];
    let (reply, asks, calls) = carry_out(
        GhostCmd::Present { clips },
        vec![
            OwnerAnswer::Handle(900),
            OwnerAnswer::Failed("freed"),
            OwnerAnswer::Done,
            OwnerAnswer::Done,
            OwnerAnswer::Done,
            OwnerAnswer::Done,
        ],
    );
    assert_eq!(reply, OwnerReply::Presented);
    assert_eq!(asks.len(), 6);
    assert_eq!(calls, vec![OwnerCall::Flush]);
}

#[test]
fn a_frame_ends_within_its_answers() {
    // Every clip is asked for in the batch, the last one cannot join, and all start over.
    let clips = vec![clip(60, Some(RECT)), clip(61, Some(RECT))];
    let (mut task, mut step) = handle_cmd::<&str>(GhostCmd::Present { clips });
    let mut answers = 0;
    while step.ask != OwnerAsk::Finished {
        let answer = match step.ask {
            OwnerAsk::Nothing => OwnerAnswer::Nothing,
            OwnerAsk::BeginBatch { .. } => OwnerAnswer::Handle(900),
            OwnerAsk::Defer { hwnd: 61, .. } => OwnerAnswer::Failed("freed"),
            OwnerAsk::Defer { .. } => OwnerAnswer::Handle(901),
            _ => OwnerAnswer::Done,
        };
        (task, step) = task.resume(answer);
        answers += 1;
    }
    assert_eq!(task, OwnerTask::Done(OwnerReply::Presented));
    assert!(answers <= 6 * 2 + 3);
}

/// The answers of an overlay that can be created.
fn overlay_answers() -> Vec<Answer> {
    vec![
        OwnerAnswer::Handle(2),
        OwnerAnswer::Area(DESKTOP),
        OwnerAnswer::Handle(5),
        OwnerAnswer::Handle(60),
        OwnerAnswer::Handle(0x88),
        OwnerAnswer::Done,
        OwnerAnswer::Handle(71),
        OwnerAnswer::Done,
        OwnerAnswer::Handle(72),
        OwnerAnswer::Done,
    ]
}

fn overlay_cmd() -> GhostCmd {
    GhostCmd::CreateOverlay {
        src_hwnd: 1,
        clip: clip(50, Some(RECT)),
    }
}

#[test]
fn an_overlay_shows_the_window_over_the_desktop() {
    let (reply, asks, calls) = carry_out(overlay_cmd(), overlay_answers());
    assert_eq!(reply, OwnerReply::Overlaid(Ok((60, 71, 72))));
    assert_eq!(asks[0], OwnerAsk::ShellWindow);
    assert_eq!(asks[1], OwnerAsk::OuterRect { hwnd: 2 });
    assert_eq!(
        asks[5],
        OwnerAsk::SetTransparent {
            hwnd: 60,
            alpha: 255
        }
    );
    assert_eq!(
        asks[6],
        OwnerAsk::RegisterThumb {
            host_hwnd: 60,
            src_hwnd: 2
        }
    );
    match asks[7] {
        OwnerAsk::UpdateThumb { hthumb, props } => {
            assert_eq!(hthumb, 71);
            // Where the host lies on the desktop, at its own size.
            assert_eq!((props.source.left, props.source.right), (2020, 2320));
            assert_eq!((props.source.top, props.source.bottom), (200, 600));
        }
        _ => panic!("the desktop comes first"),
    }
    assert_eq!(
        asks[8],
        OwnerAsk::RegisterThumb {
            host_hwnd: 60,
            src_hwnd: 1
        }
    );
    assert_eq!(
        calls[0],
        OwnerCall::SetExStyle {
            hwnd: 60,
            style: 0x88 | LAYERED
        }
    );
    match calls[1] {
        OwnerCall::SetPos { z, rect, flags, .. } => {
            assert_eq!((z, rect), (ZOrder::Topmost, RECT));
            assert!(!flags.show_window && !flags.no_z_order);
        }
        _ => panic!("the host is placed"),
    }
    assert_eq!(
        calls[2],
        OwnerCall::Show {
            hwnd: 60,
            command: SHOW_NO_ACTIVATE
        }
    );
}

#[test]
fn an_overlay_off_screen_is_refused() {
    let (reply, asks, _) = carry_out(
        GhostCmd::CreateOverlay {
            src_hwnd: 1,
            clip: clip(50, None),
        },
        Vec::new(),
    );
    assert_eq!(reply, OwnerReply::Overlaid(Err(OverlayError::OffScreen)));
    assert!(asks.is_empty());
}

#[test]
fn an_overlay_needs_a_shell() {
    let (reply, _, calls) = carry_out(overlay_cmd(), vec![OwnerAnswer::Nothing]);
    assert_eq!(reply, OwnerReply::Overlaid(Err(OverlayError::NoShell)));
    assert!(calls.is_empty());
}

#[test]
fn an_overlay_that_fails_gives_everything_back() {
    // The question that fails, and what is given back for it.
    let cases: Vec<(usize, Vec<OwnerCall>)> = vec![
        (1, vec![]),
        (2, vec![]),
        (3, vec![]),
        (5, vec![OwnerCall::DestroyWindow { hwnd: 60 }]),
        (6, vec![OwnerCall::DestroyWindow { hwnd: 60 }]),
        (
            7,
            vec![
                OwnerCall::Unregister { hthumb: 71 },
                OwnerCall::DestroyWindow { hwnd: 60 },
            ],
        ),
        (
            8,
            vec![
                OwnerCall::Unregister { hthumb: 71 },
                OwnerCall::DestroyWindow { hwnd: 60 },
            ],
        ),
        (
            9,
            vec![
                OwnerCall::Unregister { hthumb: 71 },
                OwnerCall::Unregister { hthumb: 72 },
                OwnerCall::DestroyWindow { hwnd: 60 },
            ],
        ),
    ];
    for (failing, given_back) in cases {
        let mut answers = overlay_answers();
        answers.truncate(failing);
        answers.push(OwnerAnswer::Failed("refused"));
        let (reply, _, calls) = carry_out(overlay_cmd(), answers);
        assert_eq!(
            reply,
            OwnerReply::Overlaid(Err(OverlayError::Call("refused")))
        );
        assert_eq!(calls[calls.len() - given_back.len()..], given_back[..]);
        let gone = calls.iter().filter(|call| {
            matches!(
                call,
                OwnerCall::Unregister { .. } | OwnerCall::DestroyWindow { .. }
            )
        });
        assert_eq!(gone.count(), given_back.len());
    }
}

#[test]
fn coordinates_out_of_range_are_found_beforehand() {
    let mut far = clip(60, Some(RECT));
    far.source_x = i32::MAX;
    assert!(!is_clip_fit(&far));
    assert!(!is_cmd_fit(&GhostCmd::UpdateClip { clip: far }));
    assert!(!is_cmd_fit(&GhostCmd::CreateOverlay {
        src_hwnd: 1,
        clip: far
    }));
    assert!(!is_cmd_fit(&GhostCmd::Present {
        clips: vec![clip(60, Some(RECT)), far]
    }));
    far.host = None;
    assert!(is_clip_fit(&far));
    assert!(is_cmd_fit(&GhostCmd::Present { clips: vec![far] }));

    assert!(desktop_area_fits(&RECT, &DESKTOP));
    let edge = Rect {
        left: i32::MIN,
        ..DESKTOP
    };
    assert!(!desktop_area_fits(&RECT, &edge));

    let (task, _) = handle_cmd::<()>(overlay_cmd());
    let (task, step) = task.resume(OwnerAnswer::Handle(2));
    assert!(task.is_acceptable(&step.ask, &OwnerAnswer::Area(DESKTOP)));
    assert!(!task.is_acceptable(&step.ask, &OwnerAnswer::Area(edge)));
}

#[test]
fn an_answer_has_to_fit_its_question() {
    assert!(is_answer::<()>(&OwnerAsk::Nothing, &OwnerAnswer::Nothing));
    assert!(!is_answer::<()>(&OwnerAsk::Finished, &OwnerAnswer::Nothing));
    assert!(is_answer(&OwnerAsk::Instance, &OwnerAnswer::Failed(1)));
    assert!(!is_answer::<()>(&OwnerAsk::Instance, &OwnerAnswer::Done));
    assert!(is_answer::<()>(
        &OwnerAsk::ShellWindow,
        &OwnerAnswer::Nothing
    ));
    assert!(!is_answer(
        &OwnerAsk::ExStyle { hwnd: 1 },
        &OwnerAnswer::Failed(1)
    ));
}

#[test]
fn the_owner_drains_its_messages_before_it_waits() {
    let at = register_ghost_class();
    assert_eq!(at, OwnerLoop::Instance);
    let at = run_owner_loop(at, LoopEvent::Instance(5));
    assert_eq!(at, OwnerLoop::RegisterClass { instance: 5 });
    let at = run_owner_loop(at, LoopEvent::Done);
    assert_eq!(at, OwnerLoop::Drain);
    let at = run_owner_loop(at, LoopEvent::Message);
    assert_eq!(at, OwnerLoop::Dispatch);
    let at = run_owner_loop(at, LoopEvent::Done);
    assert_eq!(at, OwnerLoop::Drain);
    let at = run_owner_loop(at, LoopEvent::Empty);
    assert_eq!(at, OwnerLoop::Receive);
    let at = run_owner_loop(at, LoopEvent::TimedOut);
    assert_eq!(at, OwnerLoop::Drain);
    let at = run_owner_loop(at, LoopEvent::Empty);
    let at = run_owner_loop(at, LoopEvent::Command);
    assert_eq!(at, OwnerLoop::Handle);
    let at = run_owner_loop(at, LoopEvent::Done);
    let at = run_owner_loop(at, LoopEvent::Empty);
    let at = run_owner_loop(at, LoopEvent::Disconnected);
    assert_eq!(at, OwnerLoop::Stop);
    assert_eq!(run_owner_loop(at, LoopEvent::Message), OwnerLoop::Stop);

    assert_eq!(
        run_owner_loop(register_ghost_class(), LoopEvent::NoInstance),
        OwnerLoop::Stop
    );
}

use workspace_slide::geometry::Rect;
use workspace_slide::ghost::{
    clip_properties, ghost_owner, present_clips, prewarm, thumbnail_properties, Edges, GhostClip,
    GhostCmd, GhostWindow, OwnerSlot, RevealOverlay, ThumbnailFlags,
};

const HOST: Rect = Rect {
    left: 5,
    top: 6,
    right: 70,
    bottom: 80,
};

fn ghost() -> GhostWindow {
    GhostWindow {
        host_hwnd: 11,
        hthumb: 12,
        disposed: false,
    }
}

#[test]
fn a_ghost_is_created_by_its_owner() {
    assert_eq!(
        GhostWindow::create(1, HOST, None),
        GhostCmd::Create {
            src_hwnd: 1,
            start_rect: HOST,
            z_above: None,
            visible: true
        }
    );
    assert_eq!(
        GhostWindow::create_with_visibility(1, HOST, Some(2), false),
        GhostCmd::Create {
            src_hwnd: 1,
            start_rect: HOST,
            z_above: Some(2),
            visible: false
        }
    );
    assert_eq!(GhostWindow::created::<&str>(Ok((11, 12))), Ok(ghost()));
    assert_eq!(GhostWindow::created(Err("no host")), Err("no host"));
}

#[test]
fn a_ghost_is_clipped_and_moved_by_commands() {
    let clip = GhostClip {
        host_hwnd: 11,
        hthumb: 12,
        host: Some(HOST),
        source_x: 1,
        source_y: 2,
        source_width: 3,
        source_height: 4,
    };
    assert_eq!(ghost().host_hwnd(), 11);
    assert_eq!(ghost().clip(Some(HOST), 1, 2, 3, 4), clip);
    assert_eq!(
        ghost().update_clip(Some(HOST), 1, 2, 3, 4),
        GhostCmd::UpdateClip { clip }
    );
    assert_eq!(
        ghost().update_rect(HOST),
        GhostCmd::UpdateRect {
            host_hwnd: 11,
            hthumb: 12,
            rect: HOST
        }
    );
}

#[test]
fn a_ghost_is_destroyed_once() {
    let mut twice = ghost();
    assert_eq!(
        twice.dispose_inner(),
        Some(GhostCmd::Destroy {
            host_hwnd: 11,
            hthumb: 12
        })
    );
    assert!(twice.disposed);
    assert_eq!(twice.dispose_inner(), None);
    assert_eq!(twice.dispose(), None);
    assert!(ghost().dispose().is_some());
}

#[test]
fn an_overlay_is_destroyed_once() {
    let made = RevealOverlay::created::<()>(Ok((21, 22, 23)));
    let mut overlay = made.expect("the owner has made it");
    assert_eq!(overlay.set_alpha(77), (21, 77));
    let gone = GhostCmd::DestroyOverlay {
        host_hwnd: 21,
        hdesktop: 22,
        hthumb: 23,
    };
    assert_eq!(overlay.dispose_inner(), Some(gone));
    assert_eq!(overlay.dispose(), None);
    assert_eq!(RevealOverlay::created(Err(9)), Err(9));
    let fresh = RevealOverlay {
        host_hwnd: 1,
        hdesktop: 2,
        hthumb: 3,
        disposed: false,
    };
    assert!(fresh.dispose().is_some());
}

#[test]
fn an_overlay_is_created_from_a_clip() {
    let clip = ghost().clip(Some(HOST), 0, 0, 1, 1);
    assert_eq!(
        RevealOverlay::create(4, clip),
        GhostCmd::CreateOverlay { src_hwnd: 4, clip }
    );
}

#[test]
fn an_opacity_change_touches_nothing_else() {
    let (hthumb, props) = ghost().set_opacity(0);
    assert_eq!(hthumb, 12);
    assert_eq!(props.opacity, 0);
    assert!(props.visible);
    assert_eq!(
        props.flags,
        ThumbnailFlags {
            visible: true,
            destination: false,
            source: false,
            opacity: true,
            source_client_area_only: false
        }
    );
}

#[test]
fn a_crop_names_its_far_edges() {
    let props = clip_properties(HOST, 10, 20, 30, 40);
    assert_eq!(
        props.source,
        Edges {
            left: 10,
            top: 20,
            right: 40,
            bottom: 60
        }
    );
    assert_eq!(
        props.destination,
        Edges {
            left: 0,
            top: 0,
            right: 70,
            bottom: 80
        }
    );
    assert_eq!(props.opacity, 255);
    assert!(props.flags.source && !props.source_client_area_only);

    let whole = thumbnail_properties(300, 200);
    assert!(!whole.flags.source && whole.flags.destination && whole.flags.opacity);
    assert_eq!(
        whole.destination,
        Edges {
            left: 0,
            top: 0,
            right: 300,
            bottom: 200
        }
    );
}

#[test]
fn a_frame_without_clips_is_not_sent() {
    assert_eq!(present_clips(Vec::new()), None);
    let clip = ghost().clip(None, 0, 0, 0, 0);
    assert_eq!(
        present_clips(vec![clip]),
        Some(GhostCmd::Present { clips: vec![clip] })
    );
}

#[test]
fn the_owner_is_started_once() {
    let mut slot = OwnerSlot { running: false };
    assert!(prewarm(&mut slot));
    assert!(!prewarm(&mut slot));
    assert!(!ghost_owner(&mut slot));
    assert_eq!(slot, OwnerSlot { running: true });
}

use workspace_slide::geometry::{clip_thumbnail, clip_window, shift_x, slide_offset, Rect};

#[test]
fn slide_offset_follows_index_direction() {
    assert_eq!(slide_offset(0, 2, 1920), 1920);
    assert_eq!(slide_offset(3, 1, 1920), -1920);
    assert_eq!(slide_offset(1, 1, 1920), 0);
}

#[test]
fn clip_window_stays_inside_the_monitor() {
    let monitor = Rect {
        left: 0,
        top: 0,
        right: 1920,
        bottom: 1080,
    };
    let inside = Rect {
        left: 100,
        top: 10,
        right: 400,
        bottom: 300,
    };
    let clipped = clip_window(inside, monitor).expect("window is on the monitor");
    assert_eq!(clipped.host, inside);
    assert_eq!(clipped.source_x, 0);
    assert_eq!(clipped.source_width, 400);

    let hanging_left = Rect {
        left: -200,
        top: 10,
        right: 800,
        bottom: 600,
    };
    let clipped = clip_window(hanging_left, monitor).expect("part of the window is visible");
    assert_eq!(clipped.host.left, 0);
    assert_eq!(clipped.host.right, 600);
    assert_eq!(clipped.source_x, 200);

    let other_monitor = Rect {
        left: 2000,
        top: 10,
        right: 800,
        bottom: 600,
    };
    assert!(clip_window(other_monitor, monitor).is_none());
}

#[test]
fn clip_thumbnail_scales_into_the_real_window() {
    let monitor = Rect {
        left: 0,
        top: 0,
        right: 1920,
        bottom: 1080,
    };
    // Visual is half the post-layout window and hangs 100px off the left.
    let visual = Rect {
        left: -100,
        top: 0,
        right: 400,
        bottom: 200,
    };
    let clipped = clip_thumbnail(visual, monitor, 800, 400).expect("part is visible");
    assert_eq!(clipped.host.left, 0);
    assert_eq!(clipped.host.right, 300);
    assert_eq!(clipped.source_x, 200);
    assert_eq!(clipped.source_width, 600);
    assert_eq!(clipped.source_height, 400);
}

fn rect(left: i32, top: i32, right: i32, bottom: i32) -> Rect {
    Rect {
        left,
        top,
        right,
        bottom,
    }
}

#[test]
fn slide_offsets_mirror_each_other() {
    for (a, b) in [(0, 1), (4, 2), (3, 3)] {
        assert_eq!(slide_offset(a, b, 2560), -slide_offset(b, a, 2560));
    }
    assert_eq!(slide_offset(0, 1, i32::MIN), i32::MIN);
    assert_eq!(slide_offset(7, 7, i32::MIN), 0);
}

#[test]
fn shifting_keeps_the_size() {
    assert_eq!(
        shift_x(rect(10, 20, 30, 40), -1920),
        rect(-1910, 20, 30, 40)
    );
    assert_eq!(shift_x(rect(10, 20, 30, 40), 0), rect(10, 20, 30, 40));
}

#[test]
fn a_clip_is_what_window_and_monitor_share() {
    let monitor = rect(100, 50, 200, 100);
    let window = rect(250, 120, 300, 300);
    let clipped = clip_window(window, monitor).expect("a corner is visible");
    assert_eq!(clipped.host, rect(250, 120, 50, 30));
    assert_eq!(clipped.source_x, 0);
    assert_eq!(clipped.source_y, 0);
    assert_eq!(clipped.source_width, 50);
    assert_eq!(clipped.source_height, 30);

    let around = rect(0, 0, 1000, 1000);
    let clipped = clip_window(around, monitor).expect("the window covers the monitor");
    assert_eq!(clipped.host, monitor);
    assert_eq!((clipped.source_x, clipped.source_y), (100, 50));
}

#[test]
fn touching_is_not_overlapping() {
    let monitor = rect(0, 0, 1920, 1080);
    assert!(clip_window(rect(1920, 0, 400, 400), monitor).is_none());
    assert!(clip_window(rect(-400, 0, 400, 400), monitor).is_none());
    assert!(clip_window(rect(0, 1080, 400, 400), monitor).is_none());
    assert!(clip_window(rect(0, -400, 400, 400), monitor).is_none());
    assert!(clip_window(rect(10, 10, 0, 400), monitor).is_none());
    assert!(clip_window(rect(10, 10, 400, -5), monitor).is_none());
    assert!(clip_window(rect(1919, 1079, 400, 400), monitor).is_some());
}

#[test]
fn edges_are_held_inside_the_coordinates() {
    let monitor = rect(i32::MAX - 100, 0, i32::MAX, 1080);
    let window = rect(i32::MAX - 50, 0, i32::MAX, 1080);
    let clipped = clip_window(window, monitor).expect("fifty columns are left");
    assert_eq!(clipped.host, rect(i32::MAX - 50, 0, 50, 1080));
}

#[test]
fn a_thumbnail_of_the_same_size_is_not_scaled() {
    let monitor = rect(0, 0, 1920, 1080);
    let visual = rect(-120, -30, 800, 600);
    let plain = clip_window(visual, monitor).expect("part is visible");
    let scaled = clip_thumbnail(visual, monitor, 800, 600).expect("part is visible");
    assert_eq!(plain, scaled);

    // A product that leaves the coordinates is held at their edge.
    let wide = rect(-60_000, 0, 70_000, 100);
    let plain = clip_window(wide, monitor).expect("part is visible");
    let scaled = clip_thumbnail(wide, monitor, 70_000, 100).expect("part is visible");
    assert_eq!(plain.source_x, 60_000);
    assert_eq!(scaled.source_x, i32::MAX / 70_000);
}

#[test]
fn a_crop_is_never_empty_and_never_outside() {
    let monitor = rect(0, 0, 1920, 1080);
    let visual = rect(-1000, 0, 1001, 500);
    let clipped = clip_thumbnail(visual, monitor, 10, 10).expect("one column is visible");
    assert_eq!(clipped.host, rect(0, 0, 1, 500));
    assert_eq!(clipped.source_x, 9);
    assert_eq!(clipped.source_width, 1);
    assert_eq!(clipped.source_height, 10);

    let clipped = clip_thumbnail(visual, monitor, -5, 0).expect("one column is visible");
    assert_eq!((clipped.source_x, clipped.source_width), (0, 1));
    assert_eq!((clipped.source_y, clipped.source_height), (0, 1));
}

#[test]
fn the_default_rect_is_empty() {
    assert_eq!(Rect::default(), rect(0, 0, 0, 0));
}

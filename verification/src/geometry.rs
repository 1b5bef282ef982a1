//! Rectangles, and the part of a sliding window that its monitor shows.
use vstd::prelude::*;

verus! {

/// A rectangle of pixels: the corner `left`/`top`, the width `right` and the height `bottom`.
#[derive(Clone, Copy, Debug, PartialEq, Eq, Structural)]
pub struct Rect {
    pub left: i32,
    pub top: i32,
    pub right: i32,
    pub bottom: i32,
}

impl Default for Rect {
    fn default() -> (r: Self)
        ensures
            r == Rect::zero(),
    {
        Rect { left: 0, top: 0, right: 0, bottom: 0 }
    }
}

impl Rect {
    pub open spec fn zero() -> Rect {
        Rect { left: 0, top: 0, right: 0, bottom: 0 }
    }

    /// The pixel `(x, y)` belongs to the rectangle.
    pub open spec fn covers(self, x: int, y: int) -> bool {
        &&& self.left <= x < self.left + self.right
        &&& self.top <= y < self.top + self.bottom
    }

    /// The rectangle moved `dx` pixels to the right.
    pub open spec fn shifted(self, dx: int) -> Rect {
        Rect { left: (self.left + dx) as i32, ..self }
    }
}

pub open spec fn smaller(a: int, b: int) -> int {
    if a <= b {
        a
    } else {
        b
    }
}

pub open spec fn larger(a: int, b: int) -> int {
    if a >= b {
        a
    } else {
        b
    }
}

pub open spec fn fits_i32(x: int) -> bool {
    i32::MIN <= x <= i32::MAX
}

pub(crate) fn is_i32(x: i64) -> (r: bool)
    ensures
        r == fits_i32(x as int),
{
    i32::MIN as i64 <= x && x <= i32::MAX as i64
}

/// `x`, or the bound of `i32` that lies nearest to it.
pub open spec fn saturated(x: int) -> int {
    if x < i32::MIN {
        i32::MIN as int
    } else if x > i32::MAX {
        i32::MAX as int
    } else {
        x
    }
}

fn saturate(x: i64) -> (r: i32)
    ensures
        r == saturated(x as int),
{
    if x < i32::MIN as i64 {
        i32::MIN
    } else if x > i32::MAX as i64 {
        i32::MAX
    } else {
        x as i32
    }
}

pub(crate) fn smaller_of(a: i32, b: i32) -> (r: i32)
    ensures
        r == smaller(a as int, b as int),
{
    if a <= b {
        a
    } else {
        b
    }
}

pub(crate) fn larger_of(a: i32, b: i32) -> (r: i32)
    ensures
        r == larger(a as int, b as int),
{
    if a >= b {
        a
    } else {
        b
    }
}

/// Which way the workspaces travel: 1 when the target index is the higher one, -1 when it is the
/// lower one, 0 when both are the same workspace.
pub open spec fn direction(from_idx: int, to_idx: int) -> int {
    if to_idx > from_idx {
        1
    } else if to_idx < from_idx {
        -1
    } else {
        0
    }
}

/// Horizontal shift for a workspace change, in pixels.
///
/// A higher target index enters from the right (`+width`). A lower target index
/// enters from the left (`-width`). The distance is always one monitor width.
pub fn slide_offset(from_idx: usize, to_idx: usize, width: i32) -> (r: i32)
    requires
        to_idx < from_idx ==> width != i32::MIN,
    ensures
        r == direction(from_idx as int, to_idx as int) * width,
{
    if to_idx > from_idx {
        width
    } else if to_idx < from_idx {
        -width
    } else {
        0
    }
}

/// `rect` moved horizontally by `dx`; its size and its top edge stay.
pub fn shift_x(rect: Rect, dx: i32) -> (r: Rect)
    requires
        fits_i32(rect.left + dx),
    ensures
        r == rect.shifted(dx as int),
        r.left == rect.left + dx,
{
    Rect { left: rect.left + dx, ..rect }
}

/// The shown part of a ghost: where on the desktop it lies, and which part of the source it samples.
#[derive(Clone, Copy, Debug, PartialEq, Eq, Structural)]
pub struct ClippedGhost {
    pub host: Rect,
    pub source_x: i32,
    pub source_y: i32,
    pub source_width: i32,
    pub source_height: i32,
}

/// The first pixel column right of `r`, held inside the range of `i32`.
pub open spec fn right_edge(r: Rect) -> int {
    saturated(r.left + r.right)
}

/// The first pixel row below `r`, held inside the range of `i32`.
pub open spec fn bottom_edge(r: Rect) -> int {
    saturated(r.top + r.bottom)
}

/// The left, top, right and bottom edges of the area that `window` and `monitor` share.
pub open spec fn shared_edges(window: Rect, monitor: Rect) -> (int, int, int, int) {
    (
        larger(window.left as int, monitor.left as int),
        larger(window.top as int, monitor.top as int),
        smaller(right_edge(window), right_edge(monitor)),
        smaller(bottom_edge(window), bottom_edge(monitor)),
    )
}

/// What `clip_window` gives: the shared area, cut out of the window at its own coordinates.
pub open spec fn window_clip(window: Rect, monitor: Rect) -> Option<ClippedGhost> {
    let (left, top, right, bottom) = shared_edges(window, monitor);
    if right <= left || bottom <= top {
        None
    } else {
        Some(
            ClippedGhost {
                host: Rect {
                    left: left as i32,
                    top: top as i32,
                    right: (right - left) as i32,
                    bottom: (bottom - top) as i32,
                },
                source_x: (left - window.left) as i32,
                source_y: (top - window.top) as i32,
                source_width: (right - left) as i32,
                source_height: (bottom - top) as i32,
            },
        )
    }
}

/// Portion of `window` that lies inside `monitor`. Both rects are left/top plus size.
/// `None` when the window is fully outside the monitor.
pub fn clip_window(window: Rect, monitor: Rect) -> (r: Option<ClippedGhost>)
    ensures
        r == window_clip(window, monitor),
        r matches Some(c) ==> {
            let (left, top, right, bottom) = shared_edges(window, monitor);
            &&& c.host.left == left && c.host.top == top
            &&& c.host.right == right - left && c.host.bottom == bottom - top
            &&& c.source_x == left - window.left && c.source_y == top - window.top
            &&& c.source_width == right - left && c.source_height == bottom - top
        },
{
    let window_right: i32 = saturate(window.left as i64 + window.right as i64);
    let window_bottom: i32 = saturate(window.top as i64 + window.bottom as i64);
    let monitor_right: i32 = saturate(monitor.left as i64 + monitor.right as i64);
    let monitor_bottom: i32 = saturate(monitor.top as i64 + monitor.bottom as i64);

    let left: i32 = larger_of(window.left, monitor.left);
    let top: i32 = larger_of(window.top, monitor.top);
    let right: i32 = smaller_of(window_right, monitor_right);
    let bottom: i32 = smaller_of(window_bottom, monitor_bottom);

    if right <= left || bottom <= top {
        return None;
    }
    Some(
        ClippedGhost {
            host: Rect { left, top, right: right - left, bottom: bottom - top },
            source_x: left - window.left,
            source_y: top - window.top,
            source_width: right - left,
            source_height: bottom - top,
        },
    )
}

/// `part` of `whole` visible pixels, carried over to a thumbnail of `source` pixels. The product is
/// held inside the range of `i32`.
pub open spec fn scaled(part: int, source: int, whole: int) -> int {
    saturated(part * source) / whole
}

/// What `clip_thumbnail` gives: the clip of `visual`, its crop scaled into the thumbnail.
pub open spec fn thumbnail_clip(
    visual: Rect,
    monitor: Rect,
    source_width: int,
    source_height: int,
) -> Option<ClippedGhost> {
    match window_clip(visual, monitor) {
        None => None,
        Some(c) => {
            let (vw, vh) = (larger(visual.right as int, 1), larger(visual.bottom as int, 1));
            let (sw, sh) = (larger(source_width, 1), larger(source_height, 1));
            Some(
                ClippedGhost {
                    host: c.host,
                    source_x: scaled(c.source_x as int, sw, vw) as i32,
                    source_y: scaled(c.source_y as int, sh, vh) as i32,
                    source_width: larger(scaled(c.source_width as int, sw, vw), 1) as i32,
                    source_height: larger(scaled(c.source_height as int, sh, vh), 1) as i32,
                },
            )
        },
    }
}

/// A scaled part stays a number of pixels: neither negative nor out of the range of `i32`.
proof fn lemma_scaled_bounds(part: int, source: int, whole: int)
    requires
        0 <= part,
        1 <= source,
        1 <= whole,
    ensures
        0 <= part * source,
        0 <= scaled(part, source, whole) <= i32::MAX,
        scaled(part, source, whole) <= (part * source) / whole,
{
    let product: int = part * source;
    assert(0 <= product) by (nonlinear_arith)
        requires
            product == part * source,
            0 <= part,
            1 <= source,
    ;
    let held: int = saturated(product);
    assert(0 <= held / whole <= held) by (nonlinear_arith)
        requires
            0 <= held,
            1 <= whole,
    ;
    assert(held / whole <= product / whole) by (nonlinear_arith)
        requires
            0 <= held <= product,
            1 <= whole,
    ;
}

fn scale(part: i32, source: i32, whole: i32) -> (r: i32)
    requires
        0 <= part,
        1 <= source,
        1 <= whole,
    ensures
        r == scaled(part as int, source as int, whole as int),
        0 <= r,
{
    proof {
        lemma_scaled_bounds(part as int, source as int, whole as int);
        assert(part * source <= 0x7fff_ffff * 0x7fff_ffff) by (nonlinear_arith)
            requires
                0 <= part <= 0x7fff_ffff,
                1 <= source <= 0x7fff_ffff,
        ;
    }
    let product: i32 = saturate(part as i64 * source as i64);
    product / whole
}

/// `clip_window` is in visual-rect space. The thumbnail is the real window, which for a tiled
/// incoming window is already the post-layout size while the ghost is still interpolating.
/// Scale the crop into that thumbnail.
pub fn clip_thumbnail(visual: Rect, monitor: Rect, source_width: i32, source_height: i32) -> (r:
    Option<ClippedGhost>)
    ensures
        r == thumbnail_clip(visual, monitor, source_width as int, source_height as int),
{
    match clip_window(visual, monitor) {
        None => None,
        Some(clipped) => {
            let visual_width: i32 = larger_of(visual.right, 1);
            let visual_height: i32 = larger_of(visual.bottom, 1);
            let width: i32 = larger_of(source_width, 1);
            let height: i32 = larger_of(source_height, 1);
            Some(
                ClippedGhost {
                    host: clipped.host,
                    source_x: scale(clipped.source_x, width, visual_width),
                    source_y: scale(clipped.source_y, height, visual_height),
                    source_width: larger_of(
                        scale(clipped.source_width, width, visual_width),
                        1,
                    ),
                    source_height: larger_of(
                        scale(clipped.source_height, height, visual_height),
                        1,
                    ),
                },
            )
        },
    }
}

/// The two directions of a workspace change mirror each other: going back undoes the shift.
pub proof fn law_slide_offsets_mirror(a: int, b: int, width: int)
    ensures
        direction(a, b) * width == -(direction(b, a) * width),
        direction(a, b) * width + direction(b, a) * width == 0,
{
    assert(direction(a, b) == -direction(b, a));
    let d: int = direction(b, a);
    assert((-d) * width == -(d * width)) by (nonlinear_arith);
}

/// The workspaces travel one monitor width to a different workspace, and not at all to the same.
pub proof fn law_slide_distance(from_idx: int, to_idx: int, width: int)
    ensures
        from_idx == to_idx ==> direction(from_idx, to_idx) * width == 0,
        to_idx > from_idx ==> direction(from_idx, to_idx) * width == width,
        to_idx < from_idx ==> direction(from_idx, to_idx) * width == -width,
{
}

/// A clip shows exactly the pixels that the window and the monitor share. The last column and the
/// last row that an `i32` can name are left out: a rect that reaches past them ends there.
pub proof fn law_clip_is_the_shared_area(window: Rect, monitor: Rect, x: int, y: int)
    requires
        x < i32::MAX,
        y < i32::MAX,
    ensures
        window_clip(window, monitor) matches Some(c) ==> (c.host.covers(x, y) <==> window.covers(
            x,
            y,
        ) && monitor.covers(x, y)),
        window_clip(window, monitor) is None ==> !(window.covers(x, y) && monitor.covers(x, y)),
{
}

/// A clip shows at least one pixel, and lies inside both the window and the monitor.
pub proof fn law_clip_stays_inside_the_monitor(window: Rect, monitor: Rect)
    requires
        window_clip(window, monitor) is Some,
    ensures
        ({
            let c = window_clip(window, monitor)->0;
            &&& c.host.right > 0 && c.host.bottom > 0
            &&& monitor.left <= c.host.left
            &&& c.host.left + c.host.right <= monitor.left + monitor.right
            &&& monitor.top <= c.host.top
            &&& c.host.top + c.host.bottom <= monitor.top + monitor.bottom
            &&& window.left <= c.host.left
            &&& c.host.left + c.host.right <= window.left + window.right
            &&& window.top <= c.host.top
            &&& c.host.top + c.host.bottom <= window.top + window.bottom
            &&& c.host.left == window.left + c.source_x
            &&& c.host.top == window.top + c.source_y
            &&& c.host.right == c.source_width
            &&& c.host.bottom == c.source_height
        }),
{
}

/// Whatever the sizes are, the scaled crop is at least one pixel each way and stays inside the
/// thumbnail.
pub proof fn law_crop_stays_inside_the_thumbnail(
    visual: Rect,
    monitor: Rect,
    source_width: int,
    source_height: int,
)
    requires
        fits_i32(source_width),
        fits_i32(source_height),
        thumbnail_clip(visual, monitor, source_width, source_height) is Some,
    ensures
        ({
            let c = thumbnail_clip(visual, monitor, source_width, source_height)->0;
            &&& 0 <= c.source_x
            &&& 1 <= c.source_width
            &&& c.source_x + c.source_width <= larger(source_width, 1)
            &&& 0 <= c.source_y
            &&& 1 <= c.source_height
            &&& c.source_y + c.source_height <= larger(source_height, 1)
        }),
{
    let w = window_clip(visual, monitor)->0;
    lemma_crop_inside(
        w.source_x as int,
        w.source_width as int,
        larger(source_width, 1),
        larger(visual.right as int, 1),
    );
    lemma_crop_inside(
        w.source_y as int,
        w.source_height as int,
        larger(source_height, 1),
        larger(visual.bottom as int, 1),
    );
}

proof fn lemma_crop_inside(start: int, length: int, source: int, whole: int)
    requires
        0 <= start,
        1 <= length,
        start + length <= whole,
        1 <= source <= i32::MAX,
    ensures
        0 <= scaled(start, source, whole) <= i32::MAX,
        1 <= larger(scaled(length, source, whole), 1) <= i32::MAX,
        scaled(start, source, whole) + larger(scaled(length, source, whole), 1) <= source,
{
    lemma_scaled_bounds(start, source, whole);
    lemma_scaled_bounds(length, source, whole);
    let a: int = start * source;
    let b: int = length * source;
    let p: int = a / whole;
    let q: int = b / whole;
    assert(a + b <= whole * source && a + source <= whole * source) by (nonlinear_arith)
        requires
            a == start * source,
            b == length * source,
            0 <= start,
            1 <= length,
            start + length <= whole,
            1 <= source,
    ;
    assert(whole * p <= a && whole * q <= b) by (nonlinear_arith)
        requires
            p == a / whole,
            q == b / whole,
            1 <= whole,
    ;
    assert(p + q <= source) by (nonlinear_arith)
        requires
            whole * p <= a,
            whole * q <= b,
            a + b <= whole * source,
            1 <= whole,
    ;
    assert(p + 1 <= source) by (nonlinear_arith)
        requires
            whole * p <= a,
            a + source <= whole * source,
            1 <= source,
            1 <= whole,
    ;
}

/// A thumbnail of the visual's own size is cropped where the window itself is clipped, as long as
/// no product leaves the range of `i32`.
pub proof fn law_same_size_thumbnail_is_not_scaled(visual: Rect, monitor: Rect)
    requires
        window_clip(visual, monitor) matches Some(c) ==> {
            &&& c.source_x * visual.right <= i32::MAX
            &&& c.source_y * visual.bottom <= i32::MAX
            &&& c.source_width * visual.right <= i32::MAX
            &&& c.source_height * visual.bottom <= i32::MAX
        },
    ensures
        thumbnail_clip(visual, monitor, visual.right as int, visual.bottom as int) == window_clip(
            visual,
            monitor,
        ),
{
    if let Some(c) = window_clip(visual, monitor) {
        lemma_scaled_by_itself(c.source_x as int, visual.right as int);
        lemma_scaled_by_itself(c.source_y as int, visual.bottom as int);
        lemma_scaled_by_itself(c.source_width as int, visual.right as int);
        lemma_scaled_by_itself(c.source_height as int, visual.bottom as int);
    }
}

proof fn lemma_scaled_by_itself(part: int, whole: int)
    requires
        0 <= part,
        1 <= whole,
        part * whole <= i32::MAX,
    ensures
        scaled(part, whole, whole) == part,
{
    lemma_scaled_bounds(part, whole, whole);
    let product: int = part * whole;
    assert(product / whole == part) by (nonlinear_arith)
        requires
            product == part * whole,
            1 <= whole,
    ;
}

/// `crop` is to `source` what `part` is to `whole`, rounded down. A product of more pixels than an
/// `i32` counts is held at the largest one.
pub open spec fn in_proportion(crop: int, part: int, source: int, whole: int) -> bool {
    let product: int = if part * source <= 0x7fff_ffff {
        part * source
    } else {
        0x7fff_ffff
    };
    crop * whole <= product < (crop + 1) * whole
}

/// The scaled part is in proportion.
proof fn lemma_scaled_in_proportion(part: int, source: int, whole: int)
    requires
        0 <= part,
        1 <= source,
        1 <= whole,
    ensures
        in_proportion(scaled(part, source, whole), part, source, whole),
        scaled(part, source, whole) >= 0,
        part == 0 ==> scaled(part, source, whole) == 0,
{
    lemma_scaled_bounds(part, source, whole);
    let held: int = saturated(part * source);
    assert(held / whole * whole <= held < (held / whole + 1) * whole) by (nonlinear_arith)
        requires
            1 <= whole,
    ;
    if part == 0 {
        assert(part * source == 0) by (nonlinear_arith)
            requires
                part == 0,
        ;
        assert(0int / whole == 0) by (nonlinear_arith)
            requires
                1 <= whole,
        ;
    }
}

/// The crop along one axis: it starts where the shown part starts and is as long as the shown part,
/// both in proportion, but never less than a pixel long.
pub open spec fn crop_in_proportion(
    crop_start: int,
    crop_length: int,
    start: int,
    length: int,
    source: int,
    whole: int,
) -> bool {
    let source: int = if source >= 1 {
        source
    } else {
        1
    };
    &&& in_proportion(crop_start, start, source, whole)
    &&& in_proportion(crop_length, length, source, whole) || crop_length == 1 && in_proportion(
        0,
        length,
        source,
        whole,
    )
    &&& start == 0 ==> crop_start == 0
}

/// The crop of a thumbnail is the shown part of the window, in proportion: it starts where the part
/// that the monitor shows starts, and is as wide and as high. The host of the crop is the shown part
/// itself. Where the near edge of the window is on the monitor, the crop starts at the near edge of
/// the thumbnail.
pub proof fn law_crop_is_in_proportion(
    visual: Rect,
    monitor: Rect,
    source_width: int,
    source_height: int,
    x: int,
    y: int,
)
    requires
        fits_i32(source_width),
        fits_i32(source_height),
        x < i32::MAX,
        y < i32::MAX,
    ensures
        match thumbnail_clip(visual, monitor, source_width, source_height) {
            Some(c) => {
                &&& c.host.covers(x, y) <==> visual.covers(x, y) && monitor.covers(x, y)
                &&& crop_in_proportion(
                    c.source_x as int,
                    c.source_width as int,
                    c.host.left - visual.left,
                    c.host.right as int,
                    source_width,
                    visual.right as int,
                )
                &&& crop_in_proportion(
                    c.source_y as int,
                    c.source_height as int,
                    c.host.top - visual.top,
                    c.host.bottom as int,
                    source_height,
                    visual.bottom as int,
                )
                &&& c.source_width >= 1 && c.source_height >= 1
                &&& visual.left >= monitor.left ==> c.source_x == 0
                &&& visual.top >= monitor.top ==> c.source_y == 0
            },
            None => !(visual.covers(x, y) && monitor.covers(x, y)),
        },
{
    law_clip_is_the_shared_area(visual, monitor, x, y);
    if let Some(w) = window_clip(visual, monitor) {
        law_clip_stays_inside_the_monitor(visual, monitor);
        let (vw, vh) = (visual.right as int, visual.bottom as int);
        let (sw, sh) = (larger(source_width, 1), larger(source_height, 1));
        lemma_scaled_in_proportion(w.source_x as int, sw, vw);
        lemma_scaled_in_proportion(w.source_width as int, sw, vw);
        lemma_scaled_in_proportion(w.source_y as int, sh, vh);
        lemma_scaled_in_proportion(w.source_height as int, sh, vh);
        lemma_scaled_bounds(w.source_x as int, sw, vw);
        lemma_scaled_bounds(w.source_width as int, sw, vw);
        lemma_scaled_bounds(w.source_y as int, sh, vh);
        lemma_scaled_bounds(w.source_height as int, sh, vh);
    }
}

/// A rect that is moved sideways keeps its size and its top edge, and moving it back undoes the
/// move.
pub proof fn law_shifting_is_undone_by_shifting_back(rect: Rect, dx: int)
    requires
        fits_i32(rect.left + dx),
    ensures
        rect.shifted(dx).left - rect.left == dx,
        rect.shifted(dx).top == rect.top,
        rect.shifted(dx).right == rect.right,
        rect.shifted(dx).bottom == rect.bottom,
        rect.shifted(dx).shifted(-dx) == rect,
        Rect::zero().left == 0 && Rect::zero().top == 0,
        Rect::zero().right == 0 && Rect::zero().bottom == 0,
{
}

} // verus!

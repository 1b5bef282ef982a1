//! One window of a slide: where it starts and ends, what of its ghost is shown, and how it is put
//! back when the slide lets go of it.
use vstd::prelude::*;

use crate::geometry::{
    clip_thumbnail, crop_in_proportion, fits_i32, is_i32, larger,
    law_clip_stays_inside_the_monitor, law_crop_is_in_proportion,
    law_crop_stays_inside_the_thumbnail, thumbnail_clip, Rect,
};
use crate::ghost::{opacity_properties, source_fits, GhostClip, GhostCmd, GhostWindow,
    ThumbnailProperties};
use crate::settings::AnimationPrefix;

verus! {

/// A minimized window reports a rect around -32000; a visible one stays right of and below this.
pub const MINIMIZED: i32 = -30_000;

/// The kind of cloak that a slide puts on its windows.
pub const CLOAK_KIND: u32 = 1;

/// The value that cloaks a window.
pub const CLOAK_ON: i32 = 2;

/// The value that uncloaks a window.
pub const CLOAK_OFF: i32 = 0;

/// A call of a slide whose result does not matter.
#[derive(Debug, PartialEq, Eq)]
pub enum SlideCall {
    /// Cloak or uncloak the window.
    SetCloak { hwnd: isize, kind: u32, value: i32 },
    /// Restore the window, without its border.
    Restore { hwnd: isize },
    /// Hide the window the way that is configured.
    Hide { hwnd: isize },
    /// Put the outer rect of the window exactly there.
    MoveExact { hwnd: isize, rect: Rect },
    /// Position the window on this rect, without raising it.
    Position { hwnd: isize, rect: Rect },
    /// Update a thumbnail on this thread.
    UpdateThumb { hthumb: isize, props: ThumbnailProperties },
    /// Send a command to the ghost owner.
    Send { cmd: GhostCmd },
    /// Give the overlay the alpha of a fade that has run for `elapsed` out of `duration`.
    FadeOverlay { hwnd: isize, elapsed: u128, duration: u128 },
    /// Wait until the window system has composed a frame.
    Flush,
    DisableStackbar { disabled: bool },
    NotifyStackbar,
    NotifyTransparency,
    NotifyFocus { hwnd: isize },
    SuppressBorders,
    RestoreBorders,
    Focus { hwnd: isize },
    CenterCursor { rect: Rect },
    /// Let the slide lock of this thread go.
    ReleaseLock,
}

/// A call of a slide whose result decides what comes next.
#[derive(Debug, PartialEq, Eq)]
pub enum Ask {
    /// No question: the slide goes on at once.
    Nothing,
    /// There is nothing more to do.
    Finished,
    /// The visible rect of the window.
    WindowRect { hwnd: isize },
    /// The rect of the window with its invisible border.
    OuterRect { hwnd: isize },
    IsMaximized { hwnd: isize },
    /// Whether hidden windows are cloaked, as configured.
    CloakHides,
    /// The ghost owner's reply to a command that creates a ghost.
    CreateGhost { cmd: GhostCmd },
    /// The ghost owner's reply to a command that creates an overlay.
    CreateOverlay { cmd: GhostCmd },
    /// Whether an animation of this kind is in progress.
    InProgress { prefix: AnimationPrefix },
    /// The window in the foreground, or 0.
    Foreground,
}

/// The answer to a question. What failed is `None`.
#[derive(Clone, Copy, Debug, PartialEq, Eq)]
pub enum Answer {
    /// There was no question.
    Nothing,
    Area(Option<Rect>),
    Flag(bool),
    Created(Option<(isize, isize)>),
    Overlaid(Option<(isize, isize, isize)>),
    Handle(isize),
}

/// `answer` is of the kind that `ask` is answered with.
pub open spec fn answers(ask: Ask, answer: Answer) -> bool {
    match ask {
        Ask::Nothing => answer is Nothing,
        Ask::Finished => false,
        Ask::WindowRect { .. } => answer is Area,
        Ask::OuterRect { .. } => answer is Area,
        Ask::IsMaximized { .. } => answer is Flag,
        Ask::CloakHides => answer is Flag,
        Ask::CreateGhost { .. } => answer is Created,
        Ask::CreateOverlay { .. } => answer is Overlaid,
        Ask::InProgress { .. } => answer is Flag,
        Ask::Foreground => answer is Handle,
    }
}

/// Whether `answer` is of the kind that `ask` is answered with.
pub fn is_answer(ask: &Ask, answer: &Answer) -> (r: bool)
    ensures
        r == answers(*ask, *answer),
{
    match ask {
        Ask::Nothing => matches!(answer, Answer::Nothing),
        Ask::Finished => false,
        Ask::WindowRect { .. } => matches!(answer, Answer::Area(_)),
        Ask::OuterRect { .. } => matches!(answer, Answer::Area(_)),
        Ask::IsMaximized { .. } => matches!(answer, Answer::Flag(_)),
        Ask::CloakHides => matches!(answer, Answer::Flag(_)),
        Ask::CreateGhost { .. } => matches!(answer, Answer::Created(_)),
        Ask::CreateOverlay { .. } => matches!(answer, Answer::Overlaid(_)),
        Ask::InProgress { .. } => matches!(answer, Answer::Flag(_)),
        Ask::Foreground => matches!(answer, Answer::Handle(_)),
    }
}

// ---------------------------------------------------------------------------------------------
// Cloaks and visible rects
// ---------------------------------------------------------------------------------------------

pub open spec fn cloak_call(hwnd: isize) -> SlideCall {
    SlideCall::SetCloak { hwnd, kind: CLOAK_KIND, value: CLOAK_ON }
}

pub open spec fn uncloak_call(hwnd: isize) -> SlideCall {
    SlideCall::SetCloak { hwnd, kind: CLOAK_KIND, value: CLOAK_OFF }
}

pub fn cloak_window(hwnd: isize) -> (r: SlideCall)
    ensures
        r == cloak_call(hwnd),
{
    SlideCall::SetCloak { hwnd, kind: CLOAK_KIND, value: CLOAK_ON }
}

pub fn uncloak_window(hwnd: isize) -> (r: SlideCall)
    ensures
        r == uncloak_call(hwnd),
{
    SlideCall::SetCloak { hwnd, kind: CLOAK_KIND, value: CLOAK_OFF }
}

/// The calls that cloak the windows, one each, in order.
pub fn cloak_windows(hwnds: &[isize]) -> (r: Vec<SlideCall>)
    ensures
        r@ == hwnds@.map_values(|hwnd: isize| cloak_call(hwnd)),
{
    let mut calls: Vec<SlideCall> = Vec::new();
    let mut index: usize = 0;
    while index < hwnds.len()
        invariant
            index <= hwnds@.len(),
            calls@ == hwnds@.take(index as int).map_values(|hwnd: isize| cloak_call(hwnd)),
        decreases hwnds@.len() - index,
    {
        calls.push(cloak_window(hwnds[index]));
        index = index + 1;
        assert(calls@ =~= hwnds@.take(index as int).map_values(|hwnd: isize| cloak_call(hwnd)));
    }
    assert(hwnds@.take(index as int) =~= hwnds@);
    calls
}

/// The calls that uncloak the windows, one each, in order.
pub fn uncloak_windows(hwnds: &[isize]) -> (r: Vec<SlideCall>)
    ensures
        r@ == hwnds@.map_values(|hwnd: isize| uncloak_call(hwnd)),
{
    let mut calls: Vec<SlideCall> = Vec::new();
    let mut index: usize = 0;
    while index < hwnds.len()
        invariant
            index <= hwnds@.len(),
            calls@ == hwnds@.take(index as int).map_values(|hwnd: isize| uncloak_call(hwnd)),
        decreases hwnds@.len() - index,
    {
        calls.push(uncloak_window(hwnds[index]));
        index = index + 1;
        assert(calls@ =~= hwnds@.take(index as int).map_values(|hwnd: isize| uncloak_call(hwnd)));
    }
    assert(hwnds@.take(index as int) =~= hwnds@);
    calls
}

/// How far reading the visible rect of a window has come.
#[derive(Clone, Copy, Debug, PartialEq, Eq, Structural)]
pub enum RectRead {
    /// Waits for the rect.
    First { hwnd: isize },
    /// The window was minimized and has been restored: waits for the rect once more.
    Second { hwnd: isize },
    Done { rect: Option<Rect> },
}

/// A window with this rect is minimized.
pub open spec fn is_minimized(rect: Rect) -> bool {
    rect.left <= MINIMIZED || rect.top <= MINIMIZED
}

/// Start to read the visible rect for a slide snapshot. A minimized window is restored and cloaked
/// again so the read does not leave it on screen, and so the later slide can
/// interpolate from this size instead of the post-layout one.
pub fn snapshot_visible(hwnd: isize) -> (r: (RectRead, Ask))
    ensures
        r.0 == (RectRead::First { hwnd }),
        r.1 == r.0.asked(),
{
    visible_rect(hwnd)
}

/// Start to read the visible rect of a window.
pub fn visible_rect(hwnd: isize) -> (r: (RectRead, Ask))
    ensures
        r.0 == (RectRead::First { hwnd }),
        r.1 == r.0.asked(),
{
    (RectRead::First { hwnd }, Ask::WindowRect { hwnd })
}

impl RectRead {
    /// The question that the read waits on.
    pub open spec fn asked(self) -> Ask {
        match self {
            RectRead::First { hwnd } => Ask::WindowRect { hwnd },
            RectRead::Second { hwnd } => Ask::WindowRect { hwnd },
            RectRead::Done { .. } => Ask::Finished,
        }
    }

    /// The read after `answer`, and the calls to make on the way.
    pub open spec fn next(self, answer: Option<Rect>) -> (RectRead, Seq<SlideCall>) {
        match (self, answer) {
            (RectRead::Done { .. }, _) => (self, seq![]),
            (_, None) => (RectRead::Done { rect: None }, seq![]),
            (RectRead::First { hwnd }, Some(rect)) => if is_minimized(rect) {
                (
                    RectRead::Second { hwnd },
                    seq![SlideCall::Restore { hwnd }, cloak_call(hwnd)],
                )
            } else {
                (RectRead::Done { rect: Some(rect) }, seq![])
            },
            (RectRead::Second { .. }, Some(rect)) => if is_minimized(rect) {
                (RectRead::Done { rect: None }, seq![])
            } else {
                (RectRead::Done { rect: Some(rect) }, seq![])
            },
        }
    }

    /// Go on with the rect that the window system gave, if it gave one.
    pub fn resume(self, answer: Option<Rect>) -> (r: (RectRead, Vec<SlideCall>, Ask))
        ensures
            (r.0, r.1@) == self.next(answer),
            r.2 == r.0.asked(),
    {
        match (self, answer) {
            (RectRead::Done { .. }, _) => (self, Vec::new(), Ask::Finished),
            (_, None) => (RectRead::Done { rect: None }, Vec::new(), Ask::Finished),
            (RectRead::First { hwnd }, Some(rect)) => {
                if rect.left <= MINIMIZED || rect.top <= MINIMIZED {
                    (
                        RectRead::Second { hwnd },
                        vec![SlideCall::Restore { hwnd }, cloak_window(hwnd)],
                        Ask::WindowRect { hwnd },
                    )
                } else {
                    (RectRead::Done { rect: Some(rect) }, Vec::new(), Ask::Finished)
                }
            },
            (RectRead::Second { .. }, Some(rect)) => {
                if rect.left <= MINIMIZED || rect.top <= MINIMIZED {
                    (RectRead::Done { rect: None }, Vec::new(), Ask::Finished)
                } else {
                    (RectRead::Done { rect: Some(rect) }, Vec::new(), Ask::Finished)
                }
            },
        }
    }
}

/// A rect that a read gives is never that of a minimized window, and is the one that the window
/// system reported. A window on screen is left alone; a minimized one is restored, cloaked again
/// right after, and read once more.
pub proof fn law_read_rect_is_on_screen(hwnd: isize, first: Option<Rect>, second: Option<Rect>)
    ensures
        ({
            let (read, calls) = RectRead::First { hwnd }.next(first);
            let (again, more) = read.next(second);
            &&& read matches RectRead::Done { rect: Some(rect) } ==> !is_minimized(rect)
            &&& again is Done
            &&& again matches RectRead::Done { rect: Some(rect) } ==> !is_minimized(rect)
            &&& calls.len() == 0 || calls == seq![SlideCall::Restore { hwnd }, cloak_call(hwnd)]
            &&& more.len() == 0
            &&& first is None ==> read == (RectRead::Done { rect: None }) && calls.len() == 0
            &&& first matches Some(rect) ==> if rect.left > -30_000 && rect.top > -30_000 {
                read == (RectRead::Done { rect: first }) && calls.len() == 0
            } else {
                &&& read.asked() == (Ask::WindowRect { hwnd })
                &&& calls == seq![
                    SlideCall::Restore { hwnd },
                    SlideCall::SetCloak { hwnd, kind: 1, value: 2 },
                ]
                &&& match second {
                    Some(rect) => again == (RectRead::Done {
                        rect: if rect.left > -30_000 && rect.top > -30_000 {
                            second
                        } else {
                            None
                        },
                    }),
                    None => again == (RectRead::Done { rect: None }),
                }
            }
            &&& RectRead::First { hwnd }.asked() == (Ask::WindowRect { hwnd })
        }),
{
}

// ---------------------------------------------------------------------------------------------
// Tracked windows
// ---------------------------------------------------------------------------------------------

/// One window of a slide.
#[derive(Debug, PartialEq, Eq)]
pub struct TrackedWindow {
    pub hwnd: isize,
    pub incoming: bool,
    /// Floating windows keep the outer rect captured before the slide.
    pub floating: bool,
    pub outer: Option<Rect>,
    pub start: Rect,
    pub target: Rect,
    /// Invisible resize border between the outer rect and the visible frame.
    /// Thumbnail source coordinates start at the outer rect.
    pub source_offset: (i32, i32),
    pub active: bool,
    pub ghost_window: Option<GhostWindow>,
    pub cloaked: bool,
}

/// A window that has not moved yet. The caller cloaks every participant before the layout snap.
pub open spec fn fresh_window(
    hwnd: isize,
    incoming: bool,
    floating: bool,
    outer: Option<Rect>,
) -> TrackedWindow {
    TrackedWindow {
        hwnd,
        incoming,
        floating,
        outer,
        start: Rect::zero(),
        target: Rect::zero(),
        source_offset: (0, 0),
        active: false,
        ghost_window: None,
        cloaked: true,
    }
}

pub fn tracked_window(hwnd: isize, incoming: bool, floating: bool, outer: Option<Rect>) -> (r:
    TrackedWindow)
    ensures
        r == fresh_window(hwnd, incoming, floating, outer),
{
    TrackedWindow {
        hwnd,
        incoming,
        floating,
        outer,
        start: Rect::default(),
        target: Rect::default(),
        source_offset: (0, 0),
        active: false,
        ghost_window: None,
        // The caller cloaks every participant before the layout snap.
        cloaked: true,
    }
}

impl TrackedWindow {
    /// The size of the thumbnail. Incoming tiled windows were already moved to the post-layout size
    /// while cloaked, so the thumbnail is that size. Outgoing and floating windows
    /// were not resized; their pixels still match `start`.
    pub open spec fn source_size(self) -> (i32, i32) {
        if self.incoming && !self.floating {
            (self.target.right, self.target.bottom)
        } else {
            (self.start.right, self.start.bottom)
        }
    }

    /// The part of the ghost that `visual` shows on the monitor, in the coordinates of the outer
    /// rect.
    pub open spec fn shown(self, ghost: GhostWindow, visual: Rect, monitor: Rect) -> GhostClip {
        let (width, height) = self.source_size();
        match thumbnail_clip(visual, monitor, width as int, height as int) {
            Some(c) => ghost.clipped(
                Some(c.host),
                (c.source_x + self.source_offset.0) as i32,
                (c.source_y + self.source_offset.1) as i32,
                c.source_width,
                c.source_height,
            ),
            None => ghost.clipped(None, 0, 0, 0, 0),
        }
    }

    /// The corner of the shown part, in the coordinates of the outer rect, is one of `i32`.
    pub open spec fn shown_fits(self, visual: Rect, monitor: Rect) -> bool {
        let (width, height) = self.source_size();
        thumbnail_clip(visual, monitor, width as int, height as int) matches Some(c) ==> {
            &&& fits_i32(c.source_x + self.source_offset.0)
            &&& fits_i32(c.source_y + self.source_offset.1)
        }
    }
}

pub fn thumbnail_source(window: &TrackedWindow) -> (r: (i32, i32))
    ensures
        r == window.source_size(),
{
    if window.incoming && !window.floating {
        (window.target.right, window.target.bottom)
    } else {
        (window.start.right, window.start.bottom)
    }
}

/// The clip of a ghost whose window is, at this moment of the slide, at `visual`.
pub fn clip_for(ghost: &GhostWindow, window: &TrackedWindow, visual: Rect, monitor: Rect) -> (r:
    GhostClip)
    requires
        window.shown_fits(visual, monitor),
    ensures
        r == window.shown(*ghost, visual, monitor),
{
    let (source_width, source_height) = thumbnail_source(window);
    let (offset_x, offset_y) = window.source_offset;
    match clip_thumbnail(visual, monitor, source_width, source_height) {
        Some(clipped) => ghost.clip(
            Some(clipped.host),
            clipped.source_x + offset_x,
            clipped.source_y + offset_y,
            clipped.source_width,
            clipped.source_height,
        ),
        None => ghost.clip(None, 0, 0, 0, 0),
    }
}

/// Whether `clip_for` can name the corner of the shown part.
pub fn is_clip_nameable(window: &TrackedWindow, visual: Rect, monitor: Rect) -> (r: bool)
    ensures
        r == window.shown_fits(visual, monitor),
{
    let (source_width, source_height) = thumbnail_source(window);
    match clip_thumbnail(visual, monitor, source_width, source_height) {
        Some(clipped) => {
            let x: i64 = clipped.source_x as i64 + window.source_offset.0 as i64;
            let y: i64 = clipped.source_y as i64 + window.source_offset.1 as i64;
            is_i32(x) && is_i32(y)
        },
        None => true,
    }
}

/// A question is answered by an answer of its kind, whatever it says, and by no other; the end is
/// answered by nothing.
pub proof fn law_answers_are_of_the_kind_asked_for(hwnd: isize, cmd: GhostCmd, answer: Answer)
    ensures
        answers(Ask::Nothing, answer) <==> answer is Nothing,
        !answers(Ask::Finished, answer),
        answers(Ask::WindowRect { hwnd }, answer) <==> answer is Area,
        answers(Ask::OuterRect { hwnd }, answer) <==> answer is Area,
        answers(Ask::IsMaximized { hwnd }, answer) <==> answer is Flag,
        answers(Ask::CloakHides, answer) <==> answer is Flag,
        answers(Ask::CreateGhost { cmd }, answer) <==> answer is Created,
        answers(Ask::CreateOverlay { cmd }, answer) <==> answer is Overlaid,
        answers(Ask::Foreground, answer) <==> answer is Handle,
        forall|prefix: AnimationPrefix| #[trigger]
            answers(Ask::InProgress { prefix }, answer) <==> answer is Flag,
{
}

/// A window that is off the monitor can always be clipped. One that is on it cannot only where the
/// crop and the border together leave the range of `i32`.
pub proof fn law_clip_is_refused_only_out_of_range(
    window: TrackedWindow,
    visual: Rect,
    monitor: Rect,
)
    ensures
        !window.shown_fits(visual, monitor) ==> {
            let (width, height) = if window.incoming && !window.floating {
                (window.target.right as int, window.target.bottom as int)
            } else {
                (window.start.right as int, window.start.bottom as int)
            };
            thumbnail_clip(visual, monitor, width, height) matches Some(c) && !(-0x8000_0000
                <= c.source_x + window.source_offset.0 <= 0x7fff_ffff && -0x8000_0000 <= c.source_y
                + window.source_offset.1 <= 0x7fff_ffff)
        },
{
}

/// A window whose thumbnail and border together stay inside the range of `i32` can be clipped
/// anywhere, and the clip lies inside the thumbnail: from the border on, and never past its far
/// edge.
pub proof fn law_clip_lies_in_the_thumbnail(
    window: TrackedWindow,
    ghost: GhostWindow,
    visual: Rect,
    monitor: Rect,
)
    requires
        0 <= window.source_offset.0,
        0 <= window.source_offset.1,
        larger(window.source_size().0 as int, 1) + window.source_offset.0 <= i32::MAX,
        larger(window.source_size().1 as int, 1) + window.source_offset.1 <= i32::MAX,
    ensures
        window.shown_fits(visual, monitor),
        ({
            let clip = window.shown(ghost, visual, monitor);
            let (width, height) = window.source_size();
            clip.host is Some ==> {
                &&& window.source_offset.0 <= clip.source_x
                &&& clip.source_x + clip.source_width <= window.source_offset.0 + larger(
                    width as int,
                    1,
                )
                &&& window.source_offset.1 <= clip.source_y
                &&& clip.source_y + clip.source_height <= window.source_offset.1 + larger(
                    height as int,
                    1,
                )
                &&& source_fits(
                    clip.source_x as int,
                    clip.source_y as int,
                    clip.source_width as int,
                    clip.source_height as int,
                )
            }
        }),
{
    let (width, height) = window.source_size();
    if thumbnail_clip(visual, monitor, width as int, height as int) is Some {
        law_crop_stays_inside_the_thumbnail(visual, monitor, width as int, height as int);
    }
}

// ---------------------------------------------------------------------------------------------
// Putting a window back
// ---------------------------------------------------------------------------------------------

/// How far placing an incoming window has come: each stage waits for the answer to one question.
#[derive(Clone, Copy, Debug, PartialEq, Eq, Structural)]
pub enum Placing {
    /// Where a floating window is.
    Outer,
    /// Whether a tiled window is maximized.
    Maximized,
    /// Where a tiled window is.
    Rect,
    Placed,
}

impl TrackedWindow {
    /// Where placing begins. A floating window that was never captured stays where it is.
    pub open spec fn placing(self) -> Placing {
        if !self.floating {
            Placing::Maximized
        } else if self.outer is Some {
            Placing::Outer
        } else {
            Placing::Placed
        }
    }

    /// The question that a stage of placing waits on.
    pub open spec fn placing_asks(self, placing: Placing) -> Ask {
        match placing {
            Placing::Outer => Ask::OuterRect { hwnd: self.hwnd },
            Placing::Maximized => Ask::IsMaximized { hwnd: self.hwnd },
            Placing::Rect => Ask::WindowRect { hwnd: self.hwnd },
            Placing::Placed => Ask::Nothing,
        }
    }

    /// The stage after `answer`, and the call that moves the window, if it has to move.
    pub open spec fn place_next(self, placing: Placing, answer: Answer) -> (
        Placing,
        Seq<SlideCall>,
    ) {
        match (placing, answer) {
            (Placing::Outer, Answer::Area(area)) => (
                Placing::Placed,
                if area == self.outer {
                    seq![]
                } else {
                    seq![SlideCall::MoveExact { hwnd: self.hwnd, rect: self.outer->0 }]
                },
            ),
            (Placing::Maximized, Answer::Flag(maximized)) => if maximized || self.target.right <= 0
                || self.target.bottom <= 0 {
                (Placing::Placed, seq![])
            } else {
                (Placing::Rect, seq![])
            },
            (Placing::Rect, Answer::Area(area)) => (
                Placing::Placed,
                if area == Some(self.target) {
                    seq![]
                } else {
                    seq![SlideCall::Position { hwnd: self.hwnd, rect: self.target }]
                },
            ),
            _ => (Placing::Placed, seq![]),
        }
    }
}

fn is_at(area: Option<Rect>, rect: Rect) -> (r: bool)
    ensures
        r == (area == Some(rect)),
{
    match area {
        Some(area) => area == rect,
        None => false,
    }
}

fn ask_placing(window: &TrackedWindow, placing: Placing) -> (r: Ask)
    ensures
        r == window.placing_asks(placing),
{
    match placing {
        Placing::Outer => Ask::OuterRect { hwnd: window.hwnd },
        Placing::Maximized => Ask::IsMaximized { hwnd: window.hwnd },
        Placing::Rect => Ask::WindowRect { hwnd: window.hwnd },
        Placing::Placed => Ask::Nothing,
    }
}

/// Start to place an incoming window. Tiled windows get one shadow-aware placement. Floating
/// windows are put back on the outer rect captured before the slide, so they cannot shrink.
/// Skips windows already in place: the move is synchronous and forces a frame
/// recalculation, which stalls on apps with a busy UI thread.
pub fn place_incoming(window: &TrackedWindow) -> (r: Placing)
    ensures
        r == window.placing(),
{
    if !window.floating {
        Placing::Maximized
    } else if window.outer.is_some() {
        Placing::Outer
    } else {
        Placing::Placed
    }
}

/// Go on with placing an incoming window.
pub fn place_next(window: &TrackedWindow, placing: Placing, answer: Answer) -> (r: (
    Placing,
    Vec<SlideCall>,
))
    requires
        answers(window.placing_asks(placing), answer),
        placing is Outer ==> window.outer is Some,
    ensures
        (r.0, r.1@) == window.place_next(placing, answer),
{
    match (placing, answer) {
        (Placing::Outer, Answer::Area(area)) => {
            let mut calls: Vec<SlideCall> = Vec::new();
            if let Some(outer) = window.outer {
                if !is_at(area, outer) {
                    calls.push(SlideCall::MoveExact { hwnd: window.hwnd, rect: outer });
                }
            }
            (Placing::Placed, calls)
        },
        (Placing::Maximized, Answer::Flag(maximized)) => {
            if maximized || window.target.right <= 0 || window.target.bottom <= 0 {
                (Placing::Placed, Vec::new())
            } else {
                (Placing::Rect, Vec::new())
            }
        },
        (Placing::Rect, Answer::Area(area)) => {
            let mut calls: Vec<SlideCall> = Vec::new();
            if !is_at(area, window.target) {
                calls.push(SlideCall::Position { hwnd: window.hwnd, rect: window.target });
            }
            (Placing::Placed, calls)
        },
        _ => (Placing::Placed, Vec::new()),
    }
}

/// A floating window ends on the outer rect that was captured before the slide, and a tiled one on
/// its target: whatever the window system says, either the window is there already, and is not moved
/// at all, or it is moved there once. A maximized window stays as it is, and so do a floating one
/// that was never captured and a tiled one without a target.
pub proof fn law_placed_window_is_in_place(window: TrackedWindow, area: Option<Rect>, maximized: bool)
    requires
        window.incoming,
    ensures
        window.floating && window.outer is None ==> window.placing() is Placed,
        window.floating && window.outer is Some ==> {
            let (placing, calls) = window.place_next(window.placing(), Answer::Area(area));
            &&& window.placing_asks(window.placing()) == (Ask::OuterRect { hwnd: window.hwnd })
            &&& placing is Placed
            &&& area == window.outer ==> calls.len() == 0
            &&& area != window.outer ==> calls == seq![
                SlideCall::MoveExact { hwnd: window.hwnd, rect: window.outer->0 },
            ]
        },
        !window.floating ==> {
            let (first, none) = window.place_next(window.placing(), Answer::Flag(maximized));
            let (placing, calls) = window.place_next(first, Answer::Area(area));
            &&& window.placing_asks(window.placing()) == (Ask::IsMaximized { hwnd: window.hwnd })
            &&& none.len() == 0
            &&& first is Placed <==> maximized || window.target.right <= 0
                || window.target.bottom <= 0
            &&& !(first is Placed) ==> window.placing_asks(first) == (Ask::WindowRect {
                hwnd: window.hwnd,
            })
            &&& placing is Placed
            &&& first is Placed || area == Some(window.target) ==> calls.len() == 0
            &&& !(first is Placed) && area != Some(window.target) ==> calls == seq![
                SlideCall::Position { hwnd: window.hwnd, rect: window.target },
            ]
        },
        window.placing() is Outer ==> {
            let (placing, calls) = window.place_next(Placing::Outer, Answer::Area(area));
            &&& placing is Placed
            &&& area == window.outer || calls == seq![
                SlideCall::MoveExact { hwnd: window.hwnd, rect: window.outer->0 },
            ]
        },
        window.placing() is Maximized ==> {
            let (first, none) = window.place_next(Placing::Maximized, Answer::Flag(maximized));
            let (placing, calls) = window.place_next(Placing::Rect, Answer::Area(area));
            &&& none.len() == 0
            &&& first is Placed <==> maximized || window.target.right <= 0
                || window.target.bottom <= 0
            &&& first is Placed || first is Rect
            &&& placing is Placed
            &&& area == Some(window.target) || calls == seq![
                SlideCall::Position { hwnd: window.hwnd, rect: window.target },
            ]
        },
{
}

/// The calls that reveal an incoming window: its cloak goes, then the thumbnail of its ghost, then
/// it is restored.
pub open spec fn reveal_calls(window: TrackedWindow, ghost: Option<GhostWindow>) -> Seq<SlideCall> {
    let uncloak = if window.cloaked {
        seq![uncloak_call(window.hwnd)]
    } else {
        seq![]
    };
    let fade = match ghost {
        Some(ghost) => seq![
            SlideCall::UpdateThumb { hthumb: ghost.hthumb, props: opacity_properties(0) },
        ],
        None => seq![],
    };
    uncloak + fade + seq![SlideCall::Restore { hwnd: window.hwnd }]
}

/// Reveal an incoming window. A ghost left under its revealed window doubles any translucent layer
/// for a frame, so its thumbnail is hidden right after the uncloak, before anything
/// that waits on the window's thread. Destroying the host on the owner thread
/// would land a frame late.
pub fn reveal_incoming(window: &mut TrackedWindow, ghost: Option<&GhostWindow>) -> (r: Vec<
    SlideCall,
>)
    ensures
        r@ == reveal_calls(
            *old(window),
            match ghost {
                Some(ghost) => Some(*ghost),
                None => None,
            },
        ),
        *final(window) == (TrackedWindow { cloaked: false, ..*old(window) }),
{
    let mut calls: Vec<SlideCall> = Vec::new();
    if window.cloaked {
        calls.push(uncloak_window(window.hwnd));
        window.cloaked = false;
    }
    if let Some(ghost) = ghost {
        let (hthumb, props) = ghost.set_opacity(0);
        calls.push(SlideCall::UpdateThumb { hthumb, props });
    }
    calls.push(SlideCall::Restore { hwnd: window.hwnd });
    calls
}

/// The calls that conceal an outgoing window once it is hidden.
pub open spec fn conceal_calls(window: TrackedWindow, cloak_hides: bool) -> Seq<SlideCall> {
    if window.cloaked && !cloak_hides {
        seq![uncloak_call(window.hwnd)]
    } else {
        seq![]
    }
}

/// Go on with an outgoing window that was just hidden. Minimizing or hiding does not clear a cloak
/// that the slide applied. Drop it only after the window is minimized or hidden, so it does not
/// flash on screen. Where hiding is cloaking, the cloak stays in place on purpose.
pub fn conceal_outgoing(window: &mut TrackedWindow, cloak_hides: bool) -> (r: Vec<SlideCall>)
    ensures
        r@ == conceal_calls(*old(window), cloak_hides),
        *final(window) == (TrackedWindow {
            cloaked: old(window).cloaked && cloak_hides,
            ..*old(window)
        }),
{
    let mut calls: Vec<SlideCall> = Vec::new();
    if window.cloaked && !cloak_hides {
        calls.push(uncloak_window(window.hwnd));
        window.cloaked = false;
    }
    calls
}

/// How far putting a window back has come.
#[derive(Clone, Copy, Debug, PartialEq, Eq, Structural)]
pub enum Settling {
    /// An incoming window is being placed.
    Place { placing: Placing },
    /// An outgoing window is hidden: waits for how hiding is configured.
    Conceal,
    Settled,
}

/// The command that takes the ghost of a window down, if it has one.
pub open spec fn drop_calls(ghost: Option<GhostWindow>) -> Seq<SlideCall> {
    match ghost {
        Some(ghost) => match ghost.destroy_command() {
            Some(cmd) => seq![SlideCall::Send { cmd }],
            None => seq![],
        },
        None => seq![],
    }
}

/// A window that the slide has let go of, as it was otherwise.
pub open spec fn dropped(window: TrackedWindow) -> TrackedWindow {
    TrackedWindow { active: false, ghost_window: None, ..window }
}

impl TrackedWindow {
    /// The question that a stage of settling waits on.
    pub open spec fn settling_asks(self, settling: Settling) -> Ask {
        match settling {
            Settling::Place { placing } => self.placing_asks(placing),
            Settling::Conceal => Ask::CloakHides,
            Settling::Settled => Ask::Nothing,
        }
    }

    /// The stage fits the window: an incoming one is placed, a floating one by its outer rect; an
    /// outgoing one is concealed.
    pub open spec fn settling_wf(self, settling: Settling) -> bool {
        match settling {
            Settling::Place { placing } => {
                &&& self.incoming
                &&& !(placing is Placed)
                &&& placing is Outer <==> self.floating
                &&& placing is Outer ==> self.outer is Some
            },
            Settling::Conceal => !self.incoming,
            Settling::Settled => true,
        }
    }

    /// The window once it is revealed and let go of.
    pub open spec fn revealed(self) -> TrackedWindow {
        dropped(TrackedWindow { cloaked: false, ..self })
    }

    /// The calls that reveal the window and take its ghost down.
    pub open spec fn revealed_calls(self) -> Seq<SlideCall> {
        reveal_calls(self, self.ghost_window) + drop_calls(self.ghost_window)
    }

    /// Where settling begins: the window, the stage, and the calls.
    pub open spec fn settle_start(self) -> (TrackedWindow, Settling, Seq<SlideCall>) {
        if !self.incoming {
            (self, Settling::Conceal, seq![SlideCall::Hide { hwnd: self.hwnd }])
        } else if self.placing() is Placed {
            (self.revealed(), Settling::Settled, self.revealed_calls())
        } else {
            (self, Settling::Place { placing: self.placing() }, seq![])
        }
    }

    /// How settling goes on: the window, the stage, and the calls. The ghost goes last.
    pub open spec fn settle_next(self, settling: Settling, answer: Answer) -> (
        TrackedWindow,
        Settling,
        Seq<SlideCall>,
    ) {
        match (settling, answer) {
            (Settling::Place { placing }, _) => {
                let (placing, calls) = self.place_next(placing, answer);
                if placing is Placed {
                    (self.revealed(), Settling::Settled, calls + self.revealed_calls())
                } else {
                    (self, Settling::Place { placing }, calls)
                }
            },
            (Settling::Conceal, Answer::Flag(cloak_hides)) => (
                dropped(TrackedWindow { cloaked: self.cloaked && cloak_hides, ..self }),
                Settling::Settled,
                conceal_calls(self, cloak_hides) + drop_calls(self.ghost_window),
            ),
            _ => (self, Settling::Settled, seq![]),
        }
    }
}

pub(crate) fn ask_settling(window: &TrackedWindow, settling: Settling) -> (r: Ask)
    ensures
        r == window.settling_asks(settling),
{
    match settling {
        Settling::Place { placing } => ask_placing(window, placing),
        Settling::Conceal => Ask::CloakHides,
        Settling::Settled => Ask::Nothing,
    }
}

/// Let go of the ghost of a window: the command that takes it down joins the calls.
pub(crate) fn drop_ghost(window: &mut TrackedWindow, calls: &mut Vec<SlideCall>)
    ensures
        *final(window) == dropped(*old(window)),
        final(calls)@ == old(calls)@ + drop_calls(old(window).ghost_window),
{
    if let Some(ghost) = window.ghost_window.take() {
        if let Some(cmd) = ghost.dispose() {
            calls.push(SlideCall::Send { cmd });
        }
    }
    window.active = false;
    assert(calls@ =~= old(calls)@ + drop_calls(old(window).ghost_window));
}

/// Reveal a window that is in place and let go of its ghost.
fn reveal_and_drop(window: &mut TrackedWindow) -> (r: Vec<SlideCall>)
    ensures
        *final(window) == old(window).revealed(),
        r@ == old(window).revealed_calls(),
{
    let taken = window.ghost_window.take();
    let mut calls = reveal_incoming(window, taken.as_ref());
    window.ghost_window = taken;
    drop_ghost(window, &mut calls);
    calls
}

/// Start to put a window back: an incoming one is shown where it belongs, an outgoing one is
/// hidden, and the ghost goes.
pub fn settle_window_now(window: &mut TrackedWindow) -> (r: (Settling, Vec<SlideCall>))
    ensures
        (*final(window), r.0, r.1@) == old(window).settle_start(),
        final(window).settling_wf(r.0),
{
    if !window.incoming {
        return (Settling::Conceal, vec![SlideCall::Hide { hwnd: window.hwnd }]);
    }
    let placing = place_incoming(window);
    if matches!(placing, Placing::Placed) {
        let calls = reveal_and_drop(window);
        (Settling::Settled, calls)
    } else {
        (Settling::Place { placing }, Vec::new())
    }
}

/// Go on with putting a window back.
pub fn settle_window_next(window: &mut TrackedWindow, settling: Settling, answer: Answer) -> (r: (
    Settling,
    Vec<SlideCall>,
))
    requires
        old(window).settling_wf(settling),
        answers(old(window).settling_asks(settling), answer),
    ensures
        (*final(window), r.0, r.1@) == old(window).settle_next(settling, answer),
        final(window).settling_wf(r.0),
{
    match (settling, answer) {
        (Settling::Place { placing }, _) => {
            let (placing, mut calls) = place_next(window, placing, answer);
            if matches!(placing, Placing::Placed) {
                let mut rest = reveal_and_drop(window);
                calls.append(&mut rest);
                (Settling::Settled, calls)
            } else {
                (Settling::Place { placing }, calls)
            }
        },
        (Settling::Conceal, Answer::Flag(cloak_hides)) => {
            let mut calls = conceal_outgoing(window, cloak_hides);
            drop_ghost(window, &mut calls);
            (Settling::Settled, calls)
        },
        _ => (Settling::Settled, Vec::new()),
    }
}

// ---------------------------------------------------------------------------------------------
// What the calls do to a window
// ---------------------------------------------------------------------------------------------

/// Whether the window is cloaked after the calls, if it was cloaked before them as `before` says:
/// the last call that cloaks or uncloaks it decides.
pub open spec fn cloaked_after(calls: Seq<SlideCall>, hwnd: isize, before: bool) -> bool
    decreases calls.len(),
{
    if calls.len() == 0 {
        before
    } else {
        match calls.last() {
            SlideCall::SetCloak { hwnd: other, value, .. } => if other == hwnd {
                value != 0
            } else {
                cloaked_after(calls.drop_last(), hwnd, before)
            },
            _ => cloaked_after(calls.drop_last(), hwnd, before),
        }
    }
}

/// Calls one after the other: each part starts from what the part before has left.
pub(crate) proof fn lemma_cloaked_after_chains(
    calls: Seq<SlideCall>,
    more: Seq<SlideCall>,
    hwnd: isize,
    before: bool,
)
    ensures
        cloaked_after(calls + more, hwnd, before) == cloaked_after(
            more,
            hwnd,
            cloaked_after(calls, hwnd, before),
        ),
    decreases more.len(),
{
    if more.len() == 0 {
        assert(calls + more =~= calls);
    } else {
        assert((calls + more).drop_last() =~= calls + more.drop_last());
        lemma_cloaked_after_chains(calls, more.drop_last(), hwnd, before);
    }
}

/// Calls that neither cloak nor uncloak the window leave it as it was.
pub(crate) proof fn lemma_cloak_untouched(calls: Seq<SlideCall>, hwnd: isize, before: bool)
    requires
        forall|k: int|
            0 <= k < calls.len() ==> !((#[trigger] calls[k]) matches SlideCall::SetCloak {
                hwnd: other,
                ..
            } && other == hwnd),
    ensures
        cloaked_after(calls, hwnd, before) == before,
    decreases calls.len(),
{
    if calls.len() > 0 {
        lemma_cloak_untouched(calls.drop_last(), hwnd, before);
    }
}

/// The calls that cloak and uncloak windows do so: in the way that a slide does, for good or until
/// the other one comes.
pub proof fn law_cloaking_is_undone_by_uncloaking(hwnd: isize, before: bool)
    ensures
        cloak_call(hwnd) == (SlideCall::SetCloak { hwnd, kind: 1, value: 2 }),
        uncloak_call(hwnd) == (SlideCall::SetCloak { hwnd, kind: 1, value: 0 }),
        cloaked_after(seq![cloak_call(hwnd)], hwnd, before),
        !cloaked_after(seq![uncloak_call(hwnd)], hwnd, before),
        !cloaked_after(seq![cloak_call(hwnd), uncloak_call(hwnd)], hwnd, before),
{
    reveal_with_fuel(cloaked_after, 3);
    assert(seq![cloak_call(hwnd), uncloak_call(hwnd)].last() == uncloak_call(hwnd));
}

/// Revealing a window leaves it uncloaked, whatever kind of window it is: what the calls do is what
/// is recorded. The cloak goes first, then the thumbnail of the ghost becomes invisible, and only
/// then is the window restored; nothing else happens to it.
pub proof fn law_revealed_window_is_uncloaked(window: TrackedWindow, ghost: Option<GhostWindow>)
    ensures
        ({
            let calls = reveal_calls(window, ghost);
            let first: int = if window.cloaked {
                1
            } else {
                0
            };
            &&& !cloaked_after(calls, window.hwnd, window.cloaked)
            &&& window.cloaked ==> calls[0] == (SlideCall::SetCloak {
                hwnd: window.hwnd,
                kind: 1,
                value: 0,
            })
            &&& ghost matches Some(ghost) ==> calls[first] matches SlideCall::UpdateThumb {
                hthumb,
                props,
            } && hthumb == ghost.hthumb && props.opacity == 0 && props.flags.opacity
                && !props.flags.destination && !props.flags.source
            &&& calls.last() == (SlideCall::Restore { hwnd: window.hwnd })
            &&& calls.len() == first + 1 + if ghost is Some {
                1int
            } else {
                0int
            }
        }),
{
    let calls = reveal_calls(window, ghost);
    let uncloak = if window.cloaked {
        seq![uncloak_call(window.hwnd)]
    } else {
        seq![]
    };
    let fade = match ghost {
        Some(ghost) => seq![
            SlideCall::UpdateThumb { hthumb: ghost.hthumb, props: opacity_properties(0) },
        ],
        None => seq![],
    };
    let rest = fade + seq![SlideCall::Restore { hwnd: window.hwnd }];
    assert(calls =~= uncloak + rest);
    lemma_cloaked_after_chains(uncloak, rest, window.hwnd, window.cloaked);
    law_cloaking_is_undone_by_uncloaking(window.hwnd, window.cloaked);
    lemma_cloak_untouched(rest, window.hwnd, false);
}

/// Concealing a window leaves it as is recorded: cloaked only if it was cloaked and hiding is
/// cloaking.
pub proof fn law_concealed_window_is_as_recorded(window: TrackedWindow, cloak_hides: bool)
    ensures
        cloaked_after(conceal_calls(window, cloak_hides), window.hwnd, window.cloaked) == (
        window.cloaked && cloak_hides),
        forall|k: int|
            0 <= k < conceal_calls(window, cloak_hides).len() ==> #[trigger] conceal_calls(
                window,
                cloak_hides,
            )[k] == (SlideCall::SetCloak { hwnd: window.hwnd, kind: 1, value: 0 }),
        conceal_calls(window, cloak_hides).len() <= 1,
{
    law_cloaking_is_undone_by_uncloaking(window.hwnd, window.cloaked);
}

/// Letting go of a ghost neither cloaks nor uncloaks anything.
proof fn lemma_drop_cloaks_nothing(calls: Seq<SlideCall>, hwnd: isize, before: bool)
    requires
        forall|k: int|
            0 <= k < calls.len() ==> !((#[trigger] calls[k]) is SetCloak),
    ensures
        cloaked_after(calls, hwnd, before) == before,
{
    lemma_cloak_untouched(calls, hwnd, before);
}

/// Putting a window back does to its cloak what is recorded, at every stage; and it cloaks or
/// uncloaks no other window.
pub proof fn law_settling_window_is_as_recorded(
    window: TrackedWindow,
    settling: Settling,
    answer: Answer,
    other: isize,
    before: bool,
)
    requires
        window.settling_wf(settling),
        answers(window.settling_asks(settling), answer),
        other != window.hwnd,
    ensures
        ({
            let (after, _, calls) = window.settle_start();
            &&& cloaked_after(calls, window.hwnd, window.cloaked) == after.cloaked
            &&& cloaked_after(calls, other, before) == before
        }),
        !(settling is Settled) ==> {
            let (after, _, calls) = window.settle_next(settling, answer);
            &&& cloaked_after(calls, window.hwnd, window.cloaked) == after.cloaked
            &&& cloaked_after(calls, other, before) == before
        },
{
    let dropping = drop_calls(window.ghost_window);
    let reveal = reveal_calls(window, window.ghost_window);
    law_revealed_window_is_uncloaked(window, window.ghost_window);
    lemma_cloaked_after_chains(reveal, dropping, window.hwnd, window.cloaked);
    lemma_drop_cloaks_nothing(dropping, window.hwnd, false);
    lemma_cloak_untouched(reveal + dropping, other, before);
    {
        let (after, stage, calls) = window.settle_start();
        if !(stage is Settled) {
            lemma_drop_cloaks_nothing(calls, window.hwnd, window.cloaked);
            lemma_drop_cloaks_nothing(calls, other, before);
        }
    }
    if let Settling::Place { placing } = settling {
        let (next, moved) = window.place_next(placing, answer);
        lemma_drop_cloaks_nothing(moved, window.hwnd, window.cloaked);
        lemma_drop_cloaks_nothing(moved, other, before);
        lemma_cloaked_after_chains(moved, reveal + dropping, window.hwnd, window.cloaked);
        lemma_cloaked_after_chains(moved, reveal + dropping, other, before);
    }
    if settling is Conceal {
        let cloak_hides = answer->Flag_0;
        let concealing = conceal_calls(window, cloak_hides);
        law_concealed_window_is_as_recorded(window, cloak_hides);
        lemma_cloaked_after_chains(concealing, dropping, window.hwnd, window.cloaked);
        lemma_drop_cloaks_nothing(dropping, window.hwnd, window.cloaked && cloak_hides);
        lemma_cloak_untouched(concealing + dropping, other, before);
    }
}

/// How a window is put back. An outgoing one is hidden at once, and what happens to its cloak comes
/// after that. An incoming one is first put in its place, then revealed. The ghost goes last of all,
/// with the command that names it, and nothing but cloak, ghost and place of the record changes.
pub proof fn law_settling_keeps_its_order(
    window: TrackedWindow,
    settling: Settling,
    answer: Answer,
)
    requires
        window.settling_wf(settling),
        answers(window.settling_asks(settling), answer),
        !(settling is Settled),
        window.ghost_window matches Some(ghost) ==> !ghost.disposed,
    ensures
        !window.incoming ==> window.settle_start().2 == seq![SlideCall::Hide { hwnd: window.hwnd }]
            && window.settle_start().1 is Conceal,
        window.incoming && window.floating && window.outer is None ==> window.settle_start().1
            is Settled,
        window.incoming && window.floating && window.outer is Some ==> window.settling_asks(
            window.settle_start().1,
        ) == (Ask::OuterRect { hwnd: window.hwnd }) && window.settle_start().2.len() == 0,
        window.incoming && !window.floating ==> window.settling_asks(window.settle_start().1) == (
        Ask::IsMaximized { hwnd: window.hwnd }) && window.settle_start().2.len() == 0,
        settling is Conceal ==> window.settling_asks(settling) is CloakHides,
        settling == (Settling::Place { placing: Placing::Rect }) ==> window.settling_asks(settling)
            == (Ask::WindowRect { hwnd: window.hwnd }),
        ({
            let (after, stage, calls) = window.settle_next(settling, answer);
            &&& stage is Settled ==> {
                &&& window.ghost_window matches Some(ghost) ==> calls.len() > 0 && calls.last() == (
                SlideCall::Send {
                    cmd: GhostCmd::Destroy { host_hwnd: ghost.host_hwnd, hthumb: ghost.hthumb },
                })
                &&& after == (TrackedWindow {
                    active: false,
                    ghost_window: None,
                    cloaked: after.cloaked,
                    ..window
                })
                &&& forall|k: int|
                    0 <= k < calls.len() ==> ((#[trigger] calls[k] is MoveExact || calls[k]
                        is Position) ==> k == 0)
            }
            &&& !(stage is Settled) ==> after == window && calls.len() == 0
        }),
{
}

/// The window is revealed by the calls from `start` on, and by no others: its cloak is taken off if
/// it has one, the thumbnail of its ghost turns transparent, it is restored, and its ghost is taken
/// down.
pub open spec fn reveals_from(window: TrackedWindow, calls: Seq<SlideCall>, start: int) -> bool {
    let shown: int = start + if window.cloaked {
        1int
    } else {
        0int
    };
    &&& window.cloaked ==> calls[start] == (SlideCall::SetCloak {
        hwnd: window.hwnd,
        kind: 1,
        value: 0,
    })
    &&& match window.ghost_window {
        Some(ghost) => {
            &&& calls.len() == shown + 3
            &&& calls[shown] matches SlideCall::UpdateThumb { hthumb, props } && hthumb
                == ghost.hthumb && props.opacity == 0 && props.flags.opacity
            &&& calls[shown + 1] == (SlideCall::Restore { hwnd: window.hwnd })
            &&& calls[shown + 2] == (SlideCall::Send {
                cmd: GhostCmd::Destroy { host_hwnd: ghost.host_hwnd, hthumb: ghost.hthumb },
            })
        },
        None => {
            &&& calls.len() == shown + 1
            &&& calls[shown] == (SlideCall::Restore { hwnd: window.hwnd })
        },
    }
}

/// An incoming window is moved only if it is not where it belongs, in one call, and revealed right
/// after that. An outgoing one is hidden, and its ghost goes when its cloak has been dealt with.
pub proof fn law_window_is_revealed_in_its_place(
    window: TrackedWindow,
    area: Option<Rect>,
    cloak_hides: bool,
)
    requires
        window.ghost_window matches Some(ghost) ==> !ghost.disposed,
    ensures
        window.incoming && window.floating && window.outer is None ==> reveals_from(
            window,
            window.settle_start().2,
            0,
        ),
        window.incoming && window.floating && window.outer is Some ==> {
            let (_, stage, calls) = window.settle_next(
                window.settle_start().1,
                Answer::Area(area),
            );
            &&& stage is Settled
            &&& area == window.outer ==> reveals_from(window, calls, 0)
            &&& area != window.outer ==> reveals_from(window, calls, 1) && calls[0] == (
            SlideCall::MoveExact { hwnd: window.hwnd, rect: window.outer->0 })
        },
        window.incoming && !window.floating ==> {
            let (_, last, kept) = window.settle_next(
                window.settle_start().1,
                Answer::Flag(true),
            );
            &&& last is Settled && reveals_from(window, kept, 0)
        },
        window.incoming && !window.floating && window.target.right > 0 && window.target.bottom > 0
            ==> {
            let (same, asking, none) = window.settle_next(
                window.settle_start().1,
                Answer::Flag(false),
            );
            let (_, stage, calls) = same.settle_next(asking, Answer::Area(area));
            &&& same == window && none.len() == 0
            &&& window.settling_asks(asking) == (Ask::WindowRect { hwnd: window.hwnd })
            &&& stage is Settled
            &&& area == Some(window.target) ==> reveals_from(window, calls, 0)
            &&& area != Some(window.target) ==> reveals_from(window, calls, 1) && calls[0] == (
            SlideCall::Position { hwnd: window.hwnd, rect: window.target })
        },
        !window.incoming ==> {
            let (_, stage, calls) = window.settle_next(
                window.settle_start().1,
                Answer::Flag(cloak_hides),
            );
            let uncloaked: int = if window.cloaked && !cloak_hides {
                1
            } else {
                0
            };
            &&& stage is Settled
            &&& uncloaked == 1 ==> calls[0] == (SlideCall::SetCloak {
                hwnd: window.hwnd,
                kind: 1,
                value: 0,
            })
            &&& window.ghost_window is None ==> calls.len() == uncloaked
            &&& window.ghost_window matches Some(ghost) ==> calls.len() == uncloaked + 1
                && calls[uncloaked] == (SlideCall::Send {
                cmd: GhostCmd::Destroy { host_hwnd: ghost.host_hwnd, hthumb: ghost.hthumb },
            })
        },
{
}

/// A window that has not moved yet is where nothing has been measured, and cloaked.
pub proof fn law_fresh_window_is_cloaked(
    hwnd: isize,
    incoming: bool,
    floating: bool,
    outer: Option<Rect>,
)
    ensures
        ({
            let window = fresh_window(hwnd, incoming, floating, outer);
            &&& window.hwnd == hwnd && window.incoming == incoming && window.floating == floating
            &&& window.outer == outer && window.cloaked && !window.active
            &&& window.ghost_window is None && window.source_offset == (0i32, 0i32)
            &&& window.start == window.target
            &&& window.target.left == 0 && window.target.top == 0
            &&& window.target.right == 0 && window.target.bottom == 0
        }),
{
}

/// The clip of a window, outgoing or incoming, shows exactly the pixels that the window and the
/// monitor share at this moment, by the ghost of that window, and samples the part of the thumbnail
/// that belongs there: in proportion to the real window, and counted from the invisible border on.
pub proof fn law_clip_shows_what_the_monitor_shows(
    window: TrackedWindow,
    ghost: GhostWindow,
    visual: Rect,
    monitor: Rect,
    x: int,
    y: int,
)
    requires
        window.shown_fits(visual, monitor),
        x < i32::MAX,
        y < i32::MAX,
    ensures
        ({
            let clip = window.shown(ghost, visual, monitor);
            let resized = window.incoming && !window.floating;
            let sized = if resized {
                window.target
            } else {
                window.start
            };
            &&& clip.host_hwnd == ghost.host_hwnd && clip.hthumb == ghost.hthumb
            &&& match clip.host {
                Some(host) => {
                    &&& host.covers(x, y) <==> visual.covers(x, y) && monitor.covers(x, y)
                    &&& host.right > 0 && host.bottom > 0
                    &&& crop_in_proportion(
                        clip.source_x - window.source_offset.0,
                        clip.source_width as int,
                        host.left - visual.left,
                        host.right as int,
                        sized.right as int,
                        visual.right as int,
                    )
                    &&& crop_in_proportion(
                        clip.source_y - window.source_offset.1,
                        clip.source_height as int,
                        host.top - visual.top,
                        host.bottom as int,
                        sized.bottom as int,
                        visual.bottom as int,
                    )
                },
                None => {
                    &&& !(visual.covers(x, y) && monitor.covers(x, y))
                    &&& clip.source_x == 0 && clip.source_y == 0
                    &&& clip.source_width == 0 && clip.source_height == 0
                },
            }
        }),
{
    let (width, height) = window.source_size();
    law_crop_is_in_proportion(visual, monitor, width as int, height as int, x, y);
    if thumbnail_clip(visual, monitor, width as int, height as int) is Some {
        law_clip_stays_inside_the_monitor(visual, monitor);
    }
}

} // verus!

//! Ghosts: live thumbnails of a source window inside a host window of their own.
//!
//! Host windows belong to one thread, the ghost owner. A [`GhostWindow`] or a [`RevealOverlay`] is
//! a handle on the other side: its methods give the command that the owner has to carry out.
use vstd::prelude::*;

use crate::geometry::{fits_i32, Rect};

verus! {

/// One ghost's crop for a single slide frame.
///
/// The ghost lies on `host` and samples only `source_*` of the source window. `host: None` hides
/// it, which is how a workspace slide stays on one monitor.
#[derive(Clone, Copy, Debug, PartialEq, Eq, Structural)]
pub struct GhostClip {
    pub host_hwnd: isize,
    pub hthumb: isize,
    pub host: Option<Rect>,
    pub source_x: i32,
    pub source_y: i32,
    pub source_width: i32,
    pub source_height: i32,
}

/// What the ghost owner can be asked for.
#[derive(Debug, PartialEq, Eq)]
pub enum GhostCmd {
    Create { src_hwnd: isize, start_rect: Rect, z_above: Option<isize>, visible: bool },
    UpdateRect { host_hwnd: isize, hthumb: isize, rect: Rect },
    UpdateClip { clip: GhostClip },
    Destroy { host_hwnd: isize, hthumb: isize },
    /// Apply every clip, then wait for composition.
    /// One command keeps a workspace-slide frame on a single vblank.
    Present { clips: Vec<GhostClip> },
    CreateOverlay { src_hwnd: isize, clip: GhostClip },
    DestroyOverlay { host_hwnd: isize, hdesktop: isize, hthumb: isize },
}

/// Left, top, right and bottom edge of an area, each a coordinate.
#[derive(Clone, Copy, Debug, PartialEq, Eq, Structural)]
pub struct Edges {
    pub left: i32,
    pub top: i32,
    pub right: i32,
    pub bottom: i32,
}

/// Which of a thumbnail's properties an update sets.
#[derive(Clone, Copy, Debug, PartialEq, Eq, Structural)]
pub struct ThumbnailFlags {
    pub visible: bool,
    pub destination: bool,
    pub source: bool,
    pub opacity: bool,
    pub source_client_area_only: bool,
}

/// One update of a thumbnail's properties.
#[derive(Clone, Copy, Debug, PartialEq, Eq, Structural)]
pub struct ThumbnailProperties {
    pub flags: ThumbnailFlags,
    pub destination: Edges,
    pub source: Edges,
    pub opacity: u8,
    pub visible: bool,
    pub source_client_area_only: bool,
}

impl Edges {
    /// No area at all; what an update carries that leaves an area alone.
    pub open spec fn nothing() -> Edges {
        Edges { left: 0, top: 0, right: 0, bottom: 0 }
    }
}

/// The source area of a clip ends inside the range of `i32`.
pub open spec fn source_fits(
    source_x: int,
    source_y: int,
    source_width: int,
    source_height: int,
) -> bool {
    fits_i32(source_x + source_width) && fits_i32(source_y + source_height)
}

/// The opaque, visible thumbnail that fills `host` with the given part of the source, frame
/// included.
pub open spec fn crop_properties(
    host: Rect,
    source_x: int,
    source_y: int,
    source_width: int,
    source_height: int,
) -> ThumbnailProperties {
    ThumbnailProperties {
        flags: ThumbnailFlags {
            visible: true,
            destination: true,
            source: true,
            opacity: true,
            source_client_area_only: true,
        },
        destination: Edges { left: 0, top: 0, right: host.right, bottom: host.bottom },
        source: Edges {
            left: source_x as i32,
            top: source_y as i32,
            right: (source_x + source_width) as i32,
            bottom: (source_y + source_height) as i32,
        },
        opacity: 255,
        visible: true,
        source_client_area_only: false,
    }
}

pub fn clip_properties(
    host: Rect,
    source_x: i32,
    source_y: i32,
    source_width: i32,
    source_height: i32,
) -> (r: ThumbnailProperties)
    requires
        source_fits(source_x as int, source_y as int, source_width as int, source_height as int),
    ensures
        r == crop_properties(
            host,
            source_x as int,
            source_y as int,
            source_width as int,
            source_height as int,
        ),
{
    ThumbnailProperties {
        flags: ThumbnailFlags {
            visible: true,
            destination: true,
            source: true,
            opacity: true,
            source_client_area_only: true,
        },
        destination: Edges { left: 0, top: 0, right: host.right, bottom: host.bottom },
        source: Edges {
            left: source_x,
            top: source_y,
            right: source_x + source_width,
            bottom: source_y + source_height,
        },
        opacity: 255,
        visible: true,
        source_client_area_only: false,
    }
}

/// The opaque, visible thumbnail that shows the whole source, frame included, at the given size.
pub open spec fn whole_properties(width: i32, height: i32) -> ThumbnailProperties {
    ThumbnailProperties {
        flags: ThumbnailFlags {
            visible: true,
            destination: true,
            source: false,
            opacity: true,
            source_client_area_only: true,
        },
        destination: Edges { left: 0, top: 0, right: width, bottom: height },
        source: Edges::nothing(),
        opacity: 255,
        visible: true,
        source_client_area_only: false,
    }
}

pub fn thumbnail_properties(width: i32, height: i32) -> (r: ThumbnailProperties)
    ensures
        r == whole_properties(width, height),
{
    ThumbnailProperties {
        flags: ThumbnailFlags {
            visible: true,
            destination: true,
            source: false,
            opacity: true,
            source_client_area_only: true,
        },
        destination: Edges { left: 0, top: 0, right: width, bottom: height },
        source: Edges { left: 0, top: 0, right: 0, bottom: 0 },
        opacity: 255,
        visible: true,
        source_client_area_only: false,
    }
}

/// An update of the opacity and of nothing else; the thumbnail stays visible.
pub open spec fn opacity_properties(opacity: u8) -> ThumbnailProperties {
    ThumbnailProperties {
        flags: ThumbnailFlags {
            visible: true,
            destination: false,
            source: false,
            opacity: true,
            source_client_area_only: false,
        },
        destination: Edges::nothing(),
        source: Edges::nothing(),
        opacity,
        visible: true,
        source_client_area_only: false,
    }
}

/// Whether the ghost owner already runs. It is started once, by the first that needs it.
#[derive(Debug, PartialEq, Eq)]
pub struct OwnerSlot {
    pub running: bool,
}

/// Claim the ghost owner: `true` when the caller is the one that has to start it.
pub fn ghost_owner(slot: &mut OwnerSlot) -> (start: bool)
    ensures
        start == !old(slot).running,
        final(slot).running,
{
    let start = !slot.running;
    slot.running = true;
    start
}

/// Eagerly start the ghost owner so the first movement animation doesn't pay for the spawn and
/// the class registration. Idempotent: only the first call on a slot has anything to start.
pub fn prewarm(slot: &mut OwnerSlot) -> (start: bool)
    ensures
        start == !old(slot).running,
        final(slot).running,
{
    ghost_owner(slot)
}

/// The command that moves every ghost for this frame and blocks until it has been composed;
/// nothing is sent for a frame without clips.
pub fn present_clips(clips: Vec<GhostClip>) -> (r: Option<GhostCmd>)
    ensures
        clips@.len() == 0 <==> r is None,
        clips@.len() != 0 ==> r == Some(GhostCmd::Present { clips }),
{
    if clips.len() == 0 {
        None
    } else {
        Some(GhostCmd::Present { clips })
    }
}

/// A live thumbnail "ghost" of a source window, used during movement animations. While a ghost
/// is active, the source window is typically cloaked by the caller.
///
/// Whoever holds the handle disposes of it once; a second attempt sends nothing.
#[derive(Debug, PartialEq, Eq)]
pub struct GhostWindow {
    pub host_hwnd: isize,
    pub hthumb: isize,
    pub disposed: bool,
}

impl GhostWindow {
    /// The ghost on `host` that samples the given part of its source.
    pub open spec fn clipped(
        self,
        host: Option<Rect>,
        source_x: i32,
        source_y: i32,
        source_width: i32,
        source_height: i32,
    ) -> GhostClip {
        GhostClip {
            host_hwnd: self.host_hwnd,
            hthumb: self.hthumb,
            host,
            source_x,
            source_y,
            source_width,
            source_height,
        }
    }

    /// The command that takes the ghost down, unless it was sent before.
    pub open spec fn destroy_command(self) -> Option<GhostCmd> {
        if self.disposed {
            None
        } else {
            Some(GhostCmd::Destroy { host_hwnd: self.host_hwnd, hthumb: self.hthumb })
        }
    }

    /// The command that creates a ghost which is shown at once.
    pub fn create(src_hwnd: isize, start_rect: Rect, z_above: Option<isize>) -> (r: GhostCmd)
        ensures
            r == (GhostCmd::Create { src_hwnd, start_rect, z_above, visible: true }),
    {
        Self::create_with_visibility(src_hwnd, start_rect, z_above, true)
    }

    /// The command that creates a ghost. The owner answers it; see [`GhostWindow::created`].
    pub fn create_with_visibility(
        src_hwnd: isize,
        start_rect: Rect,
        z_above: Option<isize>,
        visible: bool,
    ) -> (r: GhostCmd)
        ensures
            r == (GhostCmd::Create { src_hwnd, start_rect, z_above, visible }),
    {
        GhostCmd::Create { src_hwnd, start_rect, z_above, visible }
    }

    /// The handle on a ghost that the owner has answered with its host and its thumbnail; an error
    /// of the owner is handed on.
    pub fn created<E>(reply: Result<(isize, isize), E>) -> (r: Result<GhostWindow, E>)
        ensures
            match reply {
                Ok((host_hwnd, hthumb)) => r == Ok::<GhostWindow, E>(
                    GhostWindow { host_hwnd, hthumb, disposed: false },
                ),
                Err(error) => r == Err::<GhostWindow, E>(error),
            },
    {
        match reply {
            Ok((host_hwnd, hthumb)) => Ok(GhostWindow { host_hwnd, hthumb, disposed: false }),
            Err(error) => Err(error),
        }
    }

    pub fn host_hwnd(&self) -> (r: isize)
        ensures
            r == self.host_hwnd,
    {
        self.host_hwnd
    }

    pub fn clip(
        &self,
        host: Option<Rect>,
        source_x: i32,
        source_y: i32,
        source_width: i32,
        source_height: i32,
    ) -> (r: GhostClip)
        ensures
            r == self.clipped(host, source_x, source_y, source_width, source_height),
    {
        GhostClip {
            host_hwnd: self.host_hwnd,
            hthumb: self.hthumb,
            host,
            source_x,
            source_y,
            source_width,
            source_height,
        }
    }

    /// Show only the portion of the source that lies on `host`. `None` hides the ghost.
    pub fn update_clip(
        &self,
        host: Option<Rect>,
        source_x: i32,
        source_y: i32,
        source_width: i32,
        source_height: i32,
    ) -> (r: GhostCmd)
        ensures
            r == (GhostCmd::UpdateClip {
                clip: self.clipped(host, source_x, source_y, source_width, source_height),
            }),
    {
        GhostCmd::UpdateClip {
            clip: self.clip(host, source_x, source_y, source_width, source_height),
        }
    }

    pub fn update_rect(&self, rect: Rect) -> (r: GhostCmd)
        ensures
            r == (GhostCmd::UpdateRect { host_hwnd: self.host_hwnd, hthumb: self.hthumb, rect }),
    {
        GhostCmd::UpdateRect { host_hwnd: self.host_hwnd, hthumb: self.hthumb, rect }
    }

    /// An opacity change, given as the thumbnail and the update to apply to it on the calling
    /// thread. Unlike rect updates it has no thread affinity, and going through the owner would let
    /// the caller's next flush fire before the change, which collapses a multi-frame fade into a
    /// single visible step.
    pub fn set_opacity(&self, opacity: u8) -> (r: (isize, ThumbnailProperties))
        ensures
            r == (self.hthumb, opacity_properties(opacity)),
    {
        (
            self.hthumb,
            ThumbnailProperties {
                flags: ThumbnailFlags {
                    visible: true,
                    destination: false,
                    source: false,
                    opacity: true,
                    source_client_area_only: false,
                },
                destination: Edges { left: 0, top: 0, right: 0, bottom: 0 },
                source: Edges { left: 0, top: 0, right: 0, bottom: 0 },
                opacity,
                visible: true,
                source_client_area_only: false,
            },
        )
    }

    /// Give the handle up: the command that takes the ghost down, unless it was sent before.
    pub fn dispose(self) -> (r: Option<GhostCmd>)
        ensures
            r == self.destroy_command(),
    {
        let mut ghost = self;
        ghost.dispose_inner()
    }

    /// The command that takes the ghost down, the first time; nothing after that.
    pub fn dispose_inner(&mut self) -> (r: Option<GhostCmd>)
        ensures
            r == old(self).destroy_command(),
            *final(self) == (GhostWindow { disposed: true, ..*old(self) }),
    {
        if self.disposed {
            return None;
        }
        self.disposed = true;
        Some(GhostCmd::Destroy { host_hwnd: self.host_hwnd, hthumb: self.hthumb })
    }
}

/// An opaque copy of a ghost over the desktop, laid over its revealed window and
/// faded out as a whole.
#[derive(Debug, PartialEq, Eq)]
pub struct RevealOverlay {
    pub host_hwnd: isize,
    pub hdesktop: isize,
    pub hthumb: isize,
    pub disposed: bool,
}

impl RevealOverlay {
    /// The command that takes the overlay down, unless it was sent before.
    pub open spec fn destroy_command(self) -> Option<GhostCmd> {
        if self.disposed {
            None
        } else {
            Some(
                GhostCmd::DestroyOverlay {
                    host_hwnd: self.host_hwnd,
                    hdesktop: self.hdesktop,
                    hthumb: self.hthumb,
                },
            )
        }
    }

    /// The command that creates an overlay. The owner answers it; see [`RevealOverlay::created`].
    pub fn create(src_hwnd: isize, clip: GhostClip) -> (r: GhostCmd)
        ensures
            r == (GhostCmd::CreateOverlay { src_hwnd, clip }),
    {
        GhostCmd::CreateOverlay { src_hwnd, clip }
    }

    /// The handle on an overlay that the owner has answered with its host and its two thumbnails;
    /// an error of the owner is handed on.
    pub fn created<E>(reply: Result<(isize, isize, isize), E>) -> (r: Result<RevealOverlay, E>)
        ensures
            match reply {
                Ok((host_hwnd, hdesktop, hthumb)) => r == Ok::<RevealOverlay, E>(
                    RevealOverlay { host_hwnd, hdesktop, hthumb, disposed: false },
                ),
                Err(error) => r == Err::<RevealOverlay, E>(error),
            },
    {
        match reply {
            Ok((host_hwnd, hdesktop, hthumb)) => Ok(
                RevealOverlay { host_hwnd, hdesktop, hthumb, disposed: false },
            ),
            Err(error) => Err(error),
        }
    }

    /// The host and the alpha to give it. Layered alpha applies to the thumbnails too, so this
    /// fades the whole copy.
    pub fn set_alpha(&self, alpha: u8) -> (r: (isize, u8))
        ensures
            r == (self.host_hwnd, alpha),
    {
        (self.host_hwnd, alpha)
    }

    /// Give the handle up: the command that takes the overlay down, unless it was sent before.
    pub fn dispose(self) -> (r: Option<GhostCmd>)
        ensures
            r == self.destroy_command(),
    {
        let mut overlay = self;
        overlay.dispose_inner()
    }

    /// The command that takes the overlay down, the first time; nothing after that.
    pub fn dispose_inner(&mut self) -> (r: Option<GhostCmd>)
        ensures
            r == old(self).destroy_command(),
            *final(self) == (RevealOverlay { disposed: true, ..*old(self) }),
    {
        if self.disposed {
            return None;
        }
        self.disposed = true;
        Some(
            GhostCmd::DestroyOverlay {
                host_hwnd: self.host_hwnd,
                hdesktop: self.hdesktop,
                hthumb: self.hthumb,
            },
        )
    }
}

/// However often a ghost is disposed of, the command that takes it down goes out once: after one
/// attempt, whatever it gave, the next one gives nothing and changes nothing.
pub proof fn law_ghost_is_destroyed_once(ghost: GhostWindow)
    ensures
        ({
            let after = GhostWindow { disposed: true, ..ghost };
            &&& after.destroy_command() is None
            &&& GhostWindow { disposed: true, ..after } == after
            &&& (ghost.destroy_command() is Some <==> !ghost.disposed)
        }),
{
}

/// However often an overlay is disposed of, the command that takes it down goes out once.
pub proof fn law_overlay_is_destroyed_once(overlay: RevealOverlay)
    ensures
        ({
            let after = RevealOverlay { disposed: true, ..overlay };
            &&& after.destroy_command() is None
            &&& RevealOverlay { disposed: true, ..after } == after
            &&& (overlay.destroy_command() is Some <==> !overlay.disposed)
        }),
{
}

/// A clip stands for its ghost and carries the crop unchanged; the command that takes a ghost or an
/// overlay down names what it was made of.
pub proof fn law_commands_name_their_ghost(
    ghost: GhostWindow,
    overlay: RevealOverlay,
    host: Option<Rect>,
    source_x: i32,
    source_y: i32,
    source_width: i32,
    source_height: i32,
)
    ensures
        ({
            let clip = ghost.clipped(host, source_x, source_y, source_width, source_height);
            &&& clip.host_hwnd == ghost.host_hwnd && clip.hthumb == ghost.hthumb
            &&& clip.host == host
            &&& clip.source_x == source_x && clip.source_y == source_y
            &&& clip.source_width == source_width && clip.source_height == source_height
        }),
        !ghost.disposed ==> (ghost.destroy_command() matches Some(
            GhostCmd::Destroy { host_hwnd, hthumb },
        ) && host_hwnd == ghost.host_hwnd && hthumb == ghost.hthumb),
        !overlay.disposed ==> (overlay.destroy_command() matches Some(
            GhostCmd::DestroyOverlay { host_hwnd, hdesktop, hthumb },
        ) && host_hwnd == overlay.host_hwnd && hdesktop == overlay.hdesktop && hthumb
            == overlay.hthumb),
{
}

/// Every way to update a thumbnail keeps it visible and shows the frame of the source, not its
/// client area alone. A crop and a whole thumbnail are opaque and fill the host from its corner on;
/// a crop samples exactly the given part of the source, a whole thumbnail leaves the part alone. An
/// opacity update sets the opacity and leaves both areas alone.
pub proof fn law_thumbnail_updates(
    host: Rect,
    source_x: int,
    source_y: int,
    source_width: int,
    source_height: int,
    opacity: u8,
)
    requires
        fits_i32(source_x),
        fits_i32(source_y),
        source_fits(source_x, source_y, source_width, source_height),
    ensures
        ({
            let crop = crop_properties(host, source_x, source_y, source_width, source_height);
            let whole = whole_properties(host.right, host.bottom);
            let faded = opacity_properties(opacity);
            &&& crop.visible && crop.flags.visible && crop.flags.opacity && crop.opacity == 255
            &&& whole.visible && whole.flags.visible && whole.flags.opacity && whole.opacity == 255
            &&& faded.visible && faded.flags.visible && faded.flags.opacity && faded.opacity
                == opacity
            &&& !crop.source_client_area_only && crop.flags.source_client_area_only
            &&& !whole.source_client_area_only && whole.flags.source_client_area_only
            &&& !faded.flags.source_client_area_only
            &&& crop.flags.destination && crop.destination.left == 0 && crop.destination.top == 0
            &&& crop.destination.right == host.right && crop.destination.bottom == host.bottom
            &&& whole.flags.destination && whole.destination == crop.destination
            &&& !faded.flags.destination && !faded.flags.source && !whole.flags.source
            &&& crop.flags.source
            &&& crop.source.left == source_x && crop.source.right - crop.source.left == source_width
            &&& crop.source.top == source_y && crop.source.bottom - crop.source.top == source_height
        }),
{
}

} // verus!

//! The per-window record the loop consults: scale, size, frame pacing, and
//! the requests a window handle leaves for the loop.

use crate::event::LogicalSize;
use crate::event::PhysicalSize;
use crate::event::SCALE_DENOMINATOR;
use crate::event::spec_to_physical;
use crate::event::WindowId;
use vstd::prelude::*;

verus! {

/// Where a window stands with the compositor's frame pacing.
#[derive(Clone, Copy, Debug, PartialEq, Eq, Structural)]
pub enum FrameCallbackState {
    /// No frame callback was asked for.
    Idle,
    /// A frame callback was asked for and has not arrived.
    Requested,
    /// The frame callback arrived and the loop has not consumed it.
    Received,
}

/// What the loop reads and writes of one window.
#[derive(Clone, Copy, Debug, PartialEq, Eq, Structural)]
pub struct WindowState {
    /// Scale factor in 120ths; never zero.
    pub scale_factor: u32,
    /// Logical size of the surface.
    pub surface_size: LogicalSize,
    /// Frame pacing state.
    pub frame_callback_state: FrameCallbackState,
    /// Whether the window's frame has changed since it was last drawn.
    pub frame_dirty: bool,
}

impl WindowState {
    /// A scale factor is always positive.
    pub open spec fn wf(self) -> bool {
        self.scale_factor > 0
    }

    /// The physical size that the logical size and the scale imply.
    pub open spec fn spec_physical_size(self) -> PhysicalSize {
        spec_to_physical(self.surface_size, self.scale_factor)
    }

    /// A window of `surface_size` at scale one with a frame still to draw.
    pub fn new(surface_size: LogicalSize) -> (r: Self)
        ensures
            r == (WindowState {
                scale_factor: SCALE_DENOMINATOR,
                surface_size,
                frame_callback_state: FrameCallbackState::Idle,
                frame_dirty: true,
            }),
            r.wf(),
    {
        WindowState {
            scale_factor: SCALE_DENOMINATOR,
            surface_size,
            frame_callback_state: FrameCallbackState::Idle,
            frame_dirty: true,
        }
    }

    /// The scale factor in 120ths.
    pub fn scale_factor(&self) -> (r: u32)
        ensures
            r == self.scale_factor,
    {
        self.scale_factor
    }

    /// The logical surface size.
    pub fn surface_size(&self) -> (r: LogicalSize)
        ensures
            r == self.surface_size,
    {
        self.surface_size
    }

    /// The surface size in physical pixels at the current scale.
    pub fn physical_size(&self) -> (r: PhysicalSize)
        ensures
            r == self.spec_physical_size(),
    {
        self.surface_size.to_physical(self.scale_factor)
    }

    /// Takes `size` as the new logical surface size; the frame has to be
    /// drawn again when the size changed.
    pub fn request_surface_size(&mut self, size: LogicalSize)
        ensures
            *final(self) == (WindowState {
                surface_size: size,
                frame_dirty: old(self).frame_dirty || size != old(self).surface_size,
                ..*old(self)
            }),
    {
        if size != self.surface_size {
            self.frame_dirty = true;
        }
        self.surface_size = size;
    }

    /// Takes `scale_factor` as the new scale; a zero scale is refused and
    /// changes nothing.
    pub fn set_scale_factor(&mut self, scale_factor: u32) -> (accepted: bool)
        ensures
            accepted == (scale_factor > 0),
            accepted ==> *final(self) == (WindowState {
                scale_factor,
                frame_dirty: old(self).frame_dirty || scale_factor != old(self).scale_factor,
                ..*old(self)
            }),
            !accepted ==> *final(self) == *old(self),
    {
        if scale_factor == 0 {
            return false;
        }
        if scale_factor != self.scale_factor {
            self.frame_dirty = true;
        }
        self.scale_factor = scale_factor;
        true
    }

    /// The frame pacing state.
    pub fn frame_callback_state(&self) -> (r: FrameCallbackState)
        ensures
            r == self.frame_callback_state,
    {
        self.frame_callback_state
    }

    /// Records that a frame callback was asked of the compositor.
    pub fn frame_callback_requested(&mut self)
        ensures
            *final(self) == (WindowState {
                frame_callback_state: FrameCallbackState::Requested,
                ..*old(self)
            }),
    {
        self.frame_callback_state = FrameCallbackState::Requested;
    }

    /// Records the compositor's frame callback.
    pub fn frame_callback_received(&mut self)
        ensures
            *final(self) == (WindowState {
                frame_callback_state: FrameCallbackState::Received,
                ..*old(self)
            }),
    {
        self.frame_callback_state = FrameCallbackState::Received;
    }

    /// Consumes the frame callback: the state goes back to idle.
    pub fn frame_callback_reset(&mut self)
        ensures
            *final(self) == (WindowState {
                frame_callback_state: FrameCallbackState::Idle,
                ..*old(self)
            }),
    {
        self.frame_callback_state = FrameCallbackState::Idle;
    }

    /// Marks the frame as changed, so that the next refresh owes a redraw.
    pub fn mark_frame_dirty(&mut self)
        ensures
            *final(self) == (WindowState { frame_dirty: true, ..*old(self) }),
    {
        self.frame_dirty = true;
    }

    /// Brings the frame up to date and says whether a redraw is owed for it.
    /// A second call with nothing new scheduled answers `false`.
    pub fn refresh_frame(&mut self) -> (redraw: bool)
        ensures
            redraw == old(self).frame_dirty,
            *final(self) == (WindowState { frame_dirty: false, ..*old(self) }),
    {
        let redraw = self.frame_dirty;
        self.frame_dirty = false;
        redraw
    }
}

/// What a window handle asks of the loop between iterations.
#[derive(Clone, Copy, Debug, PartialEq, Eq, Structural)]
pub struct WindowRequests {
    /// The handle was dropped: the window is to be destroyed.
    pub closed: bool,
    /// A redraw was asked for.
    pub redraw_requested: bool,
}

impl WindowRequests {
    /// No request pending.
    pub fn new() -> (r: Self)
        ensures
            r == (WindowRequests { closed: false, redraw_requested: false }),
    {
        WindowRequests { closed: false, redraw_requested: false }
    }

    /// Reads and clears the closed flag.
    pub fn take_closed(&mut self) -> (r: bool)
        ensures
            r == old(self).closed,
            *final(self) == (WindowRequests { closed: false, ..*old(self) }),
    {
        let r = self.closed;
        self.closed = false;
        r
    }

    /// Reads and clears the redraw flag.
    pub fn take_redraw_requested(&mut self) -> (r: bool)
        ensures
            r == old(self).redraw_requested,
            *final(self) == (WindowRequests { redraw_requested: false, ..*old(self) }),
    {
        let r = self.redraw_requested;
        self.redraw_requested = false;
        r
    }
}

/// One window of the store: its identity, its state, and its requests.
#[derive(Clone, Copy, Debug, PartialEq, Eq, Structural)]
pub struct WindowEntry {
    pub id: WindowId,
    pub window: WindowState,
    pub requests: WindowRequests,
}

/// A coalesced record of what changed for one window since the last
/// iteration.
#[derive(Clone, Copy, Debug, PartialEq, Eq, Structural)]
pub struct WindowCompositorUpdate {
    /// The window the record is about.
    pub window_id: WindowId,
    /// The compositor configured a new size.
    pub resized: bool,
    /// The compositor announced a new scale.
    pub scale_changed: bool,
    /// The compositor asked the window to close.
    pub close_window: bool,
}

impl WindowCompositorUpdate {
    /// A record for `window_id` with no change noted yet.
    pub fn new(window_id: WindowId) -> (r: Self)
        ensures
            r == (WindowCompositorUpdate {
                window_id,
                resized: false,
                scale_changed: false,
                close_window: false,
            }),
    {
        WindowCompositorUpdate {
            window_id,
            resized: false,
            scale_changed: false,
            close_window: false,
        }
    }
}

} // verus!

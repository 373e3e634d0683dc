//! Window identities, surface sizes, and the events handed to the application.

use vstd::prelude::*;

verus! {

/// Denominator of a scale factor: compositors report scales in 120ths.
pub const SCALE_DENOMINATOR: u32 = 120;

/// Identifier of a window, unique for the lifetime of the event loop.
#[derive(Clone, Copy, Debug, PartialEq, Eq, PartialOrd, Ord, Hash, Structural)]
pub struct WindowId(pub u64);

impl WindowId {
    /// Wraps a raw identifier.
    pub fn from_raw(id: u64) -> (r: Self)
        ensures
            r.0 == id,
    {
        WindowId(id)
    }

    /// The raw identifier.
    pub fn into_raw(self) -> (r: u64)
        ensures
            r == self.0,
    {
        self.0
    }
}

/// A surface size in logical (scale-independent) pixels.
#[derive(Clone, Copy, Debug, PartialEq, Eq, Structural)]
pub struct LogicalSize {
    pub width: u32,
    pub height: u32,
}

/// A surface size in physical pixels.
#[derive(Clone, Copy, Debug, PartialEq, Eq, Structural)]
pub struct PhysicalSize {
    pub width: u32,
    pub height: u32,
}

/// `n / d` rounded to the nearest integer, halves rounding up.
pub open spec fn div_rounded(n: int, d: int) -> int
    recommends
        d > 0,
{
    (2 * n + d) / (2 * d)
}

/// A length clamped to what a `u32` can hold.
pub open spec fn clamp_u32(v: int) -> u32 {
    if v < 0 {
        0u32
    } else if v > u32::MAX {
        u32::MAX
    } else {
        v as u32
    }
}

/// A logical length scaled to physical pixels by `scale / 120`.
pub open spec fn scaled_length(length: u32, scale: u32) -> u32 {
    clamp_u32(div_rounded(length * scale, SCALE_DENOMINATOR as int))
}

/// A physical length scaled back to logical pixels by `120 / scale`.
pub open spec fn unscaled_length(length: u32, scale: u32) -> u32
    recommends
        scale > 0,
{
    clamp_u32(div_rounded(length * SCALE_DENOMINATOR, scale as int))
}

/// The physical size of a logical size at `scale` 120ths.
pub open spec fn spec_to_physical(size: LogicalSize, scale: u32) -> PhysicalSize {
    PhysicalSize {
        width: scaled_length(size.width, scale),
        height: scaled_length(size.height, scale),
    }
}

/// The logical size of a physical size at `scale` 120ths.
pub open spec fn spec_to_logical(size: PhysicalSize, scale: u32) -> LogicalSize
    recommends
        scale > 0,
{
    LogicalSize {
        width: unscaled_length(size.width, scale),
        height: unscaled_length(size.height, scale),
    }
}

fn div_rounded_clamped(n: u64, d: u32) -> (r: u32)
    requires
        d > 0,
    ensures
        r == clamp_u32(div_rounded(n as int, d as int)),
{
    let q: u128 = (2 * (n as u128) + d as u128) / (2 * (d as u128));
    if q > 0xffff_ffff {
        0xffff_ffff
    } else {
        q as u32
    }
}

impl LogicalSize {
    /// A size of `width` by `height` logical pixels.
    pub fn new(width: u32, height: u32) -> (r: Self)
        ensures
            r == (LogicalSize { width, height }),
    {
        LogicalSize { width, height }
    }

    /// Scales to physical pixels, rounding each side to the nearest pixel.
    pub fn to_physical(self, scale: u32) -> (r: PhysicalSize)
        ensures
            r == spec_to_physical(self, scale),
    {
        assert(self.width * scale <= 0xffff_ffff * 0xffff_ffff) by (nonlinear_arith)
            requires
                self.width <= 0xffff_ffff,
                scale <= 0xffff_ffff,
        ;
        assert(self.height * scale <= 0xffff_ffff * 0xffff_ffff) by (nonlinear_arith)
            requires
                self.height <= 0xffff_ffff,
                scale <= 0xffff_ffff,
        ;
        let w: u64 = self.width as u64 * scale as u64;
        let h: u64 = self.height as u64 * scale as u64;
        PhysicalSize {
            width: div_rounded_clamped(w, SCALE_DENOMINATOR),
            height: div_rounded_clamped(h, SCALE_DENOMINATOR),
        }
    }
}

impl PhysicalSize {
    /// A size of `width` by `height` physical pixels.
    pub fn new(width: u32, height: u32) -> (r: Self)
        ensures
            r == (PhysicalSize { width, height }),
    {
        PhysicalSize { width, height }
    }

    /// Scales back to logical pixels, rounding each side to the nearest pixel.
    pub fn to_logical(self, scale: u32) -> (r: LogicalSize)
        requires
            scale > 0,
        ensures
            r == spec_to_logical(self, scale),
    {
        let w: u64 = self.width as u64 * SCALE_DENOMINATOR as u64;
        let h: u64 = self.height as u64 * SCALE_DENOMINATOR as u64;
        LogicalSize {
            width: div_rounded_clamped(w, scale),
            height: div_rounded_clamped(h, scale),
        }
    }
}

/// The cell through which the application answers a scale change with the
/// surface size it wants.
#[derive(Clone, Copy, Debug, PartialEq, Eq, Structural)]
pub struct SurfaceSizeWriter {
    pub new_surface_size: PhysicalSize,
}

impl SurfaceSizeWriter {
    /// A writer holding the size that pure scaling implies.
    pub fn new(size: PhysicalSize) -> (r: Self)
        ensures
            r.new_surface_size == size,
    {
        SurfaceSizeWriter { new_surface_size: size }
    }

    /// Asks for `size` in place of the size the writer holds.
    pub fn request_surface_size(&mut self, size: PhysicalSize)
        ensures
            final(self).new_surface_size == size,
    {
        self.new_surface_size = size;
    }

    /// The size last asked for.
    pub fn surface_size(&self) -> (r: PhysicalSize)
        ensures
            r == self.new_surface_size,
    {
        self.new_surface_size
    }
}

/// An event bound to one window.
#[derive(Clone, Copy, Debug, PartialEq, Eq, Structural)]
pub enum WindowEvent {
    /// The window's scale factor changed; `scale_factor` is in 120ths.
    ScaleFactorChanged { scale_factor: u32, surface_size_writer: SurfaceSizeWriter },
    /// The window's surface now has this physical size.
    SurfaceResized(PhysicalSize),
    /// The compositor asks the window to close.
    CloseRequested,
    /// The window is gone; the last event for its identity.
    Destroyed,
    /// The window should draw a frame.
    RedrawRequested,
    /// An event decoded from an input or shell notification, carried unread.
    Input(u64),
}

/// An event not bound to any window, carried unread.
#[derive(Clone, Copy, Debug, PartialEq, Eq, Structural)]
pub struct DeviceEvent(pub u64);

/// What the event sink buffers.
#[allow(inconsistent_fields)]
#[derive(Clone, Copy, Debug, PartialEq, Eq, Structural)]
pub enum Event {
    WindowEvent { window_id: WindowId, event: WindowEvent },
    DeviceEvent { event: DeviceEvent },
}

impl Event {
    /// The window an event is bound to, if any.
    pub open spec fn spec_window_id(self) -> Option<WindowId> {
        match self {
            Event::WindowEvent { window_id, .. } => Some(window_id),
            Event::DeviceEvent { .. } => None,
        }
    }

    /// The window an event is bound to, if any.
    pub fn window_id(&self) -> (r: Option<WindowId>)
        ensures
            r == self.spec_window_id(),
    {
        match self {
            Event::WindowEvent { window_id, .. } => Some(*window_id),
            Event::DeviceEvent { .. } => None,
        }
    }
}

} // verus!

//! The application's side of the loop: the handle it is given in every
//! callback, the callbacks themselves, and what the loop promises about each
//! event it delivers.

use crate::control::ControlFlow;
use crate::control::StartCause;
use crate::event::DeviceEvent;
use crate::event::Event;
use crate::event::LogicalSize;
use crate::event::WindowEvent;
use crate::event::WindowId;
use crate::model::StateView;
use crate::proxy::EventLoopProxy;
use crate::proxy::Ping;
use crate::request::WindowRequest;
use crate::state::WinitState;
use crate::window::FrameCallbackState;
use vstd::prelude::*;

verus! {

/// Identifier of an input device.
#[derive(Clone, Copy, Debug, PartialEq, Eq, Hash, Structural)]
pub struct DeviceId(pub u64);

/// Which device events the application wants to hear of.
#[derive(Clone, Copy, Debug, PartialEq, Eq, Structural)]
pub enum DeviceEvents {
    Always,
    WhenFocused,
    Never,
}

/// Handle of a monitor.
#[derive(Clone, Copy, Debug, PartialEq, Eq, Structural)]
pub struct MonitorHandle(pub u32);

/// The system's colour theme.
#[derive(Clone, Copy, Debug, PartialEq, Eq, Structural)]
pub enum Theme {
    Light,
    Dark,
}

/// A cursor image with its hotspot.
#[derive(Clone, Copy, Debug, PartialEq, Eq, Structural)]
pub struct CursorImage {
    pub width: u16,
    pub height: u16,
    pub hotspot_x: u16,
    pub hotspot_y: u16,
}

/// What a custom cursor is to be made from.
#[derive(Clone, Copy, Debug, PartialEq, Eq, Structural)]
pub enum CustomCursorSource {
    /// A still image.
    Image(CursorImage),
    /// A sequence of cursors shown in turn.
    Animation,
    /// An image to be fetched from a location.
    Url,
}

/// A cursor made from an image.
#[derive(Clone, Copy, Debug, PartialEq, Eq, Structural)]
pub struct CustomCursor(pub CursorImage);

/// Why a request was turned down.
#[derive(Clone, Copy, Debug, PartialEq, Eq, Structural)]
pub enum RequestError {
    /// The cursor source is of a kind that is not supported.
    UnsupportedCursorKind,
}

impl RequestError {
    /// The reason in words.
    pub fn reason(&self) -> (r: &'static str)
        ensures
            r@ == "unsupported cursor kind"@,
    {
        match self {
            RequestError::UnsupportedCursorKind => "unsupported cursor kind",
        }
    }
}

/// What the loop promises of a window event at the moment it hands the event
/// to the application, `state` being the loop's state at that moment.
///
/// `Destroyed` comes for an identity that was given out and has already left
/// every store.  Every other event names a live window.  `RedrawRequested`
/// comes only with the frame callback state idle and with nothing owed any
/// more: no redraw request, no dirty frame.  A scale change carries the
/// window's scale and the size that pure scaling implies; a resize carries
/// the window's physical size and finds the window marked for a redraw.
pub open spec fn window_event_promise(state: StateView, window_id: WindowId, event: WindowEvent) -> bool {
    match event {
        WindowEvent::Destroyed => state.is_retired(window_id),
        WindowEvent::RedrawRequested => {
            &&& state.is_live(window_id)
            &&& state.entry(window_id).window.frame_callback_state == FrameCallbackState::Idle
            &&& !state.entry(window_id).window.frame_dirty
            &&& !state.entry(window_id).requests.redraw_requested
        },
        WindowEvent::ScaleFactorChanged { scale_factor, surface_size_writer } => {
            &&& state.is_live(window_id)
            &&& scale_factor == state.entry(window_id).window.scale_factor
            &&& surface_size_writer.new_surface_size == state.entry(
                window_id,
            ).window.spec_physical_size()
        },
        WindowEvent::SurfaceResized(size) => {
            &&& state.is_live(window_id)
            &&& size == state.entry(window_id).window.spec_physical_size()
            &&& state.entry(window_id).requests.redraw_requested
        },
        WindowEvent::CloseRequested => state.is_live(window_id),
        WindowEvent::Input(_) => state.is_live(window_id),
    }
}

/// What the handle holds.
pub struct TargetView {
    /// The control-flow policy in force.
    pub control_flow: ControlFlow,
    /// The exit code, once the loop was asked to end.
    pub exit: Option<i32>,
    /// Whether the application asked for a wake-up that the loop has not
    /// taken yet.
    pub wake: bool,
    /// Whether the loop's own wake-up signal is raised.
    pub awakener: bool,
    /// What the application asked of the windows and the loop has not
    /// carried out yet, oldest first.
    pub requests: Seq<WindowRequest>,
    /// The identity that the next window created through the handle gets.
    pub next_window_id: u64,
}

/// The handle that every callback is given: the control-flow policy, the
/// exit code, the wake-up signals, and the requests for the windows.  The
/// windows themselves stay with the loop.
pub struct ActiveEventLoop {
    /// Wakes the loop on behalf of the application.
    event_loop_proxy: Ping,
    /// Wakes the loop on behalf of a window.
    event_loop_awakener: Ping,
    /// The application's latest control-flow policy.
    control_flow: ControlFlow,
    /// The application's exit state.
    exit: Option<i32>,
    /// What the application asked of the windows.
    requests: Vec<WindowRequest>,
    /// The identity of the next window.
    next_window_id: u64,
}

impl View for ActiveEventLoop {
    type V = TargetView;

    closed spec fn view(&self) -> TargetView {
        TargetView {
            control_flow: self.control_flow,
            exit: self.exit,
            wake: self.event_loop_proxy@,
            awakener: self.event_loop_awakener@,
            requests: self.requests@,
            next_window_id: self.next_window_id,
        }
    }
}

impl ActiveEventLoop {
    /// The control-flow policy in force.
    pub open spec fn spec_control_flow(&self) -> ControlFlow {
        self@.control_flow
    }

    /// The exit code, once the loop was asked to end.
    pub open spec fn spec_exit_code(&self) -> Option<i32> {
        self@.exit
    }

    /// A handle with the default policy, no exit asked for, no wake-up
    /// pending and no request.
    pub fn new() -> (r: Self)
        ensures
            r@ == (TargetView {
                control_flow: ControlFlow::Wait,
                exit: None,
                wake: false,
                awakener: false,
                requests: Seq::empty(),
                next_window_id: 0,
            }),
    {
        ActiveEventLoop {
            event_loop_proxy: Ping::new(),
            event_loop_awakener: Ping::new(),
            control_flow: ControlFlow::default(),
            exit: None,
            requests: Vec::new(),
            next_window_id: 0,
        }
    }

    /// Whether `other` differs from this handle in nothing but the exit code.
    pub open spec fn same_but_exit(&self, other: &ActiveEventLoop) -> bool {
        other@ == (TargetView { exit: other@.exit, ..self@ })
    }

    /// A proxy for this loop.  The proxy holds no signal of its own: it
    /// raises the signal of the handle it is used on.
    pub fn create_proxy(&self) -> (r: EventLoopProxy)
        ensures
            r == (EventLoopProxy {  }),
    {
        EventLoopProxy::new()
    }

    /// Asks the loop to wake up on behalf of the application.  Asking again
    /// before the loop woke up changes nothing.
    pub fn wake_up(&mut self)
        ensures
            final(self)@ == (TargetView { wake: true, ..old(self)@ }),
    {
        self.event_loop_proxy.ping();
    }

    /// Takes the application's pending wake-up, if any.
    pub fn take_wake_up(&mut self) -> (r: bool)
        ensures
            r == old(self)@.wake,
            final(self)@ == (TargetView { wake: false, ..old(self)@ }),
    {
        self.event_loop_proxy.take()
    }

    /// Raises the loop's own wake-up signal.
    pub fn ping_awakener(&mut self)
        ensures
            final(self)@ == (TargetView { awakener: true, ..old(self)@ }),
    {
        self.event_loop_awakener.ping();
    }

    /// Whether the loop's own wake-up signal is raised.
    pub fn awakener_pending(&self) -> (r: bool)
        ensures
            r == self@.awakener,
    {
        self.event_loop_awakener.is_pending()
    }

    /// Takes the loop's own pending wake-up, if any.
    pub fn take_awakener(&mut self) -> (r: bool)
        ensures
            r == old(self)@.awakener,
            final(self)@ == (TargetView { awakener: false, ..old(self)@ }),
    {
        self.event_loop_awakener.take()
    }

    /// Sets the control-flow policy; the loop reads it when it next computes
    /// a wait.
    pub fn set_control_flow(&mut self, control_flow: ControlFlow)
        ensures
            final(self)@ == (TargetView { control_flow, ..old(self)@ }),
    {
        self.control_flow = control_flow;
    }

    /// The control-flow policy in force.
    pub fn control_flow(&self) -> (r: ControlFlow)
        ensures
            r == self@.control_flow,
    {
        self.control_flow
    }

    /// Asks the loop to end with exit code zero.
    pub fn exit(&mut self)
        ensures
            final(self)@ == (TargetView { exit: Some(0i32), ..old(self)@ }),
    {
        self.exit = Some(0);
    }

    /// Whether the loop was asked to end.
    pub fn exiting(&self) -> (r: bool)
        ensures
            r == self@.exit.is_some(),
    {
        self.exit.is_some()
    }

    /// Forgets that the loop was asked to end.
    pub fn clear_exit(&mut self)
        ensures
            final(self)@ == (TargetView { exit: None, ..old(self)@ }),
    {
        self.exit = None;
    }

    /// Asks the loop to end with exit code `code`.
    pub fn set_exit_code(&mut self, code: i32)
        ensures
            final(self)@ == (TargetView { exit: Some(code), ..old(self)@ }),
    {
        self.exit = Some(code);
    }

    /// The exit code, once the loop was asked to end.
    pub fn exit_code(&self) -> (r: Option<i32>)
        ensures
            r == self@.exit,
    {
        self.exit
    }

    /// Device events are always delivered, whatever is asked for.
    pub fn listen_device_events(&self, _allowed: DeviceEvents) {
    }

    /// The compositor knows no primary monitor.
    pub fn primary_monitor(&self) -> (r: Option<MonitorHandle>)
        ensures
            r == None::<MonitorHandle>,
    {
        None
    }

    /// Makes a custom cursor.  Only a still image is supported; any other
    /// source is turned down.
    pub fn create_custom_cursor(&self, cursor: CustomCursorSource) -> (r: Result<
        CustomCursor,
        RequestError,
    >)
        ensures
            r == match cursor {
                CustomCursorSource::Image(image) => Ok::<CustomCursor, RequestError>(
                    CustomCursor(image),
                ),
                _ => Err::<CustomCursor, RequestError>(RequestError::UnsupportedCursorKind),
            },
    {
        let cursor_image = match cursor {
            CustomCursorSource::Image(cursor_image) => cursor_image,
            CustomCursorSource::Animation | CustomCursorSource::Url => {
                return Err(RequestError::UnsupportedCursorKind);
            },
        };
        Ok(CustomCursor(cursor_image))
    }

    /// The compositor does not tell the system theme.
    pub fn system_theme(&self) -> (r: Option<Theme>)
        ensures
            r == None::<Theme>,
    {
        None
    }

    /// Leaves `request` for the loop to carry out when the callback returns.
    pub fn request(&mut self, request: WindowRequest)
        ensures
            final(self)@ == (TargetView {
                requests: old(self)@.requests.push(request),
                ..old(self)@
            }),
    {
        self.requests.push(request);
    }

    /// Asks for a window of `surface_size`.  Returns the identity the window
    /// will have when the loop carries the request out, or `None` when the
    /// identities are used up; then nothing is asked.  In a callback the
    /// handle is ready, so the identity announced is the one the window
    /// gets.
    pub fn create_window(&mut self, surface_size: LogicalSize) -> (id: Option<WindowId>)
        ensures
            old(self)@.next_window_id < u64::MAX ==> id == Some(
                WindowId(old(self)@.next_window_id),
            ) && final(self)@ == (TargetView {
                requests: old(self)@.requests.push(WindowRequest::Create(surface_size)),
                next_window_id: (old(self)@.next_window_id + 1) as u64,
                ..old(self)@
            }),
            old(self)@.next_window_id == u64::MAX ==> id is None && final(self)@ == old(self)@,
    {
        if self.next_window_id == u64::MAX {
            return None;
        }
        let id = WindowId(self.next_window_id);
        self.next_window_id = self.next_window_id + 1;
        self.requests.push(WindowRequest::Create(surface_size));
        Some(id)
    }

    /// Asks for a redraw of window `id`.
    pub fn request_redraw(&mut self, id: WindowId)
        ensures
            final(self)@ == (TargetView {
                requests: old(self)@.requests.push(WindowRequest::Redraw(id)),
                ..old(self)@
            }),
    {
        self.requests.push(WindowRequest::Redraw(id));
    }

    /// Drops the handle of window `id`: the window is destroyed in the next
    /// redraw pass.
    pub fn close_window(&mut self, id: WindowId)
        ensures
            final(self)@ == (TargetView {
                requests: old(self)@.requests.push(WindowRequest::Close(id)),
                ..old(self)@
            }),
    {
        self.requests.push(WindowRequest::Close(id));
    }

    /// Asks for the logical size `surface_size` for window `id`.
    pub fn request_surface_size(&mut self, id: WindowId, surface_size: LogicalSize)
        ensures
            final(self)@ == (TargetView {
                requests: old(self)@.requests.push(WindowRequest::SurfaceSize(id, surface_size)),
                ..old(self)@
            }),
    {
        self.requests.push(WindowRequest::SurfaceSize(id, surface_size));
    }

    /// Window `id` is about to present a frame.
    pub fn pre_present_notify(&mut self, id: WindowId)
        ensures
            final(self)@ == (TargetView {
                requests: old(self)@.requests.push(WindowRequest::FrameCallback(id)),
                ..old(self)@
            }),
    {
        self.requests.push(WindowRequest::FrameCallback(id));
    }

    /// The frame of window `id` changed and has to be drawn again.
    pub fn mark_frame_dirty(&mut self, id: WindowId)
        ensures
            final(self)@ == (TargetView {
                requests: old(self)@.requests.push(WindowRequest::FrameDirty(id)),
                ..old(self)@
            }),
    {
        self.requests.push(WindowRequest::FrameDirty(id));
    }

    /// A window raises `event` itself.
    pub fn push_window_event(&mut self, event: Event)
        ensures
            final(self)@ == (TargetView {
                requests: old(self)@.requests.push(WindowRequest::Event(event)),
                ..old(self)@
            }),
    {
        self.requests.push(WindowRequest::Event(event));
    }

    /// Hands the pending requests to the loop, oldest first.
    pub(crate) fn take_requests(&mut self) -> (requests: Vec<WindowRequest>)
        ensures
            requests@ == old(self)@.requests,
            final(self)@ == (TargetView { requests: Seq::empty(), ..old(self)@ }),
    {
        let mut requests: Vec<WindowRequest> = Vec::new();
        requests.append(&mut self.requests);
        requests
    }

    /// Takes note of the identity that the next window gets.
    pub(crate) fn set_next_window_id(&mut self, next_window_id: u64)
        ensures
            final(self)@ == (TargetView { next_window_id, ..old(self)@ }),
    {
        self.next_window_id = next_window_id;
    }
}

/// Whether the handle is ready for a callback: no request is pending, and
/// the handle knows the identity that the next window gets, so that the
/// identities it announces are those the windows get.
pub open spec fn handle_ready(event_loop: TargetView, windows: StateView) -> bool {
    &&& event_loop.requests.len() == 0
    &&& event_loop.next_window_id == windows.next_window_id
}

/// What an application implements to be driven by the loop.  Every callback
/// is given the loop's handle, to set the policy, to ask for an exit or a
/// wake-up and to leave requests for the windows, and the loop's state to
/// read.  The loop hands over a handle that is ready.
pub trait ApplicationHandler {
    /// An iteration starts, for the reason `cause`.
    fn new_events(
        &mut self,
        event_loop: &mut ActiveEventLoop,
        windows: &WinitState,
        cause: StartCause,
    )
        requires
            handle_ready(old(event_loop)@, windows@),
    {
    }

    /// Surfaces may be created; comes once, in the first iteration that the
    /// loop ever runs.
    fn can_create_surfaces(&mut self, event_loop: &mut ActiveEventLoop, windows: &WinitState)
        requires
            handle_ready(old(event_loop)@, windows@),
    ;

    /// A proxy asked the loop to wake up.
    fn proxy_wake_up(&mut self, event_loop: &mut ActiveEventLoop, windows: &WinitState)
        requires
            handle_ready(old(event_loop)@, windows@),
    {
    }

    /// An event for window `window_id`.  For a scale change the application
    /// may write the surface size it wants into the event's writer.
    fn window_event(
        &mut self,
        event_loop: &mut ActiveEventLoop,
        windows: &WinitState,
        window_id: WindowId,
        event: &mut WindowEvent,
    )
        requires
            handle_ready(old(event_loop)@, windows@),
            window_event_promise(windows@, window_id, *old(event)),
    ;

    /// An event of an input device.
    fn device_event(
        &mut self,
        event_loop: &mut ActiveEventLoop,
        windows: &WinitState,
        device_id: Option<DeviceId>,
        event: DeviceEvent,
    )
        requires
            handle_ready(old(event_loop)@, windows@),
    {
    }

    /// The iteration is over and the loop is about to wait.
    fn about_to_wait(&mut self, event_loop: &mut ActiveEventLoop, windows: &WinitState)
        requires
            handle_ready(old(event_loop)@, windows@),
    {
    }
}

} // verus!

//! What an application may ask of the windows while it is being called.
//!
//! A callback is not given the loop's state to change.  It leaves requests
//! with the handle, and the loop carries them out when the callback returns:
//! so every change to the state is one of the loop's own operations.

use crate::event::Event;
use crate::event::LogicalSize;
use crate::event::WindowId;
use crate::laws::Step;
use crate::model::StateView;
use crate::window::FrameCallbackState;
use crate::window::WindowEntry;
use crate::window::WindowRequests;
use crate::window::WindowState;
use vstd::prelude::*;

verus! {

/// A request that the application leaves with the handle.
#[derive(Clone, Copy, Debug, PartialEq, Eq, Structural)]
pub enum WindowRequest {
    /// Create a window of this logical size.
    Create(LogicalSize),
    /// Redraw the window.
    Redraw(WindowId),
    /// The window's handle was dropped: destroy the window.
    Close(WindowId),
    /// Give the window this logical size.
    SurfaceSize(WindowId, LogicalSize),
    /// The window is about to present: ask the compositor for a frame
    /// callback.
    FrameCallback(WindowId),
    /// The window's frame changed.
    FrameDirty(WindowId),
    /// The window raised an event of its own.
    Event(Event),
}

impl WindowRequest {
    /// The operation on the state that carries the request out.
    pub open spec fn step(self) -> Step {
        match self {
            WindowRequest::Create(size) => Step::CreateWindow(size),
            WindowRequest::Redraw(id) => Step::RequestRedraw(id),
            WindowRequest::Close(id) => Step::CloseWindow(id),
            WindowRequest::SurfaceSize(id, size) => Step::RequestSurfaceSize(id, size),
            WindowRequest::FrameCallback(id) => Step::FrameCallbackRequested(id),
            WindowRequest::FrameDirty(id) => Step::MarkFrameDirty(id),
            WindowRequest::Event(event) => Step::PushWindowEvent(event),
        }
    }
}

/// The state after the requests were carried out, first to last.
pub open spec fn request_all(state: StateView, requests: Seq<WindowRequest>) -> StateView
    decreases requests.len(),
{
    if requests.len() == 0 {
        state
    } else {
        request_all(state, requests.drop_last()).apply(requests.last().step())
    }
}

/// What no request can change: the flags, the pending compositor updates and
/// the events decoded from native notifications stay as they are; the
/// windows that are live stay live, each in its place and under its
/// identity, and a handle that was dropped stays dropped.
pub open spec fn requests_keep(before: StateView, after: StateView) -> bool {
    &&& after.proxy_wake_up == before.proxy_wake_up
    &&& after.dispatched_events == before.dispatched_events
    &&& after.compositor_updates == before.compositor_updates
    &&& after.events == before.events
    &&& before.next_window_id <= after.next_window_id
    &&& before.windows.len() <= after.windows.len()
    &&& forall|i: int|
        0 <= i < before.windows.len() ==> (#[trigger] after.windows[i]).id == before.windows[i].id
            && (before.windows[i].requests.closed ==> after.windows[i].requests.closed)
            && after.windows[i].window.scale_factor == before.windows[i].window.scale_factor
    &&& forall|x: WindowId| before.is_live(x) ==> #[trigger] after.is_live(x)
    &&& forall|x: WindowId| before.is_retired(x) ==> #[trigger] after.is_retired(x)
}

/// Carrying out one request keeps the state well formed and keeps what no
/// request can change.
pub proof fn law_request(state: StateView, request: WindowRequest)
    requires
        state.wf(),
    ensures
        state.apply(request.step()).wf(),
        requests_keep(state, state.apply(request.step())),
{
    let after = state.apply(request.step());
    state.law_step(request.step());
    assert forall|x: WindowId| state.is_live(x) implies #[trigger] after.is_live(x) by {
        if !after.is_live(x) {
            assert(request.step() == Step::ProcessWindow(x));
        }
    }
    match request {
        WindowRequest::Create(size) => {
            state.lemma_create_window(size);
        },
        WindowRequest::Redraw(id) => {
            if state.is_live(id) {
                state.lemma_entry_at(state.index_of(id));
                state.lemma_replace_window(
                    id,
                    WindowEntry {
                        requests: WindowRequests {
                            redraw_requested: true,
                            ..state.entry(id).requests
                        },
                        ..state.entry(id)
                    },
                );
            }
        },
        WindowRequest::Close(id) => {
            if state.is_live(id) {
                state.lemma_entry_at(state.index_of(id));
                state.lemma_replace_window(
                    id,
                    WindowEntry {
                        requests: WindowRequests {
                            closed: true,
                            ..state.entry(id).requests
                        },
                        ..state.entry(id)
                    },
                );
            }
        },
        WindowRequest::SurfaceSize(id, size) => {
            if state.is_live(id) {
                state.lemma_entry_at(state.index_of(id));
                let w = state.entry(id).window;
                state.lemma_replace_window(
                    id,
                    WindowEntry {
                        window: WindowState {
                            surface_size: size,
                            frame_dirty: w.frame_dirty || size != w.surface_size,
                            ..w
                        },
                        ..state.entry(id)
                    },
                );
            }
        },
        WindowRequest::FrameCallback(id) => {
            if state.is_live(id) {
                state.lemma_entry_at(state.index_of(id));
                state.lemma_replace_window(
                    id,
                    WindowEntry {
                        window: WindowState {
                            frame_callback_state: FrameCallbackState::Requested,
                            ..state.entry(id).window
                        },
                        ..state.entry(id)
                    },
                );
            }
        },
        WindowRequest::FrameDirty(id) => {
            if state.is_live(id) {
                state.lemma_entry_at(state.index_of(id));
                state.lemma_replace_window(
                    id,
                    WindowEntry {
                        window: WindowState {
                            frame_dirty: true,
                            ..state.entry(id).window
                        },
                        ..state.entry(id)
                    },
                );
            }
        },
        WindowRequest::Event(_) => {},
    }
}

/// Carrying out any requests keeps the state well formed and keeps what no
/// request can change.
pub proof fn law_requests(state: StateView, requests: Seq<WindowRequest>)
    requires
        state.wf(),
    ensures
        request_all(state, requests).wf(),
        requests_keep(state, request_all(state, requests)),
    decreases requests.len(),
{
    if requests.len() > 0 {
        let mid = request_all(state, requests.drop_last());
        law_requests(state, requests.drop_last());
        law_request(mid, requests.last());
        let after = request_all(state, requests);
        assert forall|i: int| 0 <= i < state.windows.len() implies (#[trigger] after.windows[i]).id
            == state.windows[i].id && (state.windows[i].requests.closed
            ==> after.windows[i].requests.closed) && after.windows[i].window.scale_factor
            == state.windows[i].window.scale_factor by {
            assert(mid.windows[i].id == state.windows[i].id);
        }
        assert forall|x: WindowId| state.is_live(x) implies #[trigger] after.is_live(x) by {
            assert(mid.is_live(x));
        }
        assert forall|x: WindowId| state.is_retired(x) implies #[trigger] after.is_retired(x) by {
            assert(mid.is_retired(x));
        }
    }
}

} // verus!

//! The loop's state as mathematics: what it holds, when it is well formed,
//! and how each operation changes it.

use crate::event::Event;
use crate::event::LogicalSize;
use crate::event::PhysicalSize;
use crate::event::SCALE_DENOMINATOR;
use crate::event::spec_to_logical;
use crate::event::WindowEvent;
use crate::event::WindowId;
use crate::window::FrameCallbackState;
use crate::window::WindowCompositorUpdate;
use crate::window::WindowEntry;
use crate::window::WindowRequests;
use crate::window::WindowState;
use vstd::prelude::*;

verus! {

/// The mathematical content of a [`WinitState`].
pub struct StateView {
    /// The live windows, oldest first.
    pub windows: Seq<WindowEntry>,
    /// The identity the next window gets; every identity below it was given
    /// out before.
    pub next_window_id: u64,
    /// The pending compositor updates, in the order their windows were first
    /// noted.
    pub compositor_updates: Seq<WindowCompositorUpdate>,
    /// Events decoded from native notifications, in arrival order.
    pub events: Seq<Event>,
    /// Events raised through window handles, in arrival order.
    pub window_events: Seq<Event>,
    /// Whether anything arrived since the last iteration.
    pub dispatched_events: bool,
    /// Whether a proxy asked for a wake-up since the last iteration.
    pub proxy_wake_up: bool,
}

/// Whether an event may sit in a sink: a device event, or a window event that
/// the loop does not raise itself.
pub open spec fn is_raw(event: Event) -> bool {
    match event {
        Event::DeviceEvent { .. } => true,
        Event::WindowEvent { event, .. } => event is Input,
    }
}

/// The entries of `windows` with `entry` in place of the one named `id`.
pub open spec fn replace_window(windows: Seq<WindowEntry>, id: WindowId, entry: WindowEntry) -> Seq<
    WindowEntry,
> {
    Seq::new(
        windows.len(),
        |i: int|
            if windows[i].id == id {
                entry
            } else {
                windows[i]
            },
    )
}

/// Whether some record of `updates` is about `id`.
pub open spec fn has_update(updates: Seq<WindowCompositorUpdate>, id: WindowId) -> bool {
    exists|i: int| 0 <= i < updates.len() && #[trigger] updates[i].window_id == id
}

/// The record of `updates` about `id`; where there is none yet, a fresh
/// record that notes no change.
pub open spec fn pending_update(
    updates: Seq<WindowCompositorUpdate>,
    id: WindowId,
) -> WindowCompositorUpdate {
    if has_update(updates, id) {
        updates[choose|i: int| 0 <= i < updates.len() && #[trigger] updates[i].window_id == id]
    } else {
        WindowCompositorUpdate {
            window_id: id,
            resized: false,
            scale_changed: false,
            close_window: false,
        }
    }
}

/// The records of `updates` with `update` in place of the one about `id`;
/// where there is none yet, `update` is put last.
pub open spec fn merge_update(
    updates: Seq<WindowCompositorUpdate>,
    id: WindowId,
    update: WindowCompositorUpdate,
) -> Seq<WindowCompositorUpdate> {
    if has_update(updates, id) {
        Seq::new(
            updates.len(),
            |i: int|
                if updates[i].window_id == id {
                    update
                } else {
                    updates[i]
                },
        )
    } else {
        updates.push(update)
    }
}

/// Passes every entry but the one of window `id`.
pub open spec fn other_window(id: WindowId) -> spec_fn(WindowEntry) -> bool {
    |e: WindowEntry| e.id != id
}

/// Passes every update but the one about window `id`.
pub open spec fn other_update(id: WindowId) -> spec_fn(WindowCompositorUpdate) -> bool {
    |u: WindowCompositorUpdate| u.window_id != id
}

/// Passes every event but those bound to window `id`.
pub open spec fn other_event(id: WindowId) -> spec_fn(Event) -> bool {
    |e: Event| e.spec_window_id() != Some(id)
}

/// The events of `events` that are not bound to `id`, in order.
pub open spec fn without_window(events: Seq<Event>, id: WindowId) -> Seq<Event> {
    events.filter(other_event(id))
}

impl StateView {
    /// The state of a loop that has seen nothing yet.
    pub open spec fn empty() -> StateView {
        StateView {
            windows: Seq::empty(),
            next_window_id: 0,
            compositor_updates: Seq::empty(),
            events: Seq::empty(),
            window_events: Seq::empty(),
            dispatched_events: false,
            proxy_wake_up: false,
        }
    }

    /// Whether `id` names a window of the store.
    pub open spec fn is_live(self, id: WindowId) -> bool {
        exists|i: int| 0 <= i < self.windows.len() && #[trigger] self.windows[i].id == id
    }

    /// Whether `id` was given out once and its window is gone.
    pub open spec fn is_retired(self, id: WindowId) -> bool {
        id.0 < self.next_window_id && !self.is_live(id)
    }

    /// Where the window named `id` sits in the store.
    pub open spec fn index_of(self, id: WindowId) -> int {
        choose|i: int| 0 <= i < self.windows.len() && #[trigger] self.windows[i].id == id
    }

    /// The entry of the window named `id`.
    pub open spec fn entry(self, id: WindowId) -> WindowEntry
        recommends
            self.is_live(id),
    {
        self.windows[self.index_of(id)]
    }

    /// The identities of the live windows, oldest first.
    pub open spec fn window_ids(self) -> Seq<WindowId> {
        Seq::new(self.windows.len(), |i: int| self.windows[i].id)
    }

    /// Whether every event of `events` is raw and names only live windows.
    pub open spec fn events_ok(self, events: Seq<Event>) -> bool {
        forall|i: int|
            0 <= i < events.len() ==> is_raw(#[trigger] events[i]) && (events[i].spec_window_id()
                matches Some(id) ==> self.is_live(id))
    }

    /// The invariant of the state: identities are unique and were all given
    /// out, scales are positive, no window has two pending updates, and
    /// nothing pending names a window that is gone.
    pub open spec fn wf(self) -> bool {
        &&& forall|i: int, j: int|
            0 <= i < j < self.windows.len() ==> #[trigger] self.windows[i].id
                != #[trigger] self.windows[j].id
        &&& forall|i: int|
            0 <= i < self.windows.len() ==> (#[trigger] self.windows[i]).id.0
                < self.next_window_id && self.windows[i].window.wf()
        &&& forall|i: int, j: int|
            0 <= i < j < self.compositor_updates.len()
                ==> #[trigger] self.compositor_updates[i].window_id
                != #[trigger] self.compositor_updates[j].window_id
        &&& forall|i: int|
            0 <= i < self.compositor_updates.len() ==> self.is_live(
                #[trigger] self.compositor_updates[i].window_id,
            )
        &&& self.events_ok(self.events)
        &&& self.events_ok(self.window_events)
    }

    /// The entry a new window starts with.
    pub open spec fn fresh_entry(id: WindowId, surface_size: LogicalSize) -> WindowEntry {
        WindowEntry {
            id,
            window: WindowState {
                scale_factor: SCALE_DENOMINATOR,
                surface_size,
                frame_callback_state: FrameCallbackState::Idle,
                frame_dirty: true,
            },
            requests: WindowRequests { closed: false, redraw_requested: false },
        }
    }

    /// A window of `surface_size` is created under the next identity; when
    /// the identities are used up nothing changes.
    pub open spec fn create_window(self, surface_size: LogicalSize) -> StateView {
        if self.next_window_id < u64::MAX {
            StateView {
                windows: self.windows.push(
                    Self::fresh_entry(WindowId(self.next_window_id), surface_size),
                ),
                next_window_id: (self.next_window_id + 1) as u64,
                ..self
            }
        } else {
            self
        }
    }

    /// The state with `window` as the state of the live window `id`.
    pub open spec fn set_window(self, id: WindowId, window: WindowState) -> StateView {
        StateView {
            windows: replace_window(
                self.windows,
                id,
                WindowEntry { window, ..self.entry(id) },
            ),
            ..self
        }
    }

    /// The state with `requests` as the requests of the live window `id`.
    pub open spec fn set_requests(self, id: WindowId, requests: WindowRequests) -> StateView {
        StateView {
            windows: replace_window(
                self.windows,
                id,
                WindowEntry { requests, ..self.entry(id) },
            ),
            ..self
        }
    }

    /// The state with `update` merged into the pending updates.
    pub open spec fn set_update(self, update: WindowCompositorUpdate) -> StateView {
        StateView {
            compositor_updates: merge_update(self.compositor_updates, update.window_id, update),
            ..self
        }
    }

    /// The compositor announced the scale `scale_factor` for window `id`.
    /// The window takes the scale and its update notes a scale change.  An
    /// unknown window or a zero scale changes nothing.
    pub open spec fn scale_factor_changed(self, id: WindowId, scale_factor: u32) -> StateView {
        if self.is_live(id) && scale_factor > 0 {
            let w = self.entry(id).window;
            self.set_window(
                id,
                WindowState {
                    scale_factor,
                    frame_dirty: w.frame_dirty || scale_factor != w.scale_factor,
                    ..w
                },
            ).set_update(
                WindowCompositorUpdate {
                    scale_changed: true,
                    ..pending_update(self.compositor_updates, id)
                },
            )
        } else {
            self
        }
    }

    /// The compositor configured window `id` with `surface_size`.  The window
    /// takes the size, and its update notes a resize when the size differs
    /// from the one it had.  An unknown window changes nothing.
    pub open spec fn configure(self, id: WindowId, surface_size: LogicalSize) -> StateView {
        if self.is_live(id) {
            let w = self.entry(id).window;
            let u = pending_update(self.compositor_updates, id);
            self.set_window(
                id,
                WindowState {
                    surface_size,
                    frame_dirty: w.frame_dirty || surface_size != w.surface_size,
                    ..w
                },
            ).set_update(
                WindowCompositorUpdate {
                    resized: u.resized || surface_size != w.surface_size,
                    ..u
                },
            )
        } else {
            self
        }
    }

    /// The compositor asked window `id` to close: its update notes it.
    pub open spec fn close_requested(self, id: WindowId) -> StateView {
        if self.is_live(id) {
            self.set_update(
                WindowCompositorUpdate {
                    close_window: true,
                    ..pending_update(self.compositor_updates, id)
                },
            )
        } else {
            self
        }
    }

    /// The compositor's frame callback for window `id` arrived.
    pub open spec fn frame_callback_received(self, id: WindowId) -> StateView {
        if self.is_live(id) {
            self.set_window(
                id,
                WindowState {
                    frame_callback_state: FrameCallbackState::Received,
                    ..self.entry(id).window
                },
            )
        } else {
            self
        }
    }

    /// Whether `event` may be buffered: it is raw and names no window that
    /// is gone.
    pub open spec fn accepts(self, event: Event) -> bool {
        is_raw(event) && (event.spec_window_id() matches Some(id) ==> self.is_live(id))
    }

    /// A native handler decoded `event`.
    pub open spec fn push_event(self, event: Event) -> StateView {
        if self.accepts(event) {
            StateView { events: self.events.push(event), ..self }
        } else {
            self
        }
    }

    /// A window handle raised `event`.
    pub open spec fn push_window_event(self, event: Event) -> StateView {
        if self.accepts(event) {
            StateView { window_events: self.window_events.push(event), ..self }
        } else {
            self
        }
    }

    /// The native queue was dispatched.  A successful dispatch that left an
    /// event or an update behind marks the state as having dispatched events.
    pub open spec fn queue_dispatched(self, ok: bool) -> StateView {
        if ok && (self.events.len() > 0 || self.compositor_updates.len() > 0) {
            StateView { dispatched_events: true, ..self }
        } else {
            self
        }
    }

    /// A proxy's wake-up reached the loop.
    pub open spec fn proxy_woke(self) -> StateView {
        StateView { dispatched_events: true, proxy_wake_up: true, ..self }
    }

    /// The loop's own wake-up reached the loop.
    pub open spec fn awakener_woke(self) -> StateView {
        StateView { dispatched_events: true, ..self }
    }

    /// The handle of window `id` asked for a redraw.
    pub open spec fn request_redraw(self, id: WindowId) -> StateView {
        if self.is_live(id) {
            self.set_requests(
                id,
                WindowRequests { redraw_requested: true, ..self.entry(id).requests },
            )
        } else {
            self
        }
    }

    /// The handle of window `id` was dropped.
    pub open spec fn close_window(self, id: WindowId) -> StateView {
        if self.is_live(id) {
            self.set_requests(id, WindowRequests { closed: true, ..self.entry(id).requests })
        } else {
            self
        }
    }

    /// Window `id` takes the logical size `surface_size`.
    pub open spec fn request_surface_size(self, id: WindowId, surface_size: LogicalSize) -> StateView {
        if self.is_live(id) {
            let w = self.entry(id).window;
            self.set_window(
                id,
                WindowState {
                    surface_size,
                    frame_dirty: w.frame_dirty || surface_size != w.surface_size,
                    ..w
                },
            )
        } else {
            self
        }
    }

    /// Window `id` asked the compositor for a frame callback.
    pub open spec fn frame_callback_requested(self, id: WindowId) -> StateView {
        if self.is_live(id) {
            self.set_window(
                id,
                WindowState {
                    frame_callback_state: FrameCallbackState::Requested,
                    ..self.entry(id).window
                },
            )
        } else {
            self
        }
    }

    /// The frame of window `id` changed.
    pub open spec fn mark_frame_dirty(self, id: WindowId) -> StateView {
        if self.is_live(id) {
            self.set_window(id, WindowState { frame_dirty: true, ..self.entry(id).window })
        } else {
            self
        }
    }

    /// The loop consumed the proxy wake-up flag.
    pub open spec fn take_proxy_wake_up(self) -> StateView {
        StateView { proxy_wake_up: false, ..self }
    }

    /// The loop took the pending compositor updates.
    pub open spec fn take_compositor_updates(self) -> StateView {
        StateView { compositor_updates: Seq::empty(), ..self }
    }

    /// The loop took the events raised through window handles.
    pub open spec fn take_window_events(self) -> StateView {
        StateView { window_events: Seq::empty(), ..self }
    }

    /// The loop took the events decoded from native notifications.
    pub open spec fn take_events(self) -> StateView {
        StateView { events: Seq::empty(), ..self }
    }

    /// The application answered a scale change of window `id` with the
    /// physical size `size`: the window takes the logical size that `size`
    /// has at the window's scale.
    pub open spec fn override_surface_size(self, id: WindowId, size: PhysicalSize) -> StateView {
        if self.is_live(id) {
            self.request_surface_size(
                id,
                spec_to_logical(size, self.entry(id).window.scale_factor),
            )
        } else {
            self
        }
    }

    /// The loop is about to announce the size of window `id`: the window is
    /// marked for a redraw.
    pub open spec fn surface_resized(self, id: WindowId) -> StateView {
        self.request_redraw(id)
    }

    /// Window `id` leaves every store: the window store, the pending updates
    /// and both sinks.
    pub open spec fn remove_window(self, id: WindowId) -> StateView {
        StateView {
            windows: self.windows.filter(other_window(id)),
            compositor_updates: self.compositor_updates.filter(other_update(id)),
            events: without_window(self.events, id),
            window_events: without_window(self.window_events, id),
            ..self
        }
    }

    /// What the loop delivers for window `id` in the redraw pass: `Destroyed`
    /// for a window whose handle was dropped; nothing while a frame callback
    /// is outstanding; else `RedrawRequested` where a redraw was asked for or
    /// the frame is dirty.  A window that is gone gets nothing.
    pub open spec fn window_delivery(self, id: WindowId) -> Option<WindowEvent> {
        if !self.is_live(id) {
            None
        } else if self.entry(id).requests.closed {
            Some(WindowEvent::Destroyed)
        } else if self.entry(id).window.frame_callback_state == FrameCallbackState::Requested {
            None
        } else if self.entry(id).requests.redraw_requested || self.entry(id).window.frame_dirty {
            Some(WindowEvent::RedrawRequested)
        } else {
            None
        }
    }

    /// The state after the redraw pass handled window `id`: a window whose
    /// handle was dropped leaves every store; a window with a frame callback
    /// outstanding is left alone; any other window has its frame callback
    /// state, its redraw request and its dirty frame reset.
    pub open spec fn process_window(self, id: WindowId) -> StateView {
        if !self.is_live(id) {
            self
        } else if self.entry(id).requests.closed {
            self.remove_window(id)
        } else if self.entry(id).window.frame_callback_state == FrameCallbackState::Requested {
            self
        } else {
            let e = self.entry(id);
            StateView {
                windows: replace_window(
                    self.windows,
                    id,
                    WindowEntry {
                        window: WindowState {
                            frame_callback_state: FrameCallbackState::Idle,
                            frame_dirty: false,
                            ..e.window
                        },
                        requests: WindowRequests { redraw_requested: false, ..e.requests },
                        ..e
                    },
                ),
                ..self
            }
        }
    }

    /// The loop reset the dispatched-events flag.
    pub open spec fn clear_dispatched(self) -> StateView {
        StateView { dispatched_events: false, ..self }
    }

    /// Whether the closing pass finds a redraw owed for the frame of window
    /// `id`.
    pub open spec fn frame_refresh_due(self, id: WindowId) -> bool {
        self.is_live(id) && self.entry(id).window.frame_dirty
    }

    /// The state after the closing pass refreshed the frame of window `id`:
    /// a dirty frame becomes a redraw request.
    pub open spec fn refresh_window(self, id: WindowId) -> StateView {
        if self.frame_refresh_due(id) {
            let e = self.entry(id);
            StateView {
                windows: replace_window(
                    self.windows,
                    id,
                    WindowEntry {
                        window: WindowState { frame_dirty: false, ..e.window },
                        requests: WindowRequests { redraw_requested: true, ..e.requests },
                        ..e
                    },
                ),
                ..self
            }
        } else {
            self
        }
    }
}


impl StateView {
    /// Whether anything pending names window `id`: an update or a buffered
    /// event.
    pub open spec fn names(self, id: WindowId) -> bool {
        ||| has_update(self.compositor_updates, id)
        ||| exists|i: int|
            0 <= i < self.events.len() && (#[trigger] self.events[i]).spec_window_id() == Some(id)
        ||| exists|i: int|
            0 <= i < self.window_events.len() && (
            #[trigger] self.window_events[i]).spec_window_id() == Some(id)
    }
}

} // verus!

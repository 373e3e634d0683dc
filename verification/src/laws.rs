//! What holds of every operation on the state, whatever the order in which
//! the native handlers, the window handles and the loop perform them.

use crate::event::Event;
use crate::event::LogicalSize;
use crate::event::PhysicalSize;
use crate::event::spec_to_logical;
use crate::event::WindowEvent;
use crate::event::WindowId;
use crate::model::has_update;
use crate::model::pending_update;
use crate::model::StateView;
use crate::window::FrameCallbackState;
use crate::window::WindowCompositorUpdate;
use crate::window::WindowEntry;
use crate::window::WindowRequests;
use crate::window::WindowState;
use vstd::prelude::*;

verus! {

/// One operation on the state, with its arguments.
pub enum Step {
    CreateWindow(LogicalSize),
    ScaleFactorChanged(WindowId, u32),
    Configure(WindowId, LogicalSize),
    CloseRequested(WindowId),
    FrameCallbackReceived(WindowId),
    PushEvent(Event),
    PushWindowEvent(Event),
    QueueDispatched(bool),
    ProxyWoke,
    AwakenerWoke,
    RequestRedraw(WindowId),
    CloseWindow(WindowId),
    RequestSurfaceSize(WindowId, LogicalSize),
    FrameCallbackRequested(WindowId),
    MarkFrameDirty(WindowId),
    TakeProxyWakeUp,
    TakeCompositorUpdates,
    TakeWindowEvents,
    TakeEvents,
    OverrideSurfaceSize(WindowId, PhysicalSize),
    SurfaceResized(WindowId),
    ProcessWindow(WindowId),
    ClearDispatched,
    RefreshWindow(WindowId),
}

impl StateView {
    /// The state after one operation.
    pub open spec fn apply(self, step: Step) -> StateView {
        match step {
            Step::CreateWindow(size) => self.create_window(size),
            Step::ScaleFactorChanged(id, scale) => self.scale_factor_changed(id, scale),
            Step::Configure(id, size) => self.configure(id, size),
            Step::CloseRequested(id) => self.close_requested(id),
            Step::FrameCallbackReceived(id) => self.frame_callback_received(id),
            Step::PushEvent(event) => self.push_event(event),
            Step::PushWindowEvent(event) => self.push_window_event(event),
            Step::QueueDispatched(ok) => self.queue_dispatched(ok),
            Step::ProxyWoke => self.proxy_woke(),
            Step::AwakenerWoke => self.awakener_woke(),
            Step::RequestRedraw(id) => self.request_redraw(id),
            Step::CloseWindow(id) => self.close_window(id),
            Step::RequestSurfaceSize(id, size) => self.request_surface_size(id, size),
            Step::FrameCallbackRequested(id) => self.frame_callback_requested(id),
            Step::MarkFrameDirty(id) => self.mark_frame_dirty(id),
            Step::TakeProxyWakeUp => self.take_proxy_wake_up(),
            Step::TakeCompositorUpdates => self.take_compositor_updates(),
            Step::TakeWindowEvents => self.take_window_events(),
            Step::TakeEvents => self.take_events(),
            Step::OverrideSurfaceSize(id, size) => self.override_surface_size(id, size),
            Step::SurfaceResized(id) => self.surface_resized(id),
            Step::ProcessWindow(id) => self.process_window(id),
            Step::ClearDispatched => self.clear_dispatched(),
            Step::RefreshWindow(id) => self.refresh_window(id),
        }
    }

    /// What holds of every operation: the state stays well formed, identities
    /// are only ever given out, a window becomes live only by being created
    /// under an identity never given out, and a window goes only in the
    /// redraw pass, when its handle was dropped.
    pub open spec fn step_ok(self, step: Step) -> bool {
        let t = self.apply(step);
        &&& t.wf()
        &&& self.next_window_id <= t.next_window_id
        &&& forall|x: WindowId| self.is_retired(x) ==> #[trigger] t.is_retired(x)
        &&& forall|x: WindowId|
            #[trigger] t.is_live(x) && !self.is_live(x) ==> step is CreateWindow && x == WindowId(
                self.next_window_id,
            )
        &&& forall|x: WindowId|
            self.is_live(x) && !(#[trigger] t.is_live(x)) ==> step == Step::ProcessWindow(x)
                && self.window_delivery(x) == Some(WindowEvent::Destroyed)
    }

    /// An operation that leaves every window as live as it was, and the next
    /// identity as it was, is in order as soon as its result is well formed.
    proof fn lemma_quiet(self, step: Step)
        requires
            self.wf(),
            self.apply(step).wf(),
            self.apply(step).next_window_id == self.next_window_id,
            forall|x: WindowId| #[trigger] self.apply(step).is_live(x) == self.is_live(x),
        ensures
            self.step_ok(step),
    {
    }

    proof fn lemma_step_flags(self, step: Step)
        requires
            self.wf(),
            step is QueueDispatched || step is ProxyWoke || step is AwakenerWoke
                || step is TakeProxyWakeUp || step is TakeCompositorUpdates
                || step is TakeWindowEvents || step is TakeEvents || step is ClearDispatched,
        ensures
            self.step_ok(step),
    {
        self.lemma_same_store(self.apply(step));
        self.lemma_quiet(step);
    }

    proof fn lemma_step_push(self, step: Step)
        requires
            self.wf(),
            step is PushEvent || step is PushWindowEvent,
        ensures
            self.step_ok(step),
    {
        match step {
            Step::PushEvent(event) => {
                self.lemma_push_event(event);
            },
            Step::PushWindowEvent(event) => {
                self.lemma_push_event(event);
            },
            _ => {},
        }
        self.lemma_same_windows(self.apply(step));
        self.lemma_quiet(step);
    }

    proof fn lemma_step_frame(self, step: Step)
        requires
            self.wf(),
            step is FrameCallbackReceived || step is FrameCallbackRequested
                || step is MarkFrameDirty,
        ensures
            self.step_ok(step),
    {
        match step {
            Step::FrameCallbackReceived(id) => {
                if self.is_live(id) {
                    self.lemma_entry_at(self.index_of(id));
                    self.lemma_set_window(
                        id,
                        WindowState {
                            frame_callback_state: FrameCallbackState::Received,
                            ..self.entry(id).window
                        },
                    );
                }
            },
            Step::FrameCallbackRequested(id) => {
                if self.is_live(id) {
                    self.lemma_entry_at(self.index_of(id));
                    self.lemma_set_window(
                        id,
                        WindowState {
                            frame_callback_state: FrameCallbackState::Requested,
                            ..self.entry(id).window
                        },
                    );
                }
            },
            Step::MarkFrameDirty(id) => {
                if self.is_live(id) {
                    self.lemma_entry_at(self.index_of(id));
                    self.lemma_set_window(
                        id,
                        WindowState { frame_dirty: true, ..self.entry(id).window },
                    );
                }
            },
            _ => {},
        }
        self.lemma_quiet(step);
    }

    proof fn lemma_step_size(self, step: Step)
        requires
            self.wf(),
            step is RequestSurfaceSize || step is OverrideSurfaceSize,
        ensures
            self.step_ok(step),
    {
        match step {
            Step::RequestSurfaceSize(id, size) => {
                self.lemma_request_surface_size(id, size);
            },
            Step::OverrideSurfaceSize(id, size) => {
                if self.is_live(id) {
                    self.lemma_request_surface_size(
                        id,
                        spec_to_logical(size, self.entry(id).window.scale_factor),
                    );
                }
            },
            _ => {},
        }
        self.lemma_quiet(step);
    }

    proof fn lemma_step_requests(self, step: Step)
        requires
            self.wf(),
            step is RequestRedraw || step is CloseWindow || step is SurfaceResized,
        ensures
            self.step_ok(step),
    {
        match step {
            Step::RequestRedraw(id) => {
                if self.is_live(id) {
                    self.lemma_set_requests(
                        id,
                        WindowRequests { redraw_requested: true, ..self.entry(id).requests },
                    );
                }
            },
            Step::CloseWindow(id) => {
                if self.is_live(id) {
                    self.lemma_set_requests(
                        id,
                        WindowRequests { closed: true, ..self.entry(id).requests },
                    );
                }
            },
            Step::SurfaceResized(id) => {
                if self.is_live(id) {
                    self.lemma_set_requests(
                        id,
                        WindowRequests { redraw_requested: true, ..self.entry(id).requests },
                    );
                }
            },
            _ => {},
        }
        self.lemma_quiet(step);
    }

    proof fn lemma_step_scale(self, id: WindowId, scale: u32)
        requires
            self.wf(),
        ensures
            self.step_ok(Step::ScaleFactorChanged(id, scale)),
    {
        if self.is_live(id) && scale > 0 {
            self.lemma_entry_at(self.index_of(id));
            let w = self.entry(id).window;
            let nw = WindowState {
                scale_factor: scale,
                frame_dirty: w.frame_dirty || scale != w.scale_factor,
                ..w
            };
            self.lemma_set_window(id, nw);
            self.set_window(id, nw).lemma_set_update(
                WindowCompositorUpdate {
                    scale_changed: true,
                    ..pending_update(self.compositor_updates, id)
                },
            );
        }
        self.lemma_quiet(Step::ScaleFactorChanged(id, scale));
    }

    proof fn lemma_step_configure(self, id: WindowId, size: LogicalSize)
        requires
            self.wf(),
        ensures
            self.step_ok(Step::Configure(id, size)),
    {
        if self.is_live(id) {
            self.lemma_entry_at(self.index_of(id));
            let w = self.entry(id).window;
            let u = pending_update(self.compositor_updates, id);
            let nw = WindowState {
                surface_size: size,
                frame_dirty: w.frame_dirty || size != w.surface_size,
                ..w
            };
            self.lemma_set_window(id, nw);
            self.set_window(id, nw).lemma_set_update(
                WindowCompositorUpdate { resized: u.resized || size != w.surface_size, ..u },
            );
        }
        self.lemma_quiet(Step::Configure(id, size));
    }

    proof fn lemma_step_close_requested(self, id: WindowId)
        requires
            self.wf(),
        ensures
            self.step_ok(Step::CloseRequested(id)),
    {
        if self.is_live(id) {
            self.lemma_set_update(
                WindowCompositorUpdate {
                    close_window: true,
                    ..pending_update(self.compositor_updates, id)
                },
            );
        }
        self.lemma_quiet(Step::CloseRequested(id));
    }

    proof fn lemma_step_create(self, size: LogicalSize)
        requires
            self.wf(),
        ensures
            self.step_ok(Step::CreateWindow(size)),
    {
        self.lemma_create_window(size);
        let t = self.create_window(size);
        assert forall|x: WindowId| self.is_retired(x) implies #[trigger] t.is_retired(x) by {
            assert(t.is_live(x) == (self.is_live(x) || (self.next_window_id < u64::MAX && x
                == WindowId(self.next_window_id))));
        }
    }

    proof fn lemma_step_refresh(self, id: WindowId)
        requires
            self.wf(),
        ensures
            self.step_ok(Step::RefreshWindow(id)),
    {
        if self.frame_refresh_due(id) {
            let e = self.entry(id);
            self.lemma_entry_at(self.index_of(id));
            self.lemma_replace_window(
                id,
                WindowEntry {
                    window: WindowState { frame_dirty: false, ..e.window },
                    requests: WindowRequests { redraw_requested: true, ..e.requests },
                    ..e
                },
            );
        }
        self.lemma_quiet(Step::RefreshWindow(id));
    }

    proof fn lemma_step_process(self, id: WindowId)
        requires
            self.wf(),
        ensures
            self.step_ok(Step::ProcessWindow(id)),
    {
        let step = Step::ProcessWindow(id);
        let t = self.process_window(id);
        if self.is_live(id) {
            let e = self.entry(id);
            self.lemma_entry_at(self.index_of(id));
            if e.requests.closed {
                self.lemma_remove_window(id);
                assert forall|x: WindowId| self.is_retired(x) implies #[trigger] t.is_retired(
                    x,
                ) by {
                    if x != id {
                        assert(t.is_live(x) == self.is_live(x));
                    }
                }
                assert forall|x: WindowId| #[trigger] t.is_live(x) && !self.is_live(x) implies false by {
                    if x != id {
                        assert(t.is_live(x) == self.is_live(x));
                    }
                }
                assert forall|x: WindowId| self.is_live(x) && !(#[trigger] t.is_live(x)) implies x
                    == id by {
                    if x != id {
                        assert(t.is_live(x) == self.is_live(x));
                    }
                }
            } else if e.window.frame_callback_state == FrameCallbackState::Requested {
                self.lemma_quiet(step);
            } else {
                self.lemma_replace_window(
                    id,
                    WindowEntry {
                        window: WindowState {
                            frame_callback_state: FrameCallbackState::Idle,
                            frame_dirty: false,
                            ..e.window
                        },
                        requests: WindowRequests { redraw_requested: false, ..e.requests },
                        ..e
                    },
                );
                self.lemma_quiet(step);
            }
        } else {
            self.lemma_quiet(step);
        }
    }

    /// Every operation keeps the state well formed.  No operation but the
    /// creation of a window makes a window live, and the new window gets an
    /// identity that was never given out.  No operation but the redraw pass
    /// on a window whose handle was dropped takes a window away.  So an
    /// identity that was retired stays retired: its window was destroyed once
    /// and for all.
    pub proof fn law_step(self, step: Step)
        requires
            self.wf(),
        ensures
            self.step_ok(step),
    {
        match step {
            Step::CreateWindow(size) => self.lemma_step_create(size),
            Step::ScaleFactorChanged(id, scale) => self.lemma_step_scale(id, scale),
            Step::Configure(id, size) => self.lemma_step_configure(id, size),
            Step::CloseRequested(id) => self.lemma_step_close_requested(id),
            Step::FrameCallbackReceived(_) => self.lemma_step_frame(step),
            Step::PushEvent(_) => self.lemma_step_push(step),
            Step::PushWindowEvent(_) => self.lemma_step_push(step),
            Step::QueueDispatched(_) => self.lemma_step_flags(step),
            Step::ProxyWoke => self.lemma_step_flags(step),
            Step::AwakenerWoke => self.lemma_step_flags(step),
            Step::RequestRedraw(_) => self.lemma_step_requests(step),
            Step::CloseWindow(_) => self.lemma_step_requests(step),
            Step::RequestSurfaceSize(_, _) => self.lemma_step_size(step),
            Step::FrameCallbackRequested(_) => self.lemma_step_frame(step),
            Step::MarkFrameDirty(_) => self.lemma_step_frame(step),
            Step::TakeProxyWakeUp => self.lemma_step_flags(step),
            Step::TakeCompositorUpdates => self.lemma_step_flags(step),
            Step::TakeWindowEvents => self.lemma_step_flags(step),
            Step::TakeEvents => self.lemma_step_flags(step),
            Step::OverrideSurfaceSize(_, _) => self.lemma_step_size(step),
            Step::SurfaceResized(_) => self.lemma_step_requests(step),
            Step::ProcessWindow(id) => self.lemma_step_process(id),
            Step::ClearDispatched => self.lemma_step_flags(step),
            Step::RefreshWindow(id) => self.lemma_step_refresh(id),
        }
    }

}


impl StateView {
    /// However many notifications arrive for a window between two
    /// iterations, the window has one pending update.  A scale change
    /// followed by a configure with another size leaves exactly one update
    /// for the window, with both the scale change and the resize noted, and
    /// the updates of other windows where they were.
    pub proof fn law_updates_coalesce(self, id: WindowId, scale_factor: u32, surface_size: LogicalSize)
        requires
            self.wf(),
            self.is_live(id),
            scale_factor > 0,
        ensures
            ({
                let t = self.scale_factor_changed(id, scale_factor).configure(id, surface_size);
                let u = pending_update(t.compositor_updates, id);
                &&& t.wf()
                &&& has_update(t.compositor_updates, id)
                &&& forall|i: int, j: int|
                    0 <= i < t.compositor_updates.len() && 0 <= j < t.compositor_updates.len()
                        && t.compositor_updates[i].window_id == id
                        && t.compositor_updates[j].window_id == id ==> i == j
                &&& u.scale_changed
                &&& surface_size != self.entry(id).window.surface_size ==> u.resized
                &&& u.close_window == pending_update(self.compositor_updates, id).close_window
                &&& t.compositor_updates.len() == if has_update(self.compositor_updates, id) {
                    self.compositor_updates.len()
                } else {
                    self.compositor_updates.len() + 1
                }
            }),
    {
        self.lemma_entry_at(self.index_of(id));
        let w = self.entry(id).window;
        let nw = WindowState {
            scale_factor,
            frame_dirty: w.frame_dirty || scale_factor != w.scale_factor,
            ..w
        };
        let u1 = WindowCompositorUpdate {
            scale_changed: true,
            ..pending_update(self.compositor_updates, id)
        };
        self.lemma_set_window(id, nw);
        let a = self.set_window(id, nw);
        self.lemma_replace_window(id, WindowEntry { window: nw, ..self.entry(id) });
        a.lemma_set_update(u1);
        let b = a.set_update(u1);
        assert(b == self.scale_factor_changed(id, scale_factor));
        b.lemma_same_windows(a);
        assert(b.is_live(id));
        b.lemma_entry_at(b.index_of(id));
        assert(b.entry(id) == a.entry(id)) by {
            a.lemma_entry_at(a.index_of(id));
            b.lemma_entry_at(a.index_of(id));
        }
        let w2 = b.entry(id).window;
        let nw2 = WindowState {
            surface_size,
            frame_dirty: w2.frame_dirty || surface_size != w2.surface_size,
            ..w2
        };
        let pending = pending_update(b.compositor_updates, id);
        let u2 = WindowCompositorUpdate {
            resized: pending.resized || surface_size != w2.surface_size,
            ..pending
        };
        b.lemma_set_window(id, nw2);
        let c = b.set_window(id, nw2);
        c.lemma_set_update(u2);
        let t = c.set_update(u2);
        assert(t == b.configure(id, surface_size));
        assert forall|i: int, j: int|
            0 <= i < t.compositor_updates.len() && 0 <= j < t.compositor_updates.len()
                && t.compositor_updates[i].window_id == id && t.compositor_updates[j].window_id
                == id implies i == j by {
            if i < j {
                assert(t.compositor_updates[i].window_id != t.compositor_updates[j].window_id);
            } else if j < i {
                assert(t.compositor_updates[j].window_id != t.compositor_updates[i].window_id);
            }
        }
    }
}


impl StateView {
    /// The state after a run of operations, first to last.
    pub open spec fn apply_all(self, steps: Seq<Step>) -> StateView
        decreases steps.len(),
    {
        if steps.len() == 0 {
            self
        } else {
            self.apply_all(steps.drop_last()).apply(steps.last())
        }
    }

    /// Whatever operations are performed in whatever order, the state stays
    /// well formed, identities are only ever given out, and an identity that
    /// was retired stays retired: no run of operations brings a destroyed
    /// window back.
    pub proof fn law_steps(self, steps: Seq<Step>)
        requires
            self.wf(),
        ensures
            self.apply_all(steps).wf(),
            self.next_window_id <= self.apply_all(steps).next_window_id,
            forall|x: WindowId| self.is_retired(x) ==> #[trigger] self.apply_all(steps).is_retired(x),
        decreases steps.len(),
    {
        if steps.len() > 0 {
            let mid = self.apply_all(steps.drop_last());
            self.law_steps(steps.drop_last());
            mid.law_step(steps.last());
            assert forall|x: WindowId| self.is_retired(x) implies #[trigger] self.apply_all(
                steps,
            ).is_retired(x) by {
                assert(mid.is_retired(x));
            }
        }
    }
}

} // verus!

//! The record of what the loop delivered: every callback with its phase
//! and the state it was made in, and what makes such a record an iteration.
//!
//! The record is the loop's own account.  The loop writes an entry where it
//! makes the call, and the contracts speak of the entries.

use crate::application::DeviceId;
use crate::application::window_event_promise;
use crate::control::StartCause;
use crate::event::DeviceEvent;
use crate::event::WindowEvent;
use crate::event::WindowId;
use crate::laws::Step;
use crate::model::StateView;
use crate::request::request_all;
use crate::request::WindowRequest;
use crate::window::FrameCallbackState;
use crate::window::WindowEntry;
use crate::window::WindowRequests;
use crate::window::WindowState;
use vstd::prelude::*;

verus! {

/// The phases of an iteration, in the order the loop goes through them.
#[derive(Clone, Copy, Debug, PartialEq, Eq, Structural)]
pub enum Phase {
    /// The iteration is announced.
    NewEvents,
    /// Surfaces may be created; first iteration only.
    CanCreateSurfaces,
    /// A proxy's wake-up is passed on.
    ProxyWakeUp,
    /// The pending compositor updates are turned into window events.
    CompositorUpdates,
    /// The events raised through window handles are delivered.
    WindowEvents,
    /// The events decoded from native notifications are delivered.
    Events,
    /// Windows are destroyed or asked to redraw.
    Redraw,
    /// The loop announces that it is about to wait.
    AboutToWait,
}

impl Phase {
    /// The place of a phase in the order of an iteration.
    pub open spec fn rank(self) -> int {
        match self {
            Phase::NewEvents => 0,
            Phase::CanCreateSurfaces => 1,
            Phase::ProxyWakeUp => 2,
            Phase::CompositorUpdates => 3,
            Phase::WindowEvents => 4,
            Phase::Events => 5,
            Phase::Redraw => 6,
            Phase::AboutToWait => 7,
        }
    }
}

/// A callback with its arguments.
#[allow(inconsistent_fields)]
#[derive(Clone, Copy, Debug, PartialEq, Eq)]
pub enum Callback {
    NewEvents(StartCause),
    CanCreateSurfaces,
    ProxyWakeUp,
    WindowEvent { window_id: WindowId, event: WindowEvent },
    DeviceEvent { device_id: Option<DeviceId>, event: DeviceEvent },
    AboutToWait,
}

/// One callback as the loop made it: in which phase, with the loop's state
/// as it was when the application was called, with the state from which the
/// loop got there by its last operation, and with what the application left
/// behind when it returned: its requests for the windows, and the event as
/// it then stood.
pub struct Delivery {
    pub callback: Callback,
    pub phase: Phase,
    /// The state before the operation that gave rise to the callback.
    pub prior: StateView,
    /// The state when the application was called.
    pub state: StateView,
    /// What the application asked of the windows while it was called.
    pub requests: Seq<WindowRequest>,
    /// The event as the application left it, where the callback carried one.
    pub reply: Option<WindowEvent>,
}

impl Delivery {
    /// The state once the callback returned: the state it was made in, with
    /// the application's requests carried out.
    pub open spec fn left(self) -> StateView {
        request_all(self.state, self.requests)
    }
}

/// How the state in which a callback is made comes from the state before
/// it.  `Destroyed` and `RedrawRequested` are what the redraw pass found to
/// deliver for the window, made in the state the pass left behind.  A resize
/// is announced for a live window, once the window is marked for a redraw.
/// The proxy's wake-up is passed on once its flag is taken, and the wait is
/// announced once the dispatched-events flag is reset.  Any other callback is
/// made in the state as it stood.
pub open spec fn delivery_step(d: Delivery) -> bool {
    match d.callback {
        Callback::WindowEvent { window_id, event } => match event {
            WindowEvent::Destroyed | WindowEvent::RedrawRequested => {
                &&& d.prior.window_delivery(window_id) == Some(event)
                &&& d.state == d.prior.process_window(window_id)
            },
            WindowEvent::SurfaceResized(_) => {
                &&& d.prior.is_live(window_id)
                &&& d.state == d.prior.surface_resized(window_id)
            },
            _ => d.state == d.prior,
        },
        Callback::ProxyWakeUp => d.prior.proxy_wake_up && d.state == d.prior.take_proxy_wake_up(),
        Callback::AboutToWait => d.state == d.prior.clear_dispatched(),
        _ => d.state == d.prior,
    }
}

/// Whether a delivery is one the loop may make: the callback belongs to the
/// phase, it is made in a state that the loop reached from a well-formed one
/// as `delivery_step` says, and a window event keeps what the loop promises
/// of it.
pub open spec fn delivery_ok(d: Delivery) -> bool {
    &&& d.prior.wf()
    &&& delivery_step(d)
    &&& match d.callback {
        Callback::NewEvents(_) => d.phase == Phase::NewEvents,
        Callback::CanCreateSurfaces => d.phase == Phase::CanCreateSurfaces,
        Callback::ProxyWakeUp => d.phase == Phase::ProxyWakeUp,
        Callback::WindowEvent { window_id, event } => {
            &&& window_event_promise(d.state, window_id, event)
            &&& match event {
                WindowEvent::Destroyed | WindowEvent::RedrawRequested => d.phase == Phase::Redraw,
                WindowEvent::Input(_) => d.phase == Phase::WindowEvents || d.phase == Phase::Events,
                _ => d.phase == Phase::CompositorUpdates,
            }
        },
        Callback::DeviceEvent { device_id, .. } => {
            &&& device_id is None
            &&& d.phase == Phase::WindowEvents || d.phase == Phase::Events
        },
        Callback::AboutToWait => d.phase == Phase::AboutToWait,
    }
}

/// Whether `t` is the beginning of an iteration started for `cause` that has
/// come no further than the phase of rank `rank`; `first` says whether it is
/// the first iteration the loop ever runs.  The record opens with the
/// announcement of `cause`, every delivery is in order, the phases never go
/// backwards, the announcement comes once, surfaces are offered exactly in
/// the loop's first iteration and right after the announcement, and a
/// proxy's wake-up is passed on at most once.
pub open spec fn iteration_prefix(first: bool, cause: StartCause, t: Seq<Delivery>, rank: int) -> bool {
    &&& t.len() >= 1
    &&& t[0].callback == Callback::NewEvents(cause)
    &&& forall|i: int| 0 <= i < t.len() ==> delivery_ok(#[trigger] t[i])
    &&& forall|i: int, j: int|
        0 <= i <= j < t.len() ==> (#[trigger] t[i]).phase.rank() <= (#[trigger] t[j]).phase.rank()
    &&& forall|i: int| 0 <= i < t.len() ==> (#[trigger] t[i]).phase.rank() <= rank
    &&& forall|i: int| 0 < i < t.len() ==> (#[trigger] t[i]).phase != Phase::NewEvents
    &&& forall|i: int|
        0 <= i < t.len() && (#[trigger] t[i]).phase == Phase::CanCreateSurfaces ==> i == 1
            && first
    &&& first && rank >= 1 ==> t.len() >= 2 && t[1].phase == Phase::CanCreateSurfaces
    &&& forall|i: int, j: int|
        0 <= i < j < t.len() ==> !((#[trigger] t[i]).phase == Phase::ProxyWakeUp && (
        #[trigger] t[j]).phase == Phase::ProxyWakeUp)
}

/// Whether `t` is a whole iteration started for `cause`: a beginning as
/// above that ends with the announcement of the wait, which comes once.
pub open spec fn iteration_trace(first: bool, cause: StartCause, t: Seq<Delivery>) -> bool {
    &&& iteration_prefix(first, cause, t, 7)
    &&& t.last().callback == Callback::AboutToWait
    &&& forall|i: int|
        0 <= i < t.len() && (#[trigger] t[i]).phase == Phase::AboutToWait ==> i == t.len() - 1
}

/// Extending the beginning of an iteration by one delivery of a later or the
/// same phase gives the beginning of an iteration again.
pub proof fn lemma_extend(
    first: bool,
    cause: StartCause,
    all: Seq<Delivery>,
    start: int,
    d: Delivery,
    rank: int,
)
    requires
        0 <= start <= all.len(),
        iteration_prefix(first, cause, all.skip(start), rank),
        delivery_ok(d),
        rank <= d.phase.rank(),
        d.phase.rank() >= 2,
        d.phase == Phase::ProxyWakeUp ==> rank < 2,
        first ==> rank >= 1,
    ensures
        iteration_prefix(first, cause, all.push(d).skip(start), d.phase.rank()),
{
    let t = all.skip(start);
    let u = all.push(d).skip(start);
    assert(u =~= t.push(d));
    assert forall|i: int, j: int| 0 <= i <= j < u.len() implies (#[trigger] u[i]).phase.rank() <= (
    #[trigger] u[j]).phase.rank() by {
        if j < t.len() {
            assert(t[i].phase.rank() <= t[j].phase.rank());
        } else if i < t.len() {
            assert(t[i].phase.rank() <= rank);
        }
    }
    assert forall|i: int, j: int| 0 <= i < j < u.len() implies !((#[trigger] u[i]).phase
        == Phase::ProxyWakeUp && (#[trigger] u[j]).phase == Phase::ProxyWakeUp) by {
        if j < t.len() {
            assert(!(t[i].phase == Phase::ProxyWakeUp && t[j].phase == Phase::ProxyWakeUp));
        } else {
            assert(t[i].phase.rank() <= rank);
        }
    }
    assert forall|i: int| 0 <= i < u.len() implies delivery_ok(#[trigger] u[i]) by {
        if i < t.len() {
            assert(delivery_ok(t[i]));
        }
    }
    assert forall|i: int| 0 <= i < u.len() implies (#[trigger] u[i]).phase.rank()
        <= d.phase.rank() by {
        if i < t.len() {
            assert(t[i].phase.rank() <= rank);
        }
    }
    assert forall|i: int| 0 < i < u.len() implies (#[trigger] u[i]).phase != Phase::NewEvents by {
        if i < t.len() {
            assert(t[i].phase != Phase::NewEvents);
        }
    }
    assert forall|i: int|
        0 <= i < u.len() && (#[trigger] u[i]).phase == Phase::CanCreateSurfaces implies i == 1
        && first by {
        if i < t.len() {
            assert(t[i].phase == Phase::CanCreateSurfaces);
        }
    }
    if first {
        assert(u[1] == t[1]);
    }
}

/// What the redraw pass delivers for a window keeps the loop's promise in
/// the state the pass leaves behind.  In particular a window is told
/// `Destroyed` only once it has left every store, and `RedrawRequested` only
/// if no frame callback was outstanding; after `RedrawRequested` nothing is
/// owed any more, so that refreshing the frame again finds no redraw due.
pub proof fn law_redraw_pass(s: StateView, id: WindowId)
    requires
        s.wf(),
    ensures
        s.process_window(id).wf(),
        s.window_delivery(id) matches Some(event) ==> window_event_promise(
            s.process_window(id),
            id,
            event,
        ),
        s.window_delivery(id) == Some(WindowEvent::Destroyed) ==> s.is_live(id)
            && s.process_window(id).is_retired(id) && !s.process_window(id).names(id),
        s.window_delivery(id) == Some(WindowEvent::RedrawRequested) ==> s.entry(
            id,
        ).window.frame_callback_state != FrameCallbackState::Requested
            && !s.process_window(id).frame_refresh_due(id),
        s.window_delivery(id) is None && s.is_live(id) ==> s.process_window(id).is_live(id),
{
    let t = s.process_window(id);
    if s.is_live(id) {
        let e = s.entry(id);
        let k = s.index_of(id);
        s.lemma_entry_at(k);
        if e.requests.closed {
            s.lemma_remove_window(id);
            t.lemma_names(id);
        } else if e.window.frame_callback_state == FrameCallbackState::Requested {
        } else {
            let ne = WindowEntry {
                window: WindowState {
                    frame_callback_state: FrameCallbackState::Idle,
                    frame_dirty: false,
                    ..e.window
                },
                requests: WindowRequests { redraw_requested: false, ..e.requests },
                ..e
            };
            s.lemma_replace_window(id, ne);
        }
    }
}

/// Announcing a size finds the window marked for a redraw and carries the
/// window's physical size.
pub proof fn law_surface_resized(s: StateView, id: WindowId)
    requires
        s.wf(),
        s.is_live(id),
    ensures
        s.surface_resized(id).wf(),
        window_event_promise(
            s.surface_resized(id),
            id,
            WindowEvent::SurfaceResized(s.entry(id).window.spec_physical_size()),
        ),
{
    let e = s.entry(id);
    s.lemma_entry_at(s.index_of(id));
    s.lemma_replace_window(
        id,
        WindowEntry {
            requests: WindowRequests { redraw_requested: true, ..e.requests },
            ..e
        },
    );
}

/// A window is destroyed once and for all.  The delivery of `Destroyed`
/// takes a live window out of every store, and after it, whatever operations
/// the native handlers, the window handles and the loop perform, the loop
/// makes no delivery for that window: no second `Destroyed` and no other
/// window event.
pub proof fn law_destroyed_is_final(destroyed: Delivery, steps: Seq<Step>, later: Delivery)
    requires
        delivery_ok(destroyed),
        destroyed.callback matches Callback::WindowEvent { event: WindowEvent::Destroyed, .. },
        delivery_ok(later),
        later.prior == destroyed.state.apply_all(steps),
    ensures
        destroyed.prior.is_live(destroyed.callback->window_id),
        destroyed.state.is_retired(destroyed.callback->window_id),
        !destroyed.state.names(destroyed.callback->window_id),
        later.callback matches Callback::WindowEvent { window_id, .. } ==> window_id
            != destroyed.callback->window_id,
{
    let id = destroyed.callback->window_id;
    law_redraw_pass(destroyed.prior, id);
    destroyed.state.law_steps(steps);
    assert(later.prior.is_retired(id));
    if let Callback::WindowEvent { window_id, event } = later.callback {
        if window_id == id {
            match event {
                WindowEvent::Destroyed => {
                    assert(later.prior.is_live(id));
                },
                WindowEvent::RedrawRequested => {
                    assert(later.prior.is_live(id));
                },
                WindowEvent::SurfaceResized(_) => {
                    assert(later.prior.is_live(id));
                },
                _ => {
                    assert(later.state.is_live(id));
                },
            }
        }
    }
}

/// `RedrawRequested` is delivered only for a live window with no frame
/// callback outstanding, and leaves nothing owed: refreshing the frame again
/// with nothing new scheduled finds no redraw due and changes nothing, and
/// the redraw pass has nothing more to deliver for the window.
pub proof fn law_redraw_delivery(d: Delivery)
    requires
        delivery_ok(d),
        d.callback matches Callback::WindowEvent { event: WindowEvent::RedrawRequested, .. },
    ensures
        d.prior.is_live(d.callback->window_id),
        d.prior.entry(d.callback->window_id).window.frame_callback_state
            != FrameCallbackState::Requested,
        d.state.is_live(d.callback->window_id),
        !d.state.frame_refresh_due(d.callback->window_id),
        d.state.refresh_window(d.callback->window_id) == d.state,
        d.state.window_delivery(d.callback->window_id) is None,
{
    law_redraw_pass(d.prior, d.callback->window_id);
}

} // verus!

//! What an iteration keeps: a property of the state that none of the
//! operations of an iteration can undo holds from the moment it holds, in
//! every later delivery and when the iteration is over.

use crate::control::StartCause;
use crate::event::Event;
use crate::event::spec_to_logical;
use crate::event::WindowEvent;
use crate::event::WindowId;
use crate::laws::Step;
use crate::model::StateView;
use crate::request::law_requests;
use crate::request::request_all;
use crate::request::WindowRequest;
use crate::script::Cursor;
use crate::script::expect;
use crate::script::refresh_all;
use crate::script::reply_size;
use crate::script::run_close;
use crate::script::run_event;
use crate::script::run_events;
use crate::script::run_iteration;
use crate::script::run_opening;
use crate::script::run_pending;
use crate::script::run_resize;
use crate::script::run_scale_change;
use crate::script::run_update;
use crate::script::run_updates;
use crate::script::run_window;
use crate::script::run_windows;
use crate::trace::Callback;
use crate::trace::delivery_ok;
use crate::trace::Delivery;
use crate::trace::iteration_trace;
use crate::trace::Phase;
use crate::window::FrameCallbackState;
use crate::window::WindowCompositorUpdate;
use crate::window::WindowEntry;
use crate::window::WindowRequests;
use crate::window::WindowState;
use crate::event::LogicalSize;
use crate::event::SurfaceSizeWriter;
use crate::request::law_request;
use crate::trace::law_redraw_pass;
use crate::model::replace_window;
use crate::script::law_update_deliveries;
use crate::script::update_rank;
use vstd::prelude::*;

verus! {

/// The operations that an iteration performs: those of the loop between its
/// callbacks, and those that carry out a request of the application.
pub open spec fn walk_step(step: Step) -> bool {
    ||| step is TakeProxyWakeUp
    ||| step is TakeCompositorUpdates
    ||| step is OverrideSurfaceSize
    ||| step is SurfaceResized
    ||| step is TakeWindowEvents
    ||| step is TakeEvents
    ||| step is ProcessWindow
    ||| step is ClearDispatched
    ||| step is RefreshWindow
    ||| step is CreateWindow
    ||| step is RequestRedraw
    ||| step is CloseWindow
    ||| step is RequestSurfaceSize
    ||| step is FrameCallbackRequested
    ||| step is MarkFrameDirty
    ||| step is PushWindowEvent
}

/// Whether no operation of an iteration undoes `q`.
pub open spec fn kept(q: spec_fn(StateView) -> bool) -> bool {
    forall|s: StateView, step: Step|
        s.wf() && q(s) && walk_step(step) ==> #[trigger] q(s.apply(step))
}

/// Whether `q` holds of the states of every delivery of `t` from `from` up
/// to `to`.
pub open spec fn holds_in(q: spec_fn(StateView) -> bool, t: Seq<Delivery>, from: int, to: int) -> bool {
    forall|j: int| from <= j < to ==> q((#[trigger] t[j]).prior) && q(t[j].state)
}

/// What a stretch of the walk from `c` to `e` keeps: the state stays well
/// formed; if `q` holds at `c` it holds in every delivery of the stretch
/// and at `e`; and if `q` holds in the state of one delivery of the stretch
/// it holds in every later one and at `e`.
pub open spec fn stretch_keeps(q: spec_fn(StateView) -> bool, t: Seq<Delivery>, c: Cursor, e: Cursor) -> bool {
    &&& c.at <= e.at
    &&& e.state.wf()
    &&& forall|j: int| c.at <= j < e.at ==> (#[trigger] t[j]).state.wf()
    &&& q(c.state) ==> q(e.state) && holds_in(q, t, c.at, e.at)
    &&& forall|k: int|
        c.at <= k < e.at && q((#[trigger] t[k]).state) ==> q(e.state) && holds_in(
            q,
            t,
            k + 1,
            e.at,
        )
}

/// Two stretches that keep `q`, one behind the other, keep `q` together.
pub proof fn lemma_join(q: spec_fn(StateView) -> bool, t: Seq<Delivery>, c: Cursor, m: Cursor, e: Cursor)
    requires
        stretch_keeps(q, t, c, m),
        stretch_keeps(q, t, m, e),
    ensures
        stretch_keeps(q, t, c, e),
{
    assert forall|j: int| c.at <= j < e.at implies (#[trigger] t[j]).state.wf() by {}
    if q(c.state) {
        assert(holds_in(q, t, c.at, m.at));
        assert(holds_in(q, t, m.at, e.at));
    }
    assert forall|k: int| c.at <= k < e.at && q((#[trigger] t[k]).state) implies q(e.state)
        && holds_in(q, t, k + 1, e.at) by {
        if k < m.at {
            assert(holds_in(q, t, k + 1, m.at));
            assert(holds_in(q, t, m.at, e.at));
        }
    }
}

/// Carrying out requests keeps `q`.
pub proof fn lemma_requests_keep(q: spec_fn(StateView) -> bool, s: StateView, requests: Seq<WindowRequest>)
    requires
        kept(q),
        s.wf(),
    ensures
        request_all(s, requests).wf(),
        q(s) ==> q(request_all(s, requests)),
    decreases requests.len(),
{
    law_requests(s, requests);
    if requests.len() > 0 {
        let mid = request_all(s, requests.drop_last());
        lemma_requests_keep(q, s, requests.drop_last());
        law_requests(s, requests.drop_last());
        if q(s) {
            assert(walk_step(requests.last().step()));
            assert(q(mid.apply(requests.last().step())));
        }
    }
}

/// One delivery keeps `q`, whether the loop made it in the state as it
/// stood or after one of its operations.
pub proof fn lemma_walk_expect(
    q: spec_fn(StateView) -> bool,
    t: Seq<Delivery>,
    c: Cursor,
    callback: Callback,
    phase: Phase,
    step: Option<Step>,
)
    requires
        kept(q),
        c.state.wf(),
        step matches Some(s) ==> walk_step(s),
        expect(
            t,
            c,
            callback,
            phase,
            match step {
                Some(s) => c.state.apply(s),
                None => c.state,
            },
        ) is Some,
    ensures
        stretch_keeps(
            q,
            t,
            c,
            expect(
                t,
                c,
                callback,
                phase,
                match step {
                    Some(s) => c.state.apply(s),
                    None => c.state,
                },
            ).unwrap(),
        ),
{
    let state = match step {
        Some(s) => c.state.apply(s),
        None => c.state,
    };
    let e = expect(t, c, callback, phase, state).unwrap();
    if let Some(s) = step {
        c.state.law_step(s);
        if q(c.state) {
            assert(q(c.state.apply(s)));
        }
    }
    lemma_requests_keep(q, state, t[c.at].requests);
    assert(t[c.at].state == state);
    assert(t[c.at].prior == c.state);
    assert(e.state == request_all(state, t[c.at].requests));
    if q(c.state) {
        assert(holds_in(q, t, c.at, e.at));
    }
}

/// A stretch without a delivery, made of one operation of the loop or of
/// none, keeps `q`.
pub proof fn lemma_walk_still(q: spec_fn(StateView) -> bool, t: Seq<Delivery>, c: Cursor, step: Option<Step>)
    requires
        kept(q),
        c.state.wf(),
        step matches Some(s) ==> walk_step(s),
    ensures
        stretch_keeps(
            q,
            t,
            c,
            Cursor {
                at: c.at,
                state: match step {
                    Some(s) => c.state.apply(s),
                    None => c.state,
                },
            },
        ),
{
    if let Some(s) = step {
        c.state.law_step(s);
        if q(c.state) {
            assert(q(c.state.apply(s)));
        }
    }
}

/// One compositor update keeps `q`.
pub proof fn lemma_walk_update(
    q: spec_fn(StateView) -> bool,
    update: WindowCompositorUpdate,
    c: Cursor,
    t: Seq<Delivery>,
)
    requires
        kept(q),
        c.state.wf(),
        run_update(update, c, t) is Some,
    ensures
        stretch_keeps(q, t, c, run_update(update, c, t).unwrap()),
{
    let id = update.window_id;
    let (scaled, forced) = run_scale_change(update, c, t).unwrap();
    if update.scale_changed && c.state.is_live(id) {
        let window = c.state.entry(id).window;
        let size = window.spec_physical_size();
        let event = WindowEvent::ScaleFactorChanged {
            scale_factor: window.scale_factor,
            surface_size_writer: SurfaceSizeWriter { new_surface_size: size },
        };
        let callback = Callback::WindowEvent { window_id: id, event };
        lemma_walk_expect(q, t, c, callback, Phase::CompositorUpdates, None);
        let next = expect(t, c, callback, Phase::CompositorUpdates, c.state).unwrap();
        let new_size = reply_size(t[c.at].reply, size);
        if new_size != size {
            lemma_walk_still(q, t, next, Some(Step::OverrideSurfaceSize(id, new_size)));
            lemma_join(q, t, c, next, scaled);
        }
    } else {
        lemma_walk_still(q, t, c, None);
    }
    let resized = run_resize(update, forced, scaled, t).unwrap();
    if (update.resized || forced || update.scale_changed) && scaled.state.is_live(id) {
        lemma_walk_expect(
            q,
            t,
            scaled,
            Callback::WindowEvent {
                window_id: id,
                event: WindowEvent::SurfaceResized(
                    scaled.state.entry(id).window.spec_physical_size(),
                ),
            },
            Phase::CompositorUpdates,
            Some(Step::SurfaceResized(id)),
        );
    } else {
        lemma_walk_still(q, t, scaled, None);
    }
    lemma_join(q, t, c, scaled, resized);
    let end = run_close(update, resized, t).unwrap();
    if update.close_window && resized.state.is_live(id) {
        lemma_walk_expect(
            q,
            t,
            resized,
            Callback::WindowEvent { window_id: id, event: WindowEvent::CloseRequested },
            Phase::CompositorUpdates,
            None,
        );
    } else {
        lemma_walk_still(q, t, resized, None);
    }
    lemma_join(q, t, c, resized, end);
}

/// The compositor updates keep `q`.
pub proof fn lemma_walk_updates(
    q: spec_fn(StateView) -> bool,
    updates: Seq<WindowCompositorUpdate>,
    c: Cursor,
    t: Seq<Delivery>,
)
    requires
        kept(q),
        c.state.wf(),
        run_updates(updates, c, t) is Some,
    ensures
        stretch_keeps(q, t, c, run_updates(updates, c, t).unwrap()),
    decreases updates.len(),
{
    if updates.len() == 0 {
        lemma_walk_still(q, t, c, None);
    } else {
        let done = run_updates(updates.drop_last(), c, t).unwrap();
        lemma_walk_updates(q, updates.drop_last(), c, t);
        lemma_walk_update(q, updates.last(), done, t);
        lemma_join(q, t, c, done, run_updates(updates, c, t).unwrap());
    }
}

/// One buffered event keeps `q`.
pub proof fn lemma_walk_event(q: spec_fn(StateView) -> bool, event: Event, phase: Phase, c: Cursor, t: Seq<Delivery>)
    requires
        kept(q),
        c.state.wf(),
        run_event(event, phase, c, t) is Some,
    ensures
        stretch_keeps(q, t, c, run_event(event, phase, c, t).unwrap()),
{
    match event {
        Event::WindowEvent { window_id, event } => {
            if c.state.is_live(window_id) {
                lemma_walk_expect(q, t, c, Callback::WindowEvent { window_id, event }, phase, None);
            } else {
                lemma_walk_still(q, t, c, None);
            }
        },
        Event::DeviceEvent { event } => {
            lemma_walk_expect(q, t, c, Callback::DeviceEvent { device_id: None, event }, phase, None);
        },
    }
}

/// The buffered events keep `q`.
pub proof fn lemma_walk_events(
    q: spec_fn(StateView) -> bool,
    events: Seq<Event>,
    phase: Phase,
    c: Cursor,
    t: Seq<Delivery>,
)
    requires
        kept(q),
        c.state.wf(),
        run_events(events, phase, c, t) is Some,
    ensures
        stretch_keeps(q, t, c, run_events(events, phase, c, t).unwrap()),
    decreases events.len(),
{
    if events.len() == 0 {
        lemma_walk_still(q, t, c, None);
    } else {
        let done = run_events(events.drop_last(), phase, c, t).unwrap();
        lemma_walk_events(q, events.drop_last(), phase, c, t);
        lemma_walk_event(q, events.last(), phase, done, t);
        lemma_join(q, t, c, done, run_events(events, phase, c, t).unwrap());
    }
}

/// One window of the redraw pass keeps `q`.
pub proof fn lemma_walk_window(q: spec_fn(StateView) -> bool, id: WindowId, c: Cursor, t: Seq<Delivery>)
    requires
        kept(q),
        c.state.wf(),
        run_window(id, c, t) is Some,
    ensures
        stretch_keeps(q, t, c, run_window(id, c, t).unwrap()),
{
    match c.state.window_delivery(id) {
        Some(event) => {
            lemma_walk_expect(
                q,
                t,
                c,
                Callback::WindowEvent { window_id: id, event },
                Phase::Redraw,
                Some(Step::ProcessWindow(id)),
            );
        },
        None => {
            lemma_walk_still(q, t, c, Some(Step::ProcessWindow(id)));
        },
    }
}

/// The redraw pass keeps `q`.
pub proof fn lemma_walk_windows(q: spec_fn(StateView) -> bool, ids: Seq<WindowId>, c: Cursor, t: Seq<Delivery>)
    requires
        kept(q),
        c.state.wf(),
        run_windows(ids, c, t) is Some,
    ensures
        stretch_keeps(q, t, c, run_windows(ids, c, t).unwrap()),
    decreases ids.len(),
{
    if ids.len() == 0 {
        lemma_walk_still(q, t, c, None);
    } else {
        let done = run_windows(ids.drop_last(), c, t).unwrap();
        lemma_walk_windows(q, ids.drop_last(), c, t);
        lemma_walk_window(q, ids.last(), done, t);
        lemma_join(q, t, c, done, run_windows(ids, c, t).unwrap());
    }
}

/// The closing pass keeps `q`.
pub proof fn lemma_refresh_keeps(q: spec_fn(StateView) -> bool, s: StateView, ids: Seq<WindowId>)
    requires
        kept(q),
        s.wf(),
    ensures
        refresh_all(s, ids).wf(),
        q(s) ==> q(refresh_all(s, ids)),
    decreases ids.len(),
{
    if ids.len() > 0 {
        let mid = refresh_all(s, ids.drop_last());
        lemma_refresh_keeps(q, s, ids.drop_last());
        mid.law_step(Step::RefreshWindow(ids.last()));
        if q(s) {
            assert(walk_step(Step::RefreshWindow(ids.last())));
            assert(q(mid.apply(Step::RefreshWindow(ids.last()))));
        }
    }
}

/// The opening of an iteration keeps `q`.
pub proof fn lemma_walk_opening(
    q: spec_fn(StateView) -> bool,
    first: bool,
    cause: StartCause,
    c: Cursor,
    t: Seq<Delivery>,
)
    requires
        kept(q),
        c.state.wf(),
        run_opening(first, cause, c, t) is Some,
    ensures
        stretch_keeps(q, t, c, run_opening(first, cause, c, t).unwrap()),
{
    lemma_walk_expect(q, t, c, Callback::NewEvents(cause), Phase::NewEvents, None);
    let announced = expect(t, c, Callback::NewEvents(cause), Phase::NewEvents, c.state).unwrap();
    let offered = if first {
        lemma_walk_expect(
            q,
            t,
            announced,
            Callback::CanCreateSurfaces,
            Phase::CanCreateSurfaces,
            None,
        );
        expect(
            t,
            announced,
            Callback::CanCreateSurfaces,
            Phase::CanCreateSurfaces,
            announced.state,
        ).unwrap()
    } else {
        lemma_walk_still(q, t, announced, None);
        announced
    };
    lemma_join(q, t, c, announced, offered);
    if offered.state.proxy_wake_up {
        lemma_walk_expect(
            q,
            t,
            offered,
            Callback::ProxyWakeUp,
            Phase::ProxyWakeUp,
            Some(Step::TakeProxyWakeUp),
        );
    } else {
        lemma_walk_still(q, t, offered, None);
    }
    lemma_join(q, t, c, offered, run_opening(first, cause, c, t).unwrap());
}

/// The phases that deliver what is pending keep `q`.
pub proof fn lemma_walk_pending(q: spec_fn(StateView) -> bool, c: Cursor, t: Seq<Delivery>)
    requires
        kept(q),
        c.state.wf(),
        run_pending(c, t) is Some,
    ensures
        stretch_keeps(q, t, c, run_pending(c, t).unwrap()),
{
    let c0 = Cursor { at: c.at, state: c.state.take_compositor_updates() };
    lemma_walk_still(q, t, c, Some(Step::TakeCompositorUpdates));
    lemma_walk_updates(q, c.state.compositor_updates, c0, t);
    let updated = run_updates(c.state.compositor_updates, c0, t).unwrap();
    lemma_join(q, t, c, c0, updated);
    let c1 = Cursor { at: updated.at, state: updated.state.take_window_events() };
    lemma_walk_still(q, t, updated, Some(Step::TakeWindowEvents));
    lemma_join(q, t, c, updated, c1);
    lemma_walk_events(q, updated.state.window_events, Phase::WindowEvents, c1, t);
    let raised = run_events(updated.state.window_events, Phase::WindowEvents, c1, t).unwrap();
    lemma_join(q, t, c, c1, raised);
    let c2 = Cursor { at: raised.at, state: raised.state.take_events() };
    lemma_walk_still(q, t, raised, Some(Step::TakeEvents));
    lemma_join(q, t, c, raised, c2);
    lemma_walk_events(q, raised.state.events, Phase::Events, c2, t);
    lemma_join(q, t, c, c2, run_pending(c, t).unwrap());
}

/// A whole iteration keeps `q`: from the moment `q` holds, at the start or
/// in the state of a delivery, it holds in every later delivery, where the
/// walk ends, and when the closing pass is over.
pub proof fn law_iteration_keeps(
    q: spec_fn(StateView) -> bool,
    first: bool,
    cause: StartCause,
    start: StateView,
    t: Seq<Delivery>,
)
    requires
        kept(q),
        start.wf(),
        run_iteration(first, cause, start, t) is Some,
    ensures
        ({
            let iteration = run_iteration(first, cause, start, t).unwrap();
            let over = refresh_all(iteration.end.state, iteration.windows);
            &&& stretch_keeps(q, t, Cursor { at: 0, state: start }, iteration.end)
            &&& over.wf()
            &&& q(iteration.end.state) ==> q(over)
        }),
{
    let c = Cursor { at: 0, state: start };
    lemma_walk_opening(q, first, cause, c, t);
    let opened = run_opening(first, cause, c, t).unwrap();
    lemma_walk_pending(q, opened, t);
    let delivered = run_pending(opened, t).unwrap();
    lemma_join(q, t, c, opened, delivered);
    let windows = delivered.state.window_ids();
    lemma_walk_windows(q, windows, delivered, t);
    let redrawn = run_windows(windows, delivered, t).unwrap();
    lemma_join(q, t, c, delivered, redrawn);
    lemma_walk_expect(
        q,
        t,
        redrawn,
        Callback::AboutToWait,
        Phase::AboutToWait,
        Some(Step::ClearDispatched),
    );
    let iteration = run_iteration(first, cause, start, t).unwrap();
    lemma_join(q, t, c, redrawn, iteration.end);
    lemma_refresh_keeps(q, iteration.end.state, iteration.windows);
}


/// Whether a delivery is a window event for window `w`.
pub open spec fn names_window(d: Delivery, w: WindowId) -> bool {
    d.callback matches Callback::WindowEvent { window_id, .. } && window_id == w
}

/// A delivery that is in order and is made from and in states in which `w`
/// is retired does not name `w`.
pub proof fn lemma_retired_unnamed(d: Delivery, w: WindowId)
    requires
        delivery_ok(d),
        d.prior.is_retired(w),
        d.state.is_retired(w),
    ensures
        !names_window(d, w) || d.callback->WindowEvent_event == WindowEvent::Destroyed,
{
}

/// A window is destroyed once and for all.  If an iteration delivers
/// `Destroyed` for a window, the window was live until then, it has left
/// every store when the application is told, no other delivery of the
/// iteration names the window after that, none before it is another
/// `Destroyed` for it, and the window is still retired when the iteration is
/// over.
pub proof fn law_destroyed_once(
    first: bool,
    cause: StartCause,
    start: StateView,
    t: Seq<Delivery>,
    i: int,
)
    requires
        start.wf(),
        iteration_trace(first, cause, t),
        run_iteration(first, cause, start, t) is Some,
        run_iteration(first, cause, start, t).unwrap().end.at == t.len(),
        0 <= i < t.len(),
        t[i].callback matches Callback::WindowEvent { event: WindowEvent::Destroyed, .. },
    ensures
        ({
            let w = t[i].callback->window_id;
            let iteration = run_iteration(first, cause, start, t).unwrap();
            &&& t[i].prior.is_live(w)
            &&& t[i].state.is_retired(w)
            &&& forall|j: int| i < j < t.len() ==> !names_window(#[trigger] t[j], w)
            &&& forall|j: int|
                0 <= j < i ==> !(names_window(#[trigger] t[j], w) && t[j].callback->WindowEvent_event
                    == WindowEvent::Destroyed)
            &&& refresh_all(iteration.end.state, iteration.windows).is_retired(w)
        }),
{
    let w = t[i].callback->window_id;
    let q = |s: StateView| s.is_retired(w);
    assert(kept(q)) by {
        assert forall|s: StateView, step: Step| s.wf() && q(s) && walk_step(step) implies #[trigger] q(
            s.apply(step),
        ) by {
            s.law_step(step);
        }
    }
    law_iteration_keeps(q, first, cause, start, t);
    let iteration = run_iteration(first, cause, start, t).unwrap();
    assert(delivery_ok(t[i]));
    assert(q(t[i].state));
    assert(holds_in(q, t, i + 1, iteration.end.at));
    assert forall|j: int| i < j < t.len() implies !names_window(#[trigger] t[j], w) by {
        assert(delivery_ok(t[j]));
        assert(q(t[j].prior) && q(t[j].state));
        lemma_retired_unnamed(t[j], w);
    }
    assert forall|j: int| 0 <= j < i implies !(names_window(#[trigger] t[j], w)
        && t[j].callback->WindowEvent_event == WindowEvent::Destroyed) by {
        if names_window(t[j], w) && t[j].callback->WindowEvent_event == WindowEvent::Destroyed {
            assert(delivery_ok(t[j]));
            assert(q(t[j].state));
            assert(holds_in(q, t, j + 1, iteration.end.at));
            assert(q(t[i].prior));
        }
    }
}

/// Nothing is delivered for a window that is gone.  An iteration that
/// starts with a window retired makes no delivery that names the window, and
/// the window is still retired when the iteration is over.
pub proof fn law_retired_gets_nothing(
    first: bool,
    cause: StartCause,
    start: StateView,
    t: Seq<Delivery>,
    w: WindowId,
)
    requires
        start.wf(),
        start.is_retired(w),
        iteration_trace(first, cause, t),
        run_iteration(first, cause, start, t) is Some,
        run_iteration(first, cause, start, t).unwrap().end.at == t.len(),
    ensures
        forall|j: int| 0 <= j < t.len() ==> !names_window(#[trigger] t[j], w),
        ({
            let iteration = run_iteration(first, cause, start, t).unwrap();
            refresh_all(iteration.end.state, iteration.windows).is_retired(w)
        }),
{
    let q = |s: StateView| s.is_retired(w);
    assert(kept(q)) by {
        assert forall|s: StateView, step: Step| s.wf() && q(s) && walk_step(step) implies #[trigger] q(
            s.apply(step),
        ) by {
            s.law_step(step);
        }
    }
    law_iteration_keeps(q, first, cause, start, t);
    let iteration = run_iteration(first, cause, start, t).unwrap();
    assert(holds_in(q, t, 0, iteration.end.at));
    assert forall|j: int| 0 <= j < t.len() implies !names_window(#[trigger] t[j], w) by {
        assert(delivery_ok(t[j]));
        assert(q(t[j].prior) && q(t[j].state));
        lemma_retired_unnamed(t[j], w);
        if names_window(t[j], w) {
            assert(t[j].prior.is_live(w));
        }
    }
}

/// A proxy's wake-up is passed on exactly when the flag is set as the
/// iteration starts: then once, right behind the announcement and the offer
/// of surfaces and before every window and device event; and never if the
/// flag is not set.  Either way the flag is down when the iteration is over.
pub proof fn law_proxy_wake_up(first: bool, cause: StartCause, start: StateView, t: Seq<Delivery>)
    requires
        start.wf(),
        iteration_trace(first, cause, t),
        run_iteration(first, cause, start, t) is Some,
        run_iteration(first, cause, start, t).unwrap().end.at == t.len(),
    ensures
        ({
            let k: int = if first {
                2
            } else {
                1
            };
            let iteration = run_iteration(first, cause, start, t).unwrap();
            &&& start.proxy_wake_up ==> k < t.len() && t[k].callback == Callback::ProxyWakeUp
            &&& forall|j: int|
                0 <= j < t.len() && (#[trigger] t[j]).callback == Callback::ProxyWakeUp ==> j == k
                    && start.proxy_wake_up
            &&& !refresh_all(iteration.end.state, iteration.windows).proxy_wake_up
        }),
{
    let k: int = if first {
        2
    } else {
        1
    };
    let c = Cursor { at: 0, state: start };
    let announced = expect(t, c, Callback::NewEvents(cause), Phase::NewEvents, start).unwrap();
    law_requests(start, t[0].requests);
    let offered = if first {
        law_requests(announced.state, t[1].requests);
        expect(
            t,
            announced,
            Callback::CanCreateSurfaces,
            Phase::CanCreateSurfaces,
            announced.state,
        ).unwrap()
    } else {
        announced
    };
    assert(offered.at == k);
    assert(offered.state.proxy_wake_up == start.proxy_wake_up);
    assert(offered.state.wf());
    let opened = run_opening(first, cause, c, t).unwrap();
    if start.proxy_wake_up {
        offered.state.law_step(Step::TakeProxyWakeUp);
        law_requests(offered.state.take_proxy_wake_up(), t[k].requests);
        assert(t[k].callback == Callback::ProxyWakeUp);
    }
    assert(!opened.state.proxy_wake_up);
    let q = |s: StateView| !s.proxy_wake_up;
    assert(kept(q)) by {
        assert forall|s: StateView, step: Step| s.wf() && q(s) && walk_step(step) implies #[trigger] q(
            s.apply(step),
        ) by {
            lemma_flag_kept(s, step);
        }
    }
    lemma_walk_opening(q, first, cause, c, t);
    lemma_walk_pending(q, opened, t);
    let delivered = run_pending(opened, t).unwrap();
    let windows = delivered.state.window_ids();
    lemma_walk_windows(q, windows, delivered, t);
    let redrawn = run_windows(windows, delivered, t).unwrap();
    lemma_join(q, t, opened, delivered, redrawn);
    lemma_walk_expect(
        q,
        t,
        redrawn,
        Callback::AboutToWait,
        Phase::AboutToWait,
        Some(Step::ClearDispatched),
    );
    let iteration = run_iteration(first, cause, start, t).unwrap();
    lemma_join(q, t, opened, redrawn, iteration.end);
    lemma_refresh_keeps(q, iteration.end.state, iteration.windows);
    assert(holds_in(q, t, opened.at, iteration.end.at));
    assert forall|j: int|
        0 <= j < t.len() && (#[trigger] t[j]).callback == Callback::ProxyWakeUp implies j == k
        && start.proxy_wake_up by {
        assert(delivery_ok(t[j]));
        if j >= opened.at {
            assert(q(t[j].prior));
        } else if j == 0 {
        } else if first && j == 1 {
        }
    }
}

/// No operation of an iteration raises the flag of a proxy's wake-up.
proof fn lemma_flag_kept(s: StateView, step: Step)
    requires
        s.wf(),
        !s.proxy_wake_up,
        walk_step(step),
    ensures
        !s.apply(step).proxy_wake_up,
{
}


/// Whether window `w` is live with its handle dropped.
pub open spec fn dropped(s: StateView, w: WindowId) -> bool {
    s.is_live(w) && s.entry(w).requests.closed
}

/// Putting an entry in the place of a live window leaves a dropped handle
/// dropped, unless the entry picks up the handle of that very window.
proof fn lemma_entry_keeps_dropped(s: StateView, id: WindowId, entry: WindowEntry, w: WindowId)
    requires
        s.wf(),
        dropped(s, w),
        s.is_live(id),
        entry.id == id,
        entry.window.wf(),
        entry.requests.closed || !s.entry(id).requests.closed,
    ensures
        dropped(StateView { windows: replace_window(s.windows, id, entry), ..s }, w),
{
    s.lemma_replace_window(id, entry);
}

/// Changing the requests of a window leaves a dropped handle dropped, unless
/// the change picks up the handle of that very window.
proof fn lemma_requests_change_keeps_dropped(
    s: StateView,
    id: WindowId,
    requests: WindowRequests,
    w: WindowId,
)
    requires
        s.wf(),
        dropped(s, w),
        s.is_live(id),
        requests.closed || !s.entry(id).requests.closed,
    ensures
        dropped(s.set_requests(id, requests), w),
{
    s.lemma_entry_at(s.index_of(id));
    lemma_entry_keeps_dropped(s, id, WindowEntry { requests, ..s.entry(id) }, w);
}

/// Changing the state of a window leaves a dropped handle dropped.
proof fn lemma_window_change_keeps_dropped(s: StateView, id: WindowId, window: WindowState, w: WindowId)
    requires
        s.wf(),
        dropped(s, w),
        s.is_live(id),
        window.wf(),
    ensures
        dropped(s.set_window(id, window), w),
{
    s.lemma_entry_at(s.index_of(id));
    lemma_entry_keeps_dropped(s, id, WindowEntry { window, ..s.entry(id) }, w);
}

/// Giving a window a size leaves a dropped handle dropped.
proof fn lemma_size_keeps_dropped(s: StateView, id: WindowId, size: LogicalSize, w: WindowId)
    requires
        s.wf(),
        dropped(s, w),
    ensures
        dropped(s.request_surface_size(id, size), w),
{
    if s.is_live(id) {
        s.lemma_entry_at(s.index_of(id));
        let window = s.entry(id).window;
        lemma_window_change_keeps_dropped(
            s,
            id,
            WindowState {
                surface_size: size,
                frame_dirty: window.frame_dirty || size != window.surface_size,
                ..window
            },
            w,
        );
    }
}

/// Creating a window leaves a dropped handle dropped.
proof fn lemma_create_keeps_dropped(s: StateView, size: LogicalSize, w: WindowId)
    requires
        s.wf(),
        dropped(s, w),
    ensures
        dropped(s.create_window(size), w),
{
    s.lemma_entry_at(s.index_of(w));
    s.lemma_create_window(size);
    let t = s.create_window(size);
    if s.next_window_id < u64::MAX {
        assert(t.windows[s.index_of(w)] == s.entry(w));
        t.lemma_entry_at(s.index_of(w));
    }
}

/// The redraw pass on a window leaves the dropped handle of a window that
/// stays live dropped.
proof fn lemma_process_keeps_dropped(s: StateView, id: WindowId, w: WindowId)
    requires
        s.wf(),
        dropped(s, w),
        s.process_window(id).is_live(w),
    ensures
        dropped(s.process_window(id), w),
{
    if s.is_live(id) {
        let e = s.entry(id);
        s.lemma_entry_at(s.index_of(id));
        if e.requests.closed {
            s.lemma_remove_window(id);
        } else if e.window.frame_callback_state == FrameCallbackState::Requested {
        } else {
            lemma_entry_keeps_dropped(
                s,
                id,
                WindowEntry {
                    window: WindowState {
                        frame_callback_state: FrameCallbackState::Idle,
                        frame_dirty: false,
                        ..e.window
                    },
                    requests: WindowRequests { redraw_requested: false, ..e.requests },
                    ..e
                },
                w,
            );
        }
    }
}

/// The closing pass on a window leaves a dropped handle dropped.
proof fn lemma_refresh_keeps_dropped(s: StateView, id: WindowId, w: WindowId)
    requires
        s.wf(),
        dropped(s, w),
    ensures
        dropped(s.refresh_window(id), w),
{
    if s.frame_refresh_due(id) {
        let e = s.entry(id);
        s.lemma_entry_at(s.index_of(id));
        lemma_entry_keeps_dropped(
            s,
            id,
            WindowEntry {
                window: WindowState { frame_dirty: false, ..e.window },
                requests: WindowRequests { redraw_requested: true, ..e.requests },
                ..e
            },
            w,
        );
    }
}

/// The operations that change neither a window nor the store leave a
/// dropped handle dropped.
proof fn lemma_same_windows_keep_dropped(s: StateView, t: StateView, w: WindowId)
    requires
        dropped(s, w),
        t.windows == s.windows,
    ensures
        dropped(t, w),
{
    s.lemma_same_windows(t);
}

/// A handle that was dropped stays dropped for as long as the window is
/// live: no operation of an iteration picks it up again.
pub proof fn lemma_dropped_kept(s: StateView, step: Step, w: WindowId)
    requires
        s.wf(),
        walk_step(step),
        dropped(s, w),
        s.apply(step).is_live(w),
    ensures
        dropped(s.apply(step), w),
{
    match step {
        Step::CreateWindow(size) => lemma_create_keeps_dropped(s, size, w),
        Step::RequestRedraw(id) => {
            if s.is_live(id) {
                lemma_requests_change_keeps_dropped(
                    s,
                    id,
                    WindowRequests { redraw_requested: true, ..s.entry(id).requests },
                    w,
                );
            }
        },
        Step::SurfaceResized(id) => {
            if s.is_live(id) {
                lemma_requests_change_keeps_dropped(
                    s,
                    id,
                    WindowRequests { redraw_requested: true, ..s.entry(id).requests },
                    w,
                );
            }
        },
        Step::CloseWindow(id) => {
            if s.is_live(id) {
                lemma_requests_change_keeps_dropped(
                    s,
                    id,
                    WindowRequests { closed: true, ..s.entry(id).requests },
                    w,
                );
            }
        },
        Step::RequestSurfaceSize(id, size) => lemma_size_keeps_dropped(s, id, size, w),
        Step::OverrideSurfaceSize(id, size) => {
            if s.is_live(id) {
                lemma_size_keeps_dropped(
                    s,
                    id,
                    spec_to_logical(size, s.entry(id).window.scale_factor),
                    w,
                );
            }
        },
        Step::FrameCallbackRequested(id) => {
            if s.is_live(id) {
                s.lemma_entry_at(s.index_of(id));
                lemma_window_change_keeps_dropped(
                    s,
                    id,
                    WindowState {
                        frame_callback_state: FrameCallbackState::Requested,
                        ..s.entry(id).window
                    },
                    w,
                );
            }
        },
        Step::MarkFrameDirty(id) => {
            if s.is_live(id) {
                s.lemma_entry_at(s.index_of(id));
                lemma_window_change_keeps_dropped(
                    s,
                    id,
                    WindowState { frame_dirty: true, ..s.entry(id).window },
                    w,
                );
            }
        },
        Step::ProcessWindow(id) => lemma_process_keeps_dropped(s, id, w),
        Step::RefreshWindow(id) => lemma_refresh_keeps_dropped(s, id, w),
        _ => lemma_same_windows_keep_dropped(s, s.apply(step), w),
    }
}

/// Whether some delivery of `t` from `from` up to `to` tells window `w`
/// that it is destroyed.
pub open spec fn destroyed_in(t: Seq<Delivery>, w: WindowId, from: int, to: int) -> bool {
    exists|j: int|
        from <= j < to && (#[trigger] t[j]).callback == (Callback::WindowEvent {
            window_id: w,
            event: WindowEvent::Destroyed,
        })
}

/// What a stretch of the walk from `c` to `e` does to a live window: the
/// window stays live, or the stretch tells it that it is destroyed.
pub open spec fn stays_or_goes(t: Seq<Delivery>, w: WindowId, c: Cursor, e: Cursor) -> bool {
    &&& c.at <= e.at
    &&& e.state.wf()
    &&& c.state.is_live(w) ==> e.state.is_live(w) || destroyed_in(t, w, c.at, e.at)
}

proof fn lemma_goes_join(t: Seq<Delivery>, w: WindowId, c: Cursor, m: Cursor, e: Cursor)
    requires
        stays_or_goes(t, w, c, m),
        stays_or_goes(t, w, m, e),
    ensures
        stays_or_goes(t, w, c, e),
{
    if c.state.is_live(w) {
        if destroyed_in(t, w, c.at, m.at) {
            let j = choose|j: int|
                c.at <= j < m.at && (#[trigger] t[j]).callback == (Callback::WindowEvent {
                    window_id: w,
                    event: WindowEvent::Destroyed,
                });
            assert(c.at <= j < e.at);
        } else if !e.state.is_live(w) {
            let j = choose|j: int|
                m.at <= j < e.at && (#[trigger] t[j]).callback == (Callback::WindowEvent {
                    window_id: w,
                    event: WindowEvent::Destroyed,
                });
            assert(c.at <= j < e.at);
        }
    }
}

/// A live window stays live through one delivery, and through the
/// operation before it, unless the delivery tells it that it is destroyed.
proof fn lemma_goes_expect(
    t: Seq<Delivery>,
    w: WindowId,
    c: Cursor,
    callback: Callback,
    phase: Phase,
    step: Option<Step>,
)
    requires
        c.state.wf(),
        step matches Some(s) ==> walk_step(s),
        step matches Some(Step::ProcessWindow(x)) ==> callback == (Callback::WindowEvent {
            window_id: x,
            event: c.state.window_delivery(x).unwrap(),
        }) && c.state.window_delivery(x) is Some,
        expect(
            t,
            c,
            callback,
            phase,
            match step {
                Some(s) => c.state.apply(s),
                None => c.state,
            },
        ) is Some,
    ensures
        stays_or_goes(
            t,
            w,
            c,
            expect(
                t,
                c,
                callback,
                phase,
                match step {
                    Some(s) => c.state.apply(s),
                    None => c.state,
                },
            ).unwrap(),
        ),
{
    let state = match step {
        Some(s) => c.state.apply(s),
        None => c.state,
    };
    if let Some(s) = step {
        c.state.law_step(s);
    }
    law_requests(state, t[c.at].requests);
    if c.state.is_live(w) && !state.is_live(w) {
        assert(step == Some(Step::ProcessWindow(w)));
        assert(t[c.at].callback == (Callback::WindowEvent {
            window_id: w,
            event: WindowEvent::Destroyed,
        }));
    }
}

/// A live window stays live through an operation of the loop that comes
/// without a delivery.
proof fn lemma_goes_still(t: Seq<Delivery>, w: WindowId, c: Cursor, step: Option<Step>)
    requires
        c.state.wf(),
        step matches Some(s) ==> walk_step(s),
        step matches Some(Step::ProcessWindow(x)) ==> c.state.window_delivery(x) is None,
    ensures
        stays_or_goes(
            t,
            w,
            c,
            Cursor {
                at: c.at,
                state: match step {
                    Some(s) => c.state.apply(s),
                    None => c.state,
                },
            },
        ),
{
    if let Some(s) = step {
        c.state.law_step(s);
    }
}

proof fn lemma_goes_update(t: Seq<Delivery>, w: WindowId, update: WindowCompositorUpdate, c: Cursor)
    requires
        c.state.wf(),
        run_update(update, c, t) is Some,
    ensures
        stays_or_goes(t, w, c, run_update(update, c, t).unwrap()),
{
    let id = update.window_id;
    let (scaled, forced) = run_scale_change(update, c, t).unwrap();
    if update.scale_changed && c.state.is_live(id) {
        let window = c.state.entry(id).window;
        let size = window.spec_physical_size();
        let event = WindowEvent::ScaleFactorChanged {
            scale_factor: window.scale_factor,
            surface_size_writer: SurfaceSizeWriter { new_surface_size: size },
        };
        let callback = Callback::WindowEvent { window_id: id, event };
        lemma_goes_expect(t, w, c, callback, Phase::CompositorUpdates, None);
        let next = expect(t, c, callback, Phase::CompositorUpdates, c.state).unwrap();
        let new_size = reply_size(t[c.at].reply, size);
        if new_size != size {
            lemma_goes_still(t, w, next, Some(Step::OverrideSurfaceSize(id, new_size)));
            lemma_goes_join(t, w, c, next, scaled);
        }
    } else {
        lemma_goes_still(t, w, c, None);
    }
    let resized = run_resize(update, forced, scaled, t).unwrap();
    if (update.resized || forced || update.scale_changed) && scaled.state.is_live(id) {
        lemma_goes_expect(
            t,
            w,
            scaled,
            Callback::WindowEvent {
                window_id: id,
                event: WindowEvent::SurfaceResized(
                    scaled.state.entry(id).window.spec_physical_size(),
                ),
            },
            Phase::CompositorUpdates,
            Some(Step::SurfaceResized(id)),
        );
    } else {
        lemma_goes_still(t, w, scaled, None);
    }
    lemma_goes_join(t, w, c, scaled, resized);
    let end = run_close(update, resized, t).unwrap();
    if update.close_window && resized.state.is_live(id) {
        lemma_goes_expect(
            t,
            w,
            resized,
            Callback::WindowEvent { window_id: id, event: WindowEvent::CloseRequested },
            Phase::CompositorUpdates,
            None,
        );
    } else {
        lemma_goes_still(t, w, resized, None);
    }
    lemma_goes_join(t, w, c, resized, end);
}

proof fn lemma_goes_updates(
    t: Seq<Delivery>,
    w: WindowId,
    updates: Seq<WindowCompositorUpdate>,
    c: Cursor,
)
    requires
        c.state.wf(),
        run_updates(updates, c, t) is Some,
    ensures
        stays_or_goes(t, w, c, run_updates(updates, c, t).unwrap()),
    decreases updates.len(),
{
    if updates.len() == 0 {
        lemma_goes_still(t, w, c, None);
    } else {
        let done = run_updates(updates.drop_last(), c, t).unwrap();
        lemma_goes_updates(t, w, updates.drop_last(), c);
        lemma_goes_update(t, w, updates.last(), done);
        lemma_goes_join(t, w, c, done, run_updates(updates, c, t).unwrap());
    }
}

proof fn lemma_goes_events(t: Seq<Delivery>, w: WindowId, events: Seq<Event>, phase: Phase, c: Cursor)
    requires
        c.state.wf(),
        run_events(events, phase, c, t) is Some,
    ensures
        stays_or_goes(t, w, c, run_events(events, phase, c, t).unwrap()),
    decreases events.len(),
{
    if events.len() == 0 {
        lemma_goes_still(t, w, c, None);
    } else {
        let done = run_events(events.drop_last(), phase, c, t).unwrap();
        lemma_goes_events(t, w, events.drop_last(), phase, c);
        match events.last() {
            Event::WindowEvent { window_id, event } => {
                if done.state.is_live(window_id) {
                    lemma_goes_expect(
                        t,
                        w,
                        done,
                        Callback::WindowEvent { window_id, event },
                        phase,
                        None,
                    );
                } else {
                    lemma_goes_still(t, w, done, None);
                }
            },
            Event::DeviceEvent { event } => {
                lemma_goes_expect(
                    t,
                    w,
                    done,
                    Callback::DeviceEvent { device_id: None, event },
                    phase,
                    None,
                );
            },
        }
        lemma_goes_join(t, w, c, done, run_events(events, phase, c, t).unwrap());
    }
}

proof fn lemma_goes_window(t: Seq<Delivery>, w: WindowId, id: WindowId, c: Cursor)
    requires
        c.state.wf(),
        run_window(id, c, t) is Some,
    ensures
        stays_or_goes(t, w, c, run_window(id, c, t).unwrap()),
{
    match c.state.window_delivery(id) {
        Some(event) => {
            lemma_goes_expect(
                t,
                w,
                c,
                Callback::WindowEvent { window_id: id, event },
                Phase::Redraw,
                Some(Step::ProcessWindow(id)),
            );
        },
        None => {
            lemma_goes_still(t, w, c, Some(Step::ProcessWindow(id)));
        },
    }
}

proof fn lemma_goes_windows(t: Seq<Delivery>, w: WindowId, ids: Seq<WindowId>, c: Cursor)
    requires
        c.state.wf(),
        run_windows(ids, c, t) is Some,
    ensures
        stays_or_goes(t, w, c, run_windows(ids, c, t).unwrap()),
    decreases ids.len(),
{
    if ids.len() == 0 {
        lemma_goes_still(t, w, c, None);
    } else {
        let done = run_windows(ids.drop_last(), c, t).unwrap();
        lemma_goes_windows(t, w, ids.drop_last(), c);
        lemma_goes_window(t, w, ids.last(), done);
        lemma_goes_join(t, w, c, done, run_windows(ids, c, t).unwrap());
    }
}

/// Whether window `w` has its handle dropped or is gone already.
pub open spec fn dropped_or_gone(s: StateView, w: WindowId) -> bool {
    dropped(s, w) || s.is_retired(w)
}

/// No operation of an iteration brings back a window that is gone or picks
/// up a handle that was dropped.
proof fn lemma_dropped_or_gone_kept(w: WindowId)
    ensures
        kept(|s: StateView| dropped_or_gone(s, w)),
{
    let q = |s: StateView| dropped_or_gone(s, w);
    assert forall|s: StateView, step: Step| s.wf() && q(s) && walk_step(step) implies #[trigger] q(
        s.apply(step),
    ) by {
        s.law_step(step);
        if dropped(s, w) && s.apply(step).is_live(w) {
            lemma_dropped_kept(s, step, w);
        }
    }
}

/// The redraw pass destroys a window whose handle was dropped: if `w` is
/// among the windows of the pass and has its handle dropped or is gone when
/// the pass begins, it is gone when the pass is over.
proof fn lemma_pass_retires(t: Seq<Delivery>, w: WindowId, ids: Seq<WindowId>, c: Cursor)
    requires
        c.state.wf(),
        dropped_or_gone(c.state, w),
        ids.contains(w),
        run_windows(ids, c, t) is Some,
    ensures
        run_windows(ids, c, t).unwrap().state.is_retired(w),
    decreases ids.len(),
{
    let q = |s: StateView| dropped_or_gone(s, w);
    let gone = |s: StateView| s.is_retired(w);
    lemma_dropped_or_gone_kept(w);
    assert(kept(gone)) by {
        assert forall|s: StateView, step: Step|
            s.wf() && gone(s) && walk_step(step) implies #[trigger] gone(s.apply(step)) by {
            s.law_step(step);
        }
    }
    let done = run_windows(ids.drop_last(), c, t).unwrap();
    lemma_walk_windows(q, ids.drop_last(), c, t);
    assert(q(done.state));
    let id = ids.last();
    let end = run_window(id, done, t).unwrap();
    lemma_walk_window(gone, id, done, t);
    if id == w {
        if dropped(done.state, w) {
            done.state.lemma_entry_at(done.state.index_of(w));
            law_redraw_pass(done.state, w);
            let processed = done.state.process_window(w);
            assert(processed.is_retired(w));
            match done.state.window_delivery(w) {
                Some(event) => {
                    lemma_requests_keep(gone, processed, t[done.at].requests);
                },
                None => {},
            }
        }
    } else {
        let k = choose|k: int| 0 <= k < ids.len() && ids[k] == w;
        assert(ids.drop_last()[k] == w);
        lemma_pass_retires(t, w, ids.drop_last(), c);
    }
}

/// A window whose handle is dropped is destroyed in the iteration.  If a
/// window is live with its handle dropped when an iteration starts, the
/// iteration tells it `Destroyed`, and the window is gone when the redraw
/// pass is over.  With `law_destroyed_once` it is told so exactly once.
pub proof fn law_dropped_is_destroyed(
    first: bool,
    cause: StartCause,
    start: StateView,
    t: Seq<Delivery>,
    w: WindowId,
)
    requires
        start.wf(),
        dropped(start, w),
        run_iteration(first, cause, start, t) is Some,
    ensures
        destroyed_in(t, w, 0, run_iteration(first, cause, start, t).unwrap().end.at),
        run_iteration(first, cause, start, t).unwrap().end.state.is_retired(w),
{
    let q = |s: StateView| dropped_or_gone(s, w);
    let gone = |s: StateView| s.is_retired(w);
    lemma_dropped_or_gone_kept(w);
    assert(kept(gone)) by {
        assert forall|s: StateView, step: Step|
            s.wf() && gone(s) && walk_step(step) implies #[trigger] gone(s.apply(step)) by {
            s.law_step(step);
        }
    }
    let c = Cursor { at: 0, state: start };
    // Until the redraw pass the window stays live, with its handle dropped.
    lemma_walk_opening(q, first, cause, c, t);
    let opened = run_opening(first, cause, c, t).unwrap();
    lemma_walk_pending(q, opened, t);
    let delivered = run_pending(opened, t).unwrap();
    lemma_goes_opening(t, w, first, cause, c);
    lemma_goes_pending(t, w, opened);
    lemma_goes_join(t, w, c, opened, delivered);
    // The pass goes over every window that is live when it begins.
    let windows = delivered.state.window_ids();
    lemma_goes_windows(t, w, windows, delivered);
    let redrawn = run_windows(windows, delivered, t).unwrap();
    lemma_goes_join(t, w, c, delivered, redrawn);
    if delivered.state.is_live(w) {
        let k = delivered.state.index_of(w);
        assert(windows[k] == w);
        lemma_pass_retires(t, w, windows, delivered);
    } else {
        lemma_walk_windows(gone, windows, delivered, t);
        assert(delivered.state.is_retired(w));
    }
    assert(redrawn.state.is_retired(w));
    lemma_walk_expect(
        gone,
        t,
        redrawn,
        Callback::AboutToWait,
        Phase::AboutToWait,
        Some(Step::ClearDispatched),
    );
    let end = run_iteration(first, cause, start, t).unwrap().end;
    assert(destroyed_in(t, w, 0, redrawn.at));
    let j = choose|j: int|
        0 <= j < redrawn.at && (#[trigger] t[j]).callback == (Callback::WindowEvent {
            window_id: w,
            event: WindowEvent::Destroyed,
        });
    assert(0 <= j < end.at);
}

proof fn lemma_goes_opening(t: Seq<Delivery>, w: WindowId, first: bool, cause: StartCause, c: Cursor)
    requires
        c.state.wf(),
        run_opening(first, cause, c, t) is Some,
    ensures
        stays_or_goes(t, w, c, run_opening(first, cause, c, t).unwrap()),
{
    lemma_goes_expect(t, w, c, Callback::NewEvents(cause), Phase::NewEvents, None);
    let announced = expect(t, c, Callback::NewEvents(cause), Phase::NewEvents, c.state).unwrap();
    let offered = if first {
        lemma_goes_expect(
            t,
            w,
            announced,
            Callback::CanCreateSurfaces,
            Phase::CanCreateSurfaces,
            None,
        );
        expect(
            t,
            announced,
            Callback::CanCreateSurfaces,
            Phase::CanCreateSurfaces,
            announced.state,
        ).unwrap()
    } else {
        lemma_goes_still(t, w, announced, None);
        announced
    };
    lemma_goes_join(t, w, c, announced, offered);
    if offered.state.proxy_wake_up {
        lemma_goes_expect(
            t,
            w,
            offered,
            Callback::ProxyWakeUp,
            Phase::ProxyWakeUp,
            Some(Step::TakeProxyWakeUp),
        );
    } else {
        lemma_goes_still(t, w, offered, None);
    }
    lemma_goes_join(t, w, c, offered, run_opening(first, cause, c, t).unwrap());
}

proof fn lemma_goes_pending(t: Seq<Delivery>, w: WindowId, c: Cursor)
    requires
        c.state.wf(),
        run_pending(c, t) is Some,
    ensures
        stays_or_goes(t, w, c, run_pending(c, t).unwrap()),
{
    let c0 = Cursor { at: c.at, state: c.state.take_compositor_updates() };
    lemma_goes_still(t, w, c, Some(Step::TakeCompositorUpdates));
    lemma_goes_updates(t, w, c.state.compositor_updates, c0);
    let updated = run_updates(c.state.compositor_updates, c0, t).unwrap();
    lemma_goes_join(t, w, c, c0, updated);
    let c1 = Cursor { at: updated.at, state: updated.state.take_window_events() };
    lemma_goes_still(t, w, updated, Some(Step::TakeWindowEvents));
    lemma_goes_join(t, w, c, updated, c1);
    lemma_goes_events(t, w, updated.state.window_events, Phase::WindowEvents, c1);
    let raised = run_events(updated.state.window_events, Phase::WindowEvents, c1, t).unwrap();
    lemma_goes_join(t, w, c, c1, raised);
    let c2 = Cursor { at: raised.at, state: raised.state.take_events() };
    lemma_goes_still(t, w, raised, Some(Step::TakeEvents));
    lemma_goes_join(t, w, c, raised, c2);
    lemma_goes_events(t, w, raised.state.events, Phase::Events, c2);
    lemma_goes_join(t, w, c, c2, run_pending(c, t).unwrap());
}


/// Carrying out requests leaves a dropped handle dropped.
pub proof fn lemma_requests_keep_dropped(s: StateView, requests: Seq<WindowRequest>, w: WindowId)
    requires
        s.wf(),
        dropped(s, w),
    ensures
        dropped(request_all(s, requests), w),
    decreases requests.len(),
{
    if requests.len() > 0 {
        let mid = request_all(s, requests.drop_last());
        lemma_requests_keep_dropped(s, requests.drop_last(), w);
        law_requests(s, requests.drop_last());
        law_request(mid, requests.last());
        lemma_dropped_kept(mid, requests.last().step(), w);
    }
}


/// Every delivery of the buffered events is made in their phase.
proof fn lemma_phase_events(events: Seq<Event>, phase: Phase, c: Cursor, t: Seq<Delivery>)
    requires
        run_events(events, phase, c, t) is Some,
    ensures
        c.at <= run_events(events, phase, c, t).unwrap().at,
        forall|j: int|
            c.at <= j < run_events(events, phase, c, t).unwrap().at ==> (#[trigger] t[j]).phase
                == phase,
    decreases events.len(),
{
    if events.len() > 0 {
        lemma_phase_events(events.drop_last(), phase, c, t);
    }
}

/// Every delivery of the redraw pass is made in its phase.
proof fn lemma_phase_windows(ids: Seq<WindowId>, c: Cursor, t: Seq<Delivery>)
    requires
        run_windows(ids, c, t) is Some,
    ensures
        c.at <= run_windows(ids, c, t).unwrap().at,
        forall|j: int|
            c.at <= j < run_windows(ids, c, t).unwrap().at ==> (#[trigger] t[j]).phase
                == Phase::Redraw,
    decreases ids.len(),
{
    if ids.len() > 0 {
        lemma_phase_windows(ids.drop_last(), c, t);
    }
}

/// Two notifications merged into one update are announced once.  If the
/// one update pending when an iteration starts notes a scale change for a
/// live window, the iteration delivers the scale change and, right behind
/// it, the resize, as the first window events of the iteration; and no
/// other delivery of the iteration is a scale change or a resize.
pub proof fn law_scale_then_resize(
    first: bool,
    cause: StartCause,
    start: StateView,
    t: Seq<Delivery>,
    update: WindowCompositorUpdate,
)
    requires
        start.wf(),
        start.compositor_updates == seq![update],
        update.scale_changed,
        start.is_live(update.window_id),
        iteration_trace(first, cause, t),
        run_iteration(first, cause, start, t) is Some,
        run_iteration(first, cause, start, t).unwrap().end.at == t.len(),
    ensures
        ({
            let k = run_opening(first, cause, Cursor { at: 0, state: start }, t).unwrap().at;
            &&& k + 1 < t.len()
            &&& names_window(t[k], update.window_id) && update_rank(t[k].callback) == 0
            &&& names_window(t[k + 1], update.window_id) && update_rank(t[k + 1].callback) == 1
            &&& forall|j: int|
                0 <= j < t.len() && j != k && j != k + 1 ==> update_rank(
                    (#[trigger] t[j]).callback,
                ) >= 2
        }),
{
    let w = update.window_id;
    let c = Cursor { at: 0, state: start };
    // The opening leaves the pending updates and the window as they are.
    let announced = expect(t, c, Callback::NewEvents(cause), Phase::NewEvents, start).unwrap();
    law_requests(start, t[0].requests);
    let offered = if first {
        law_requests(announced.state, t[1].requests);
        expect(
            t,
            announced,
            Callback::CanCreateSurfaces,
            Phase::CanCreateSurfaces,
            announced.state,
        ).unwrap()
    } else {
        announced
    };
    let opened = run_opening(first, cause, c, t).unwrap();
    if offered.state.proxy_wake_up {
        offered.state.law_step(Step::TakeProxyWakeUp);
        law_requests(offered.state.take_proxy_wake_up(), t[offered.at].requests);
    }
    let k = opened.at;
    assert(opened.state.wf());
    assert(opened.state.compositor_updates == seq![update]);
    assert(opened.state.is_live(w));
    // The one update is turned into its events.
    let c0 = Cursor { at: k, state: opened.state.take_compositor_updates() };
    opened.state.law_step(Step::TakeCompositorUpdates);
    assert(c0.state.is_live(w)) by {
        opened.state.lemma_same_windows(c0.state);
    }
    assert(seq![update].drop_last() =~= Seq::<WindowCompositorUpdate>::empty());
    assert(run_updates(seq![update].drop_last(), c0, t) == Some(c0));
    assert(run_updates(seq![update], c0, t) == run_update(update, c0, t));
    let updated = run_update(update, c0, t).unwrap();
    law_update_deliveries(update, c0, t);
    // What follows is delivered in later phases.
    let kept_wf = |s: StateView| true;
    assert(kept(kept_wf));
    lemma_walk_update(kept_wf, update, c0, t);
    let c1 = Cursor { at: updated.at, state: updated.state.take_window_events() };
    updated.state.law_step(Step::TakeWindowEvents);
    lemma_phase_events(updated.state.window_events, Phase::WindowEvents, c1, t);
    lemma_walk_events(kept_wf, updated.state.window_events, Phase::WindowEvents, c1, t);
    let raised = run_events(updated.state.window_events, Phase::WindowEvents, c1, t).unwrap();
    let c2 = Cursor { at: raised.at, state: raised.state.take_events() };
    lemma_phase_events(raised.state.events, Phase::Events, c2, t);
    let delivered = run_events(raised.state.events, Phase::Events, c2, t).unwrap();
    let windows = delivered.state.window_ids();
    lemma_phase_windows(windows, delivered, t);
    let redrawn = run_windows(windows, delivered, t).unwrap();
    assert(redrawn.at + 1 == t.len());
    assert forall|j: int| 0 <= j < t.len() && j != k && j != k + 1 implies update_rank(
        (#[trigger] t[j]).callback,
    ) >= 2 by {
        assert(delivery_ok(t[j]));
        if j < k {
        } else if j < updated.at {
            assert(update_rank(t[k + 1].callback) < update_rank(t[j].callback));
        } else if j < raised.at {
            assert(t[j].phase == Phase::WindowEvents);
        } else if j < delivered.at {
            assert(t[j].phase == Phase::Events);
        } else if j < redrawn.at {
            assert(t[j].phase == Phase::Redraw);
        } else {
            assert(t[j].callback == Callback::AboutToWait);
        }
    }
}

} // verus!

//! An iteration as a program: which callbacks the loop makes, in which order
//! and in which states, given what the application leaves behind each time
//! it returns.
//!
//! The program is written as a walk along the record of deliveries.  A
//! cursor holds the position in the record and the loop's state; each step
//! of the program either leaves the cursor where it is, changes the state by
//! one of the loop's operations, or expects the next delivery of the record
//! to be a given callback and goes on from the state in which the
//! application's requests are carried out.

use crate::control::StartCause;
use crate::event::Event;
use crate::event::PhysicalSize;
use crate::event::SurfaceSizeWriter;
use crate::event::WindowEvent;
use crate::event::WindowId;
use crate::model::StateView;
use crate::trace::Callback;
use crate::trace::Delivery;
use crate::trace::Phase;
use crate::window::WindowCompositorUpdate;
use crate::request::law_requests;
use crate::laws::Step;
use vstd::prelude::*;

verus! {

/// A place in the record of deliveries, with the loop's state there.
pub struct Cursor {
    /// How many deliveries came before.
    pub at: int,
    /// The state of the loop.
    pub state: StateView,
}

/// Whether the record `u` begins with the record `t`.
pub open spec fn extends(t: Seq<Delivery>, u: Seq<Delivery>) -> bool {
    &&& t.len() <= u.len()
    &&& forall|i: int| 0 <= i < t.len() ==> #[trigger] u[i] == t[i]
}

/// The loop, in the state of the cursor, performs an operation that leads to
/// `state` and calls `callback` there, in `phase`.  The walk goes on behind
/// that delivery, from the state the application left.  If the record has
/// another delivery or none at the cursor, the walk fails.
pub open spec fn expect(
    t: Seq<Delivery>,
    c: Cursor,
    callback: Callback,
    phase: Phase,
    state: StateView,
) -> Option<Cursor> {
    if 0 <= c.at < t.len() && t[c.at].callback == callback && t[c.at].phase == phase
        && t[c.at].prior == c.state && t[c.at].state == state {
        Some(Cursor { at: c.at + 1, state: t[c.at].left() })
    } else {
        None
    }
}

/// The surface size that the application asks for in reply to a scale
/// change: the one it wrote into the event, or the implied one if it put
/// another event in its place.
pub open spec fn reply_size(reply: Option<WindowEvent>, implied: PhysicalSize) -> PhysicalSize {
    match reply {
        Some(WindowEvent::ScaleFactorChanged { surface_size_writer, .. }) => {
            surface_size_writer.new_surface_size
        },
        _ => implied,
    }
}

/// The scale change of an update.  A live window whose scale changed is told
/// its scale and the size that pure scaling implies.  If the application
/// answers with another size, the window takes that size, and the update is
/// to announce a resize: the second component says so.
pub open spec fn run_scale_change(
    update: WindowCompositorUpdate,
    c: Cursor,
    t: Seq<Delivery>,
) -> Option<(Cursor, bool)> {
    let id = update.window_id;
    if update.scale_changed && c.state.is_live(id) {
        let window = c.state.entry(id).window;
        let size = window.spec_physical_size();
        let event = WindowEvent::ScaleFactorChanged {
            scale_factor: window.scale_factor,
            surface_size_writer: SurfaceSizeWriter { new_surface_size: size },
        };
        match expect(
            t,
            c,
            Callback::WindowEvent { window_id: id, event },
            Phase::CompositorUpdates,
            c.state,
        ) {
            Some(next) => {
                let new_size = reply_size(t[c.at].reply, size);
                if new_size != size {
                    Some(
                        (
                            Cursor {
                                at: next.at,
                                state: next.state.override_surface_size(id, new_size),
                            },
                            true,
                        ),
                    )
                } else {
                    Some((next, false))
                }
            },
            None => None,
        }
    } else {
        Some((c, false))
    }
}

/// The resize of an update.  Where the update notes a resize or a scale
/// change, or the application forced a resize, a live window is marked for a
/// redraw and told its physical size.
pub open spec fn run_resize(
    update: WindowCompositorUpdate,
    forced: bool,
    c: Cursor,
    t: Seq<Delivery>,
) -> Option<Cursor> {
    let id = update.window_id;
    if (update.resized || forced || update.scale_changed) && c.state.is_live(id) {
        expect(
            t,
            c,
            Callback::WindowEvent {
                window_id: id,
                event: WindowEvent::SurfaceResized(c.state.entry(id).window.spec_physical_size()),
            },
            Phase::CompositorUpdates,
            c.state.surface_resized(id),
        )
    } else {
        Some(c)
    }
}

/// The close request of an update: a live window that the compositor asked
/// to close is told so.
pub open spec fn run_close(update: WindowCompositorUpdate, c: Cursor, t: Seq<Delivery>) -> Option<
    Cursor,
> {
    let id = update.window_id;
    if update.close_window && c.state.is_live(id) {
        expect(
            t,
            c,
            Callback::WindowEvent { window_id: id, event: WindowEvent::CloseRequested },
            Phase::CompositorUpdates,
            c.state,
        )
    } else {
        Some(c)
    }
}

/// One compositor update: the scale change, then the resize, then the close
/// request.
pub open spec fn run_update(update: WindowCompositorUpdate, c: Cursor, t: Seq<Delivery>) -> Option<
    Cursor,
> {
    match run_scale_change(update, c, t) {
        Some((scaled, forced)) => match run_resize(update, forced, scaled, t) {
            Some(resized) => run_close(update, resized, t),
            None => None,
        },
        None => None,
    }
}

/// The compositor updates, in their order.
pub open spec fn run_updates(updates: Seq<WindowCompositorUpdate>, c: Cursor, t: Seq<Delivery>) -> Option<
    Cursor,
>
    decreases updates.len(),
{
    if updates.len() == 0 {
        Some(c)
    } else {
        match run_updates(updates.drop_last(), c, t) {
            Some(done) => run_update(updates.last(), done, t),
            None => None,
        }
    }
}

/// One buffered event: a device event is delivered; a window event is
/// delivered if its window is still live, and dropped if not.
pub open spec fn run_event(event: Event, phase: Phase, c: Cursor, t: Seq<Delivery>) -> Option<
    Cursor,
> {
    match event {
        Event::WindowEvent { window_id, event } => if c.state.is_live(window_id) {
            expect(t, c, Callback::WindowEvent { window_id, event }, phase, c.state)
        } else {
            Some(c)
        },
        Event::DeviceEvent { event } => expect(
            t,
            c,
            Callback::DeviceEvent { device_id: None, event },
            phase,
            c.state,
        ),
    }
}

/// The buffered events, in arrival order.
pub open spec fn run_events(events: Seq<Event>, phase: Phase, c: Cursor, t: Seq<Delivery>) -> Option<
    Cursor,
>
    decreases events.len(),
{
    if events.len() == 0 {
        Some(c)
    } else {
        match run_events(events.drop_last(), phase, c, t) {
            Some(done) => run_event(events.last(), phase, done, t),
            None => None,
        }
    }
}

/// One window in the redraw pass: the pass handles the window, and what it
/// found to deliver for it is delivered in the state the pass left.
pub open spec fn run_window(id: WindowId, c: Cursor, t: Seq<Delivery>) -> Option<Cursor> {
    match c.state.window_delivery(id) {
        Some(event) => expect(
            t,
            c,
            Callback::WindowEvent { window_id: id, event },
            Phase::Redraw,
            c.state.process_window(id),
        ),
        None => Some(Cursor { at: c.at, state: c.state.process_window(id) }),
    }
}

/// The redraw pass over the windows `ids`, in their order.
pub open spec fn run_windows(ids: Seq<WindowId>, c: Cursor, t: Seq<Delivery>) -> Option<Cursor>
    decreases ids.len(),
{
    if ids.len() == 0 {
        Some(c)
    } else {
        match run_windows(ids.drop_last(), c, t) {
            Some(done) => run_window(ids.last(), done, t),
            None => None,
        }
    }
}

/// The opening of an iteration: the announcement; in the first iteration
/// that the loop ever runs, the offer of surfaces; and, if a proxy asked for
/// a wake-up, its passing on, with the flag taken.
pub open spec fn run_opening(first: bool, cause: StartCause, c: Cursor, t: Seq<Delivery>) -> Option<
    Cursor,
> {
    match expect(t, c, Callback::NewEvents(cause), Phase::NewEvents, c.state) {
        Some(announced) => {
            let offered = if first {
                expect(
                    t,
                    announced,
                    Callback::CanCreateSurfaces,
                    Phase::CanCreateSurfaces,
                    announced.state,
                )
            } else {
                Some(announced)
            };
            match offered {
                Some(offered) => if offered.state.proxy_wake_up {
                    expect(
                        t,
                        offered,
                        Callback::ProxyWakeUp,
                        Phase::ProxyWakeUp,
                        offered.state.take_proxy_wake_up(),
                    )
                } else {
                    Some(offered)
                },
                None => None,
            }
        },
        None => None,
    }
}

/// What an iteration came to: where the walk ended, and the windows it went
/// over in the redraw pass.
pub struct Iteration {
    /// The end of the walk: behind the announcement of the wait, in the
    /// state the application left there.
    pub end: Cursor,
    /// The windows that were live when the redraw pass began.
    pub windows: Seq<WindowId>,
}

/// The phases that deliver what is pending: the compositor updates, taken
/// when the phase begins; the events raised through window handles; the
/// events decoded from native notifications.
pub open spec fn run_pending(c: Cursor, t: Seq<Delivery>) -> Option<Cursor> {
    match run_updates(
        c.state.compositor_updates,
        Cursor { at: c.at, state: c.state.take_compositor_updates() },
        t,
    ) {
        Some(updated) => match run_events(
            updated.state.window_events,
            Phase::WindowEvents,
            Cursor { at: updated.at, state: updated.state.take_window_events() },
            t,
        ) {
            Some(raised) => run_events(
                raised.state.events,
                Phase::Events,
                Cursor { at: raised.at, state: raised.state.take_events() },
                t,
            ),
            None => None,
        },
        None => None,
    }
}

/// A whole iteration for `cause` from the state `start`, the loop's first
/// if `first` says so: the opening, what is pending, the redraw pass over
/// the windows live at that moment, the reset of the dispatched-events flag,
/// and the announcement of the wait.
pub open spec fn run_iteration(
    first: bool,
    cause: StartCause,
    start: StateView,
    t: Seq<Delivery>,
) -> Option<Iteration> {
    match run_opening(first, cause, Cursor { at: 0, state: start }, t) {
        Some(opened) => match run_pending(opened, t) {
            Some(delivered) => {
                let windows = delivered.state.window_ids();
                match run_windows(windows, delivered, t) {
                    Some(redrawn) => match expect(
                        t,
                        redrawn,
                        Callback::AboutToWait,
                        Phase::AboutToWait,
                        redrawn.state.clear_dispatched(),
                    ) {
                        Some(end) => Some(Iteration { end, windows }),
                        None => None,
                    },
                    None => None,
                }
            },
            None => None,
        },
        None => None,
    }
}

/// The state after the closing pass refreshed the frames of the windows
/// `ids`, in order.
pub open spec fn refresh_all(state: StateView, ids: Seq<WindowId>) -> StateView
    decreases ids.len(),
{
    if ids.len() == 0 {
        state
    } else {
        refresh_all(state, ids.drop_last()).refresh_window(ids.last())
    }
}

/// Whether the closing pass over the windows `ids` finds a redraw owed for
/// the frame of any of them.
pub open spec fn any_refresh_due(state: StateView, ids: Seq<WindowId>) -> bool
    decreases ids.len(),
{
    if ids.len() == 0 {
        false
    } else {
        any_refresh_due(state, ids.drop_last()) || refresh_all(
            state,
            ids.drop_last(),
        ).frame_refresh_due(ids.last())
    }
}

/// A walk that succeeded on a record succeeds the same on any record that
/// begins with it, and never goes beyond the record.  Here for one
/// compositor update.
pub proof fn lemma_run_update(
    t: Seq<Delivery>,
    u: Seq<Delivery>,
    update: WindowCompositorUpdate,
    c: Cursor,
)
    requires
        extends(t, u),
        run_update(update, c, t) is Some,
    ensures
        run_update(update, c, u) == run_update(update, c, t),
        run_update(update, c, t).unwrap().at <= t.len() || run_update(update, c, t).unwrap().at
            == c.at,
        c.at <= run_update(update, c, t).unwrap().at,
{
    let id = update.window_id;
    let (scaled, forced) = run_scale_change(update, c, t).unwrap();
    if update.scale_changed && c.state.is_live(id) {
        assert(u[c.at] == t[c.at]);
    }
    assert(run_scale_change(update, c, u) == run_scale_change(update, c, t));
    let resized = run_resize(update, forced, scaled, t).unwrap();
    if (update.resized || forced || update.scale_changed) && scaled.state.is_live(id) {
        assert(u[scaled.at] == t[scaled.at]);
    }
    assert(run_resize(update, forced, scaled, u) == run_resize(update, forced, scaled, t));
    if update.close_window && resized.state.is_live(id) {
        assert(u[resized.at] == t[resized.at]);
    }
}

/// As `lemma_run_update`, for the compositor updates.
pub proof fn lemma_run_updates(
    t: Seq<Delivery>,
    u: Seq<Delivery>,
    updates: Seq<WindowCompositorUpdate>,
    c: Cursor,
)
    requires
        extends(t, u),
        run_updates(updates, c, t) is Some,
    ensures
        run_updates(updates, c, u) == run_updates(updates, c, t),
        run_updates(updates, c, t).unwrap().at <= t.len() || run_updates(updates, c, t).unwrap().at
            == c.at,
        c.at <= run_updates(updates, c, t).unwrap().at,
    decreases updates.len(),
{
    if updates.len() > 0 {
        lemma_run_updates(t, u, updates.drop_last(), c);
        lemma_run_update(t, u, updates.last(), run_updates(updates.drop_last(), c, t).unwrap());
    }
}

/// As `lemma_run_update`, for one buffered event.
pub proof fn lemma_run_event(t: Seq<Delivery>, u: Seq<Delivery>, event: Event, phase: Phase, c: Cursor)
    requires
        extends(t, u),
        run_event(event, phase, c, t) is Some,
    ensures
        run_event(event, phase, c, u) == run_event(event, phase, c, t),
        run_event(event, phase, c, t).unwrap().at <= t.len() || run_event(
            event,
            phase,
            c,
            t,
        ).unwrap().at == c.at,
        c.at <= run_event(event, phase, c, t).unwrap().at,
{
    if run_event(event, phase, c, t).unwrap().at != c.at {
        assert(u[c.at] == t[c.at]);
    }
}

/// As `lemma_run_update`, for the buffered events.
pub proof fn lemma_run_events(
    t: Seq<Delivery>,
    u: Seq<Delivery>,
    events: Seq<Event>,
    phase: Phase,
    c: Cursor,
)
    requires
        extends(t, u),
        run_events(events, phase, c, t) is Some,
    ensures
        run_events(events, phase, c, u) == run_events(events, phase, c, t),
        run_events(events, phase, c, t).unwrap().at <= t.len() || run_events(
            events,
            phase,
            c,
            t,
        ).unwrap().at == c.at,
        c.at <= run_events(events, phase, c, t).unwrap().at,
    decreases events.len(),
{
    if events.len() > 0 {
        lemma_run_events(t, u, events.drop_last(), phase, c);
        lemma_run_event(
            t,
            u,
            events.last(),
            phase,
            run_events(events.drop_last(), phase, c, t).unwrap(),
        );
    }
}

/// As `lemma_run_update`, for one window of the redraw pass.
pub proof fn lemma_run_window(t: Seq<Delivery>, u: Seq<Delivery>, id: WindowId, c: Cursor)
    requires
        extends(t, u),
        run_window(id, c, t) is Some,
    ensures
        run_window(id, c, u) == run_window(id, c, t),
        run_window(id, c, t).unwrap().at <= t.len() || run_window(id, c, t).unwrap().at == c.at,
        c.at <= run_window(id, c, t).unwrap().at,
{
    if c.state.window_delivery(id) is Some {
        assert(u[c.at] == t[c.at]);
    }
}

/// As `lemma_run_update`, for the redraw pass.
pub proof fn lemma_run_windows(t: Seq<Delivery>, u: Seq<Delivery>, ids: Seq<WindowId>, c: Cursor)
    requires
        extends(t, u),
        run_windows(ids, c, t) is Some,
    ensures
        run_windows(ids, c, u) == run_windows(ids, c, t),
        run_windows(ids, c, t).unwrap().at <= t.len() || run_windows(ids, c, t).unwrap().at
            == c.at,
        c.at <= run_windows(ids, c, t).unwrap().at,
    decreases ids.len(),
{
    if ids.len() > 0 {
        lemma_run_windows(t, u, ids.drop_last(), c);
        lemma_run_window(t, u, ids.last(), run_windows(ids.drop_last(), c, t).unwrap());
    }
}

/// As `lemma_run_update`, for the opening of an iteration.
pub proof fn lemma_run_opening(
    t: Seq<Delivery>,
    u: Seq<Delivery>,
    first: bool,
    cause: StartCause,
    c: Cursor,
)
    requires
        extends(t, u),
        run_opening(first, cause, c, t) is Some,
    ensures
        run_opening(first, cause, c, u) == run_opening(first, cause, c, t),
        run_opening(first, cause, c, t).unwrap().at <= t.len(),
        c.at < run_opening(first, cause, c, t).unwrap().at,
{
    let announced = expect(t, c, Callback::NewEvents(cause), Phase::NewEvents, c.state).unwrap();
    assert(u[c.at] == t[c.at]);
    if first {
        assert(u[announced.at] == t[announced.at]);
    }
    let offered = if first {
        expect(
            t,
            announced,
            Callback::CanCreateSurfaces,
            Phase::CanCreateSurfaces,
            announced.state,
        ).unwrap()
    } else {
        announced
    };
    if offered.state.proxy_wake_up {
        assert(u[offered.at] == t[offered.at]);
    }
}


/// The place of a compositor-derived event in the order of one update: the
/// scale change, then the resize, then the close request.
pub open spec fn update_rank(callback: Callback) -> int {
    match callback {
        Callback::WindowEvent { event: WindowEvent::ScaleFactorChanged { .. }, .. } => 0,
        Callback::WindowEvent { event: WindowEvent::SurfaceResized(_), .. } => 1,
        Callback::WindowEvent { event: WindowEvent::CloseRequested, .. } => 2,
        _ => 3,
    }
}

/// One compositor update comes to at most three deliveries, all for the
/// window of the update, and in the fixed order scale change, resize, close
/// request: so each comes at most once, and two notifications merged into
/// one update never announce a size twice.  For a live window, an update
/// that notes a scale change delivers the scale change and, right behind
/// it, the resize; one that notes a resize delivers the resize; one that
/// notes a close request delivers the close request last.
pub proof fn law_update_deliveries(update: WindowCompositorUpdate, c: Cursor, t: Seq<Delivery>)
    requires
        c.state.wf(),
        run_update(update, c, t) is Some,
    ensures
        c.at <= run_update(update, c, t).unwrap().at <= c.at + 3,
        forall|i: int|
            c.at <= i < run_update(update, c, t).unwrap().at ==> update_rank(
                (#[trigger] t[i]).callback,
            ) < 3 && t[i].callback->window_id == update.window_id && t[i].phase
                == Phase::CompositorUpdates,
        forall|i: int, j: int|
            c.at <= i < j < run_update(update, c, t).unwrap().at ==> update_rank(
                (#[trigger] t[i]).callback,
            ) < update_rank((#[trigger] t[j]).callback),
        c.state.is_live(update.window_id) ==> run_update(update, c, t).unwrap().at == c.at + (
        if update.scale_changed {
            2int
        } else if update.resized {
            1int
        } else {
            0int
        }) + (if update.close_window {
            1int
        } else {
            0int
        }),
        update.scale_changed && c.state.is_live(update.window_id) ==> update_rank(
            t[c.at].callback,
        ) == 0 && update_rank(t[c.at + 1].callback) == 1,
        !c.state.is_live(update.window_id) ==> run_update(update, c, t).unwrap().at == c.at,
{
    let id = update.window_id;
    let (scaled, forced) = run_scale_change(update, c, t).unwrap();
    let resized = run_resize(update, forced, scaled, t).unwrap();
    let end = run_close(update, resized, t).unwrap();
    if c.state.is_live(id) {
        if update.scale_changed {
            law_requests(c.state, t[c.at].requests);
            let left = t[c.at].left();
            assert(left.is_live(id));
            let new_size = reply_size(t[c.at].reply, c.state.entry(id).window.spec_physical_size());
            left.law_step(Step::OverrideSurfaceSize(id, new_size));
            assert(scaled.state.is_live(id));
            assert(scaled.state.wf());
        }
        assert(scaled.state.is_live(id));
        if update.resized || forced || update.scale_changed {
            scaled.state.law_step(Step::SurfaceResized(id));
            law_requests(scaled.state.surface_resized(id), t[scaled.at].requests);
            assert(resized.state.is_live(id));
        }
        assert(resized.state.is_live(id));
    } else {
        assert(scaled == c);
        assert(resized == c);
    }
    assert(c.at <= scaled.at <= c.at + 1);
    assert(scaled.at <= resized.at <= scaled.at + 1);
    assert(resized.at <= end.at <= resized.at + 1);
    assert forall|i: int| c.at <= i < end.at implies update_rank((#[trigger] t[i]).callback) < 3
        && t[i].callback->window_id == update.window_id && t[i].phase
        == Phase::CompositorUpdates by {
        if i < scaled.at {
            assert(update_rank(t[i].callback) == 0);
        } else if i < resized.at {
            assert(update_rank(t[i].callback) == 1);
        } else {
            assert(update_rank(t[i].callback) == 2);
        }
    }
    assert forall|i: int, j: int| c.at <= i < j < end.at implies update_rank(
        (#[trigger] t[i]).callback,
    ) < update_rank((#[trigger] t[j]).callback) by {
        if i < scaled.at {
            assert(update_rank(t[i].callback) == 0);
        } else if i < resized.at {
            assert(update_rank(t[i].callback) == 1);
        }
        if j < resized.at {
            assert(update_rank(t[j].callback) == 1);
        } else {
            assert(update_rank(t[j].callback) == 2);
        }
    }
}

} // verus!

//! The state shared by the native handlers, the window handles and the loop:
//! the window store, the compositor update aggregator and the event sinks.

use crate::event::Event;
use crate::event::LogicalSize;
use crate::event::PhysicalSize;
use crate::event::WindowEvent;
use crate::event::WindowId;
use crate::model::has_update;
use crate::model::is_raw;
use crate::model::other_event;
use crate::model::other_update;
use crate::model::other_window;
use crate::model::pending_update;
use crate::model::replace_window;
use crate::model::StateView;
use crate::model::without_window;
use crate::request::WindowRequest;
use crate::sink::EventSink;
use crate::window::FrameCallbackState;
use crate::window::WindowCompositorUpdate;
use crate::window::WindowEntry;
use crate::window::WindowRequests;
use crate::window::WindowState;
use vstd::prelude::*;

verus! {

/// Whether `event` is one that a sink may hold.
fn is_raw_event(event: &Event) -> (r: bool)
    ensures
        r == is_raw(*event),
{
    match event {
        Event::DeviceEvent { .. } => true,
        Event::WindowEvent { event, .. } => match event {
            WindowEvent::Input(_) => true,
            _ => false,
        },
    }
}

/// The entries of `src` but the one of window `id`, in order.
fn windows_without(src: &Vec<WindowEntry>, id: WindowId) -> (out: Vec<WindowEntry>)
    ensures
        out@ == src@.filter(other_window(id)),
{
    let mut out: Vec<WindowEntry> = Vec::new();
    let mut i: usize = 0;
    proof {
        reveal(Seq::filter);
        assert(src@.take(0) =~= Seq::<WindowEntry>::empty());
    }
    while i < src.len()
        invariant
            i <= src.len(),
            out@ == src@.take(i as int).filter(other_window(id)),
        decreases src.len() - i,
    {
        proof {
            reveal(Seq::filter);
            assert(src@.take(i + 1).drop_last() =~= src@.take(i as int));
        }
        if src[i].id != id {
            out.push(src[i]);
        }
        i += 1;
    }
    proof {
        assert(src@.take(src.len() as int) =~= src@);
    }
    out
}

/// The updates of `src` but the one about window `id`, in order.
fn updates_without(src: &Vec<WindowCompositorUpdate>, id: WindowId) -> (out: Vec<
    WindowCompositorUpdate,
>)
    ensures
        out@ == src@.filter(other_update(id)),
{
    let mut out: Vec<WindowCompositorUpdate> = Vec::new();
    let mut i: usize = 0;
    proof {
        reveal(Seq::filter);
        assert(src@.take(0) =~= Seq::<WindowCompositorUpdate>::empty());
    }
    while i < src.len()
        invariant
            i <= src.len(),
            out@ == src@.take(i as int).filter(other_update(id)),
        decreases src.len() - i,
    {
        proof {
            reveal(Seq::filter);
            assert(src@.take(i + 1).drop_last() =~= src@.take(i as int));
        }
        if src[i].window_id != id {
            out.push(src[i]);
        }
        i += 1;
    }
    proof {
        assert(src@.take(src.len() as int) =~= src@);
    }
    out
}

/// A sink with the events of `src` but those bound to window `id`, in order.
fn events_without(src: Vec<Event>, id: WindowId) -> (out: EventSink)
    ensures
        out@ == without_window(src@, id),
{
    let mut out = EventSink::new();
    let mut i: usize = 0;
    proof {
        reveal(Seq::filter);
        assert(src@.take(0) =~= Seq::<Event>::empty());
    }
    while i < src.len()
        invariant
            i <= src.len(),
            out@ == src@.take(i as int).filter(other_event(id)),
        decreases src.len() - i,
    {
        proof {
            reveal(Seq::filter);
            assert(src@.take(i + 1).drop_last() =~= src@.take(i as int));
        }
        match src[i] {
            Event::WindowEvent { window_id, event } => {
                if window_id != id {
                    out.push_window_event(event, window_id);
                }
            },
            Event::DeviceEvent { event } => {
                out.push_device_event(event);
            },
        }
        i += 1;
    }
    proof {
        assert(src@.take(src.len() as int) =~= src@);
    }
    out
}

/// The plain data behind a [`WinitState`].
struct StateData {
    windows: Vec<WindowEntry>,
    next_window_id: u64,
    window_compositor_updates: Vec<WindowCompositorUpdate>,
    events_sink: EventSink,
    window_events_sink: EventSink,
    dispatched_events: bool,
    proxy_wake_up: bool,
}

impl View for StateData {
    type V = StateView;

    closed spec fn view(&self) -> StateView {
        StateView {
            windows: self.windows@,
            next_window_id: self.next_window_id,
            compositor_updates: self.window_compositor_updates@,
            events: self.events_sink@,
            window_events: self.window_events_sink@,
            dispatched_events: self.dispatched_events,
            proxy_wake_up: self.proxy_wake_up,
        }
    }
}

impl StateData {
    fn new() -> (r: Self)
        ensures
            r@ == StateView::empty(),
    {
        StateData {
            windows: Vec::new(),
            next_window_id: 0,
            window_compositor_updates: Vec::new(),
            events_sink: EventSink::new(),
            window_events_sink: EventSink::new(),
            dispatched_events: false,
            proxy_wake_up: false,
        }
    }

    /// Puts `entry` in the place of the window at position `i`.
    fn put_window(&mut self, i: usize, entry: WindowEntry)
        requires
            old(self)@.wf(),
            i < old(self)@.windows.len(),
            entry.id == old(self)@.windows[i as int].id,
            entry.window.wf(),
        ensures
            final(self)@ == (StateView {
                windows: replace_window(old(self)@.windows, entry.id, entry),
                ..old(self)@
            }),
            final(self)@.wf(),
            final(self)@.windows.len() == old(self)@.windows.len(),
            final(self)@.is_live(entry.id),
            final(self)@.entry(entry.id) == entry,
            forall|x: WindowId| #[trigger] final(self)@.is_live(x) == old(self)@.is_live(x),
    {
        proof {
            self@.lemma_entry_at(i as int);
            self@.lemma_replace_window(entry.id, entry);
        }
        self.windows.set(i, entry);
    }

    /// The pending update about `id`, or a fresh one.
    fn update_for(&self, id: WindowId) -> (r: WindowCompositorUpdate)
        requires
            self@.wf(),
        ensures
            r == pending_update(self@.compositor_updates, id),
            r.window_id == id,
    {
        match self.find_update(id) {
            Some(j) => {
                proof {
                    let u = self@.compositor_updates;
                    let c = choose|c: int| 0 <= c < u.len() && #[trigger] u[c].window_id == id;
                    if c < j as int {
                        assert(u[c].window_id != u[j as int].window_id);
                    } else if (j as int) < c {
                        assert(u[j as int].window_id != u[c].window_id);
                    }
                }
                self.window_compositor_updates[j]
            },
            None => WindowCompositorUpdate::new(id),
        }
    }

    /// Merges `update` into the pending updates.
    fn merge(&mut self, update: WindowCompositorUpdate)
        requires
            old(self)@.wf(),
            old(self)@.is_live(update.window_id),
        ensures
            final(self)@ == old(self)@.set_update(update),
            final(self)@.wf(),
    {
        proof {
            self@.lemma_set_update(update);
        }
        match self.find_update(update.window_id) {
            Some(j) => {
                self.window_compositor_updates.set(j, update);
            },
            None => {
                self.window_compositor_updates.push(update);
            },
        }
    }

    /// Takes window `id` out of every store.
    fn remove_window(&mut self, id: WindowId)
        requires
            old(self)@.wf(),
        ensures
            final(self)@ == old(self)@.remove_window(id),
            final(self)@.wf(),
    {
        proof {
            self@.lemma_remove_window(id);
        }
        self.windows = windows_without(&self.windows, id);
        self.window_compositor_updates = updates_without(&self.window_compositor_updates, id);
        let events = self.events_sink.drain();
        self.events_sink = events_without(events, id);
        let window_events = self.window_events_sink.drain();
        self.window_events_sink = events_without(window_events, id);
    }

    /// Whether `event` may be buffered.
    fn accepts(&self, event: &Event) -> (r: bool)
        ensures
            r == self@.accepts(*event),
    {
        if !is_raw_event(event) {
            return false;
        }
        match event.window_id() {
            Some(id) => self.find_window(id).is_some(),
            None => true,
        }
    }

    /// The position of the window named `id`, if it is live.
    fn find_window(&self, id: WindowId) -> (r: Option<usize>)
        ensures
            match r {
                Some(i) => i < self@.windows.len() && self@.windows[i as int].id == id,
                None => !self@.is_live(id),
            },
    {
        let mut i: usize = 0;
        while i < self.windows.len()
            invariant
                i <= self.windows.len(),
                forall|j: int| 0 <= j < i ==> self.windows@[j].id != id,
            decreases self.windows.len() - i,
        {
            if self.windows[i].id == id {
                return Some(i);
            }
            i += 1;
        }
        None
    }

    /// The position of the pending update about `id`, if there is one.
    fn find_update(&self, id: WindowId) -> (r: Option<usize>)
        ensures
            match r {
                Some(i) => i < self@.compositor_updates.len()
                    && self@.compositor_updates[i as int].window_id == id,
                None => !has_update(self@.compositor_updates, id),
            },
    {
        let mut i: usize = 0;
        while i < self.window_compositor_updates.len()
            invariant
                i <= self.window_compositor_updates.len(),
                forall|j: int| 0 <= j < i ==> self.window_compositor_updates@[j].window_id != id,
            decreases self.window_compositor_updates.len() - i,
        {
            if self.window_compositor_updates[i].window_id == id {
                return Some(i);
            }
            i += 1;
        }
        None
    }
}

/// The state of the loop between and during iterations.
pub struct WinitState {
    data: StateData,
}

impl View for WinitState {
    type V = StateView;

    closed spec fn view(&self) -> StateView {
        self.data@
    }
}

impl WinitState {
    /// Holds of every state a program can have in hand.
    #[verifier::type_invariant]
    pub open spec fn inv(self) -> bool {
        self@.wf()
    }

    /// A state with no window and nothing pending.
    pub fn new() -> (r: Self)
        ensures
            r@ == StateView::empty(),
    {
        WinitState { data: StateData::new() }
    }

    /// Creates a window of `surface_size` and gives it the next identity.
    /// When the identities are used up no window is created.
    pub fn create_window(&mut self, surface_size: LogicalSize) -> (id: Option<WindowId>)
        ensures
            final(self)@ == old(self)@.create_window(surface_size),
            id == if old(self)@.next_window_id < u64::MAX {
                Some(WindowId(old(self)@.next_window_id))
            } else {
                None
            },
    {
        let mut data = self.take();
        if data.next_window_id == u64::MAX {
            self.put(data);
            return None;
        }
        let id = WindowId(data.next_window_id);
        let entry = WindowEntry {
            id,
            window: WindowState::new(surface_size),
            requests: WindowRequests::new(),
        };
        let ghost before = data@;
        data.windows.push(entry);
        data.next_window_id = data.next_window_id + 1;
        proof {
            let after = data@;
            assert(after == before.create_window(surface_size));
            assert forall|x: WindowId| before.is_live(x) implies after.is_live(x) by {
                let i = before.index_of(x);
                assert(after.windows[i].id == x);
            }
            assert forall|i: int, j: int| 0 <= i < j < after.windows.len() implies #[trigger] after.windows[i].id
                != #[trigger] after.windows[j].id by {
                if j < before.windows.len() {
                    assert(before.windows[i].id != before.windows[j].id);
                } else {
                    assert(before.windows[i].id.0 < before.next_window_id);
                }
            }
            assert forall|i: int| 0 <= i < after.windows.len() implies (#[trigger] after.windows[i]).id.0
                < after.next_window_id && after.windows[i].window.wf() by {
                if i < before.windows.len() {
                    assert(before.windows[i].window.wf());
                }
            }
            assert forall|i: int| 0 <= i < after.compositor_updates.len() implies after.is_live(
                #[trigger] after.compositor_updates[i].window_id,
            ) by {
                assert(before.is_live(before.compositor_updates[i].window_id));
            }
            assert(after.wf());
        }
        self.put(data);
        Some(id)
    }

    /// Whether `id` names a window of the store.
    pub fn contains(&self, id: WindowId) -> (r: bool)
        ensures
            r == self@.is_live(id),
    {
        self.data.find_window(id).is_some()
    }

    /// The entry of window `id`, if it is live.
    pub fn window(&self, id: WindowId) -> (r: Option<WindowEntry>)
        ensures
            r == if self@.is_live(id) {
                Some(self@.entry(id))
            } else {
                None
            },
    {
        proof {
            use_type_invariant(self);
        }
        match self.data.find_window(id) {
            Some(i) => {
                proof {
                    self.data@.lemma_entry_at(i as int);
                }
                Some(self.data.windows[i])
            },
            None => None,
        }
    }

    /// How many windows are live.
    pub fn window_count(&self) -> (r: usize)
        ensures
            r == self@.windows.len(),
    {
        self.data.windows.len()
    }

    /// The compositor announced the scale `scale_factor`, in 120ths, for
    /// window `id`.  Says whether the notification was taken: it is not for
    /// an unknown window or a zero scale.
    pub fn scale_factor_changed(&mut self, id: WindowId, scale_factor: u32) -> (taken: bool)
        ensures
            taken == (old(self)@.is_live(id) && scale_factor > 0),
            final(self)@ == old(self)@.scale_factor_changed(id, scale_factor),
    {
        let mut data = self.take();
        let taken = match data.find_window(id) {
            Some(i) => {
                if scale_factor > 0 {
                    proof {
                        data@.lemma_entry_at(i as int);
                    }
                    let mut update = data.update_for(id);
                    update.scale_changed = true;
                    let mut entry = data.windows[i];
                    entry.window.set_scale_factor(scale_factor);
                    data.put_window(i, entry);
                    data.merge(update);
                    true
                } else {
                    false
                }
            },
            None => false,
        };
        self.put(data);
        taken
    }

    /// The compositor configured window `id` with the logical size
    /// `surface_size`.  Says whether the window is known.
    pub fn configure(&mut self, id: WindowId, surface_size: LogicalSize) -> (taken: bool)
        ensures
            taken == old(self)@.is_live(id),
            final(self)@ == old(self)@.configure(id, surface_size),
    {
        let mut data = self.take();
        let taken = match data.find_window(id) {
            Some(i) => {
                proof {
                    data@.lemma_entry_at(i as int);
                }
                let mut entry = data.windows[i];
                let mut update = data.update_for(id);
                if surface_size != entry.window.surface_size() {
                    update.resized = true;
                }
                entry.window.request_surface_size(surface_size);
                data.put_window(i, entry);
                data.merge(update);
                true
            },
            None => false,
        };
        self.put(data);
        taken
    }

    /// The compositor asked window `id` to close.  Says whether the window is
    /// known.
    pub fn close_requested(&mut self, id: WindowId) -> (taken: bool)
        ensures
            taken == old(self)@.is_live(id),
            final(self)@ == old(self)@.close_requested(id),
    {
        let mut data = self.take();
        let taken = match data.find_window(id) {
            Some(_) => {
                let mut update = data.update_for(id);
                update.close_window = true;
                data.merge(update);
                true
            },
            None => false,
        };
        self.put(data);
        taken
    }

    /// The compositor's frame callback for window `id` arrived.
    pub fn frame_callback_received(&mut self, id: WindowId) -> (taken: bool)
        ensures
            taken == old(self)@.is_live(id),
            final(self)@ == old(self)@.frame_callback_received(id),
    {
        let mut data = self.take();
        let taken = match data.find_window(id) {
            Some(i) => {
                proof {
                    data@.lemma_entry_at(i as int);
                }
                let mut entry = data.windows[i];
                entry.window.frame_callback_received();
                data.put_window(i, entry);
                true
            },
            None => false,
        };
        self.put(data);
        taken
    }

    /// Buffers an event decoded from a native notification.  Only a device
    /// event or an input event of a live window is taken.
    pub fn push_event(&mut self, event: Event) -> (taken: bool)
        ensures
            taken == old(self)@.accepts(event),
            final(self)@ == old(self)@.push_event(event),
    {
        let mut data = self.take();
        let ghost before = data@;
        let taken = data.accepts(&event);
        if taken {
            match event {
                Event::WindowEvent { window_id, event } => {
                    data.events_sink.push_window_event(event, window_id);
                },
                Event::DeviceEvent { event } => {
                    data.events_sink.push_device_event(event);
                },
            }
        }
        proof {
            before.lemma_push_event(event);
        }
        self.put(data);
        taken
    }

    /// Buffers an event raised through a window handle.  Only a device event
    /// or an input event of a live window is taken.
    pub fn push_window_event(&mut self, event: Event) -> (taken: bool)
        ensures
            taken == old(self)@.accepts(event),
            final(self)@ == old(self)@.push_window_event(event),
    {
        let mut data = self.take();
        let ghost before = data@;
        let taken = data.accepts(&event);
        if taken {
            match event {
                Event::WindowEvent { window_id, event } => {
                    data.window_events_sink.push_window_event(event, window_id);
                },
                Event::DeviceEvent { event } => {
                    data.window_events_sink.push_device_event(event);
                },
            }
        }
        proof {
            before.lemma_push_event(event);
        }
        self.put(data);
        taken
    }

    /// Notes the outcome of dispatching the native queue: a successful
    /// dispatch that left an event or an update behind marks the state as
    /// having dispatched events.
    pub fn queue_dispatched(&mut self, ok: bool)
        ensures
            final(self)@ == old(self)@.queue_dispatched(ok),
    {
        let mut data = self.take();
        let ghost before = data@;
        if ok && (!data.events_sink.is_empty() || data.window_compositor_updates.len() > 0) {
            data.dispatched_events = true;
        }
        proof {
            before.lemma_same_store(data@);
        }
        self.put(data);
    }

    /// A proxy's wake-up reached the loop.
    pub fn proxy_woke(&mut self)
        ensures
            final(self)@ == old(self)@.proxy_woke(),
    {
        let mut data = self.take();
        let ghost before = data@;
        data.dispatched_events = true;
        data.proxy_wake_up = true;
        proof {
            before.lemma_same_store(data@);
        }
        self.put(data);
    }

    /// The loop's own wake-up reached the loop.
    pub fn awakener_woke(&mut self)
        ensures
            final(self)@ == old(self)@.awakener_woke(),
    {
        let mut data = self.take();
        let ghost before = data@;
        data.dispatched_events = true;
        proof {
            before.lemma_same_store(data@);
        }
        self.put(data);
    }

    /// Whether anything arrived since the last iteration.
    pub fn dispatched_events(&self) -> (r: bool)
        ensures
            r == self@.dispatched_events,
    {
        self.data.dispatched_events
    }

    /// The handle of window `id` asks for a redraw.
    pub fn request_redraw(&mut self, id: WindowId) -> (taken: bool)
        ensures
            taken == old(self)@.is_live(id),
            final(self)@ == old(self)@.request_redraw(id),
    {
        let mut data = self.take();
        let taken = match data.find_window(id) {
            Some(i) => {
                proof {
                    data@.lemma_entry_at(i as int);
                }
                let mut entry = data.windows[i];
                entry.requests.redraw_requested = true;
                data.put_window(i, entry);
                true
            },
            None => false,
        };
        self.put(data);
        taken
    }

    /// The handle of window `id` was dropped: the window is to be destroyed
    /// in the next redraw pass.
    pub fn close_window(&mut self, id: WindowId) -> (taken: bool)
        ensures
            taken == old(self)@.is_live(id),
            final(self)@ == old(self)@.close_window(id),
    {
        let mut data = self.take();
        let taken = match data.find_window(id) {
            Some(i) => {
                proof {
                    data@.lemma_entry_at(i as int);
                }
                let mut entry = data.windows[i];
                entry.requests.closed = true;
                data.put_window(i, entry);
                true
            },
            None => false,
        };
        self.put(data);
        taken
    }

    /// Window `id` takes the logical size `surface_size`.  Returns the
    /// physical size the window then has, or `None` for an unknown window.
    pub fn request_surface_size(&mut self, id: WindowId, surface_size: LogicalSize) -> (r: Option<
        PhysicalSize,
    >)
        ensures
            final(self)@ == old(self)@.request_surface_size(id, surface_size),
            r == if old(self)@.is_live(id) {
                Some(final(self)@.entry(id).window.spec_physical_size())
            } else {
                None
            },
    {
        let mut data = self.take();
        let r = match data.find_window(id) {
            Some(i) => {
                proof {
                    data@.lemma_entry_at(i as int);
                }
                let mut entry = data.windows[i];
                entry.window.request_surface_size(surface_size);
                data.put_window(i, entry);
                Some(entry.window.physical_size())
            },
            None => None,
        };
        self.put(data);
        r
    }

    /// Window `id` asked the compositor for a frame callback.
    pub fn frame_callback_requested(&mut self, id: WindowId) -> (taken: bool)
        ensures
            taken == old(self)@.is_live(id),
            final(self)@ == old(self)@.frame_callback_requested(id),
    {
        let mut data = self.take();
        let taken = match data.find_window(id) {
            Some(i) => {
                proof {
                    data@.lemma_entry_at(i as int);
                }
                let mut entry = data.windows[i];
                entry.window.frame_callback_requested();
                data.put_window(i, entry);
                true
            },
            None => false,
        };
        self.put(data);
        taken
    }

    /// The frame of window `id` changed and has to be drawn again.
    pub fn mark_frame_dirty(&mut self, id: WindowId) -> (taken: bool)
        ensures
            taken == old(self)@.is_live(id),
            final(self)@ == old(self)@.mark_frame_dirty(id),
    {
        let mut data = self.take();
        let taken = match data.find_window(id) {
            Some(i) => {
                proof {
                    data@.lemma_entry_at(i as int);
                }
                let mut entry = data.windows[i];
                entry.window.mark_frame_dirty();
                data.put_window(i, entry);
                true
            },
            None => false,
        };
        self.put(data);
        taken
    }

    /// Reads and clears the proxy wake-up flag.
    pub fn take_proxy_wake_up(&mut self) -> (r: bool)
        ensures
            r == old(self)@.proxy_wake_up,
            final(self)@ == old(self)@.take_proxy_wake_up(),
    {
        let mut data = self.take();
        let ghost before = data@;
        let r = data.proxy_wake_up;
        data.proxy_wake_up = false;
        proof {
            before.lemma_same_store(data@);
        }
        self.put(data);
        r
    }

    /// Moves the pending compositor updates behind those of `out`.
    pub fn take_compositor_updates(&mut self, out: &mut Vec<WindowCompositorUpdate>)
        ensures
            final(out)@ == old(out)@ + old(self)@.compositor_updates,
            final(self)@ == old(self)@.take_compositor_updates(),
    {
        let mut data = self.take();
        let ghost before = data@;
        out.append(&mut data.window_compositor_updates);
        proof {
            before.lemma_same_store(data@);
        }
        self.put(data);
    }

    /// Moves the events raised through window handles behind those of `out`.
    pub fn take_window_events(&mut self, out: &mut EventSink)
        ensures
            final(out)@ == old(out)@ + old(self)@.window_events,
            final(self)@ == old(self)@.take_window_events(),
    {
        let mut data = self.take();
        let ghost before = data@;
        out.append(&mut data.window_events_sink);
        proof {
            before.lemma_same_store(data@);
        }
        self.put(data);
    }

    /// Moves the events decoded from native notifications behind those of
    /// `out`.
    pub fn take_events(&mut self, out: &mut EventSink)
        ensures
            final(out)@ == old(out)@ + old(self)@.events,
            final(self)@ == old(self)@.take_events(),
    {
        let mut data = self.take();
        let ghost before = data@;
        out.append(&mut data.events_sink);
        proof {
            before.lemma_same_store(data@);
        }
        self.put(data);
    }

    /// The physical size that window `id` has by pure scaling, and its scale
    /// in 120ths.
    pub fn scaled_surface_size(&self, id: WindowId) -> (r: Option<(PhysicalSize, u32)>)
        ensures
            r == if self@.is_live(id) {
                Some(
                    (
                        self@.entry(id).window.spec_physical_size(),
                        self@.entry(id).window.scale_factor,
                    ),
                )
            } else {
                None
            },
    {
        match self.window(id) {
            Some(entry) => Some((entry.window.physical_size(), entry.window.scale_factor())),
            None => None,
        }
    }

    /// The application answered a scale change of window `id` with the
    /// physical size `size`: the window takes the logical size that `size`
    /// has at the window's scale.
    pub fn override_surface_size(&mut self, id: WindowId, size: PhysicalSize) -> (taken: bool)
        ensures
            taken == old(self)@.is_live(id),
            final(self)@ == old(self)@.override_surface_size(id, size),
    {
        let mut data = self.take();
        let taken = match data.find_window(id) {
            Some(i) => {
                proof {
                    data@.lemma_entry_at(i as int);
                }
                let mut entry = data.windows[i];
                let logical = size.to_logical(entry.window.scale_factor());
                entry.window.request_surface_size(logical);
                data.put_window(i, entry);
                true
            },
            None => false,
        };
        self.put(data);
        taken
    }

    /// Prepares the announcement of the size of window `id`: marks the window
    /// for a redraw and returns its physical size.
    pub fn surface_resized(&mut self, id: WindowId) -> (r: Option<PhysicalSize>)
        ensures
            final(self)@ == old(self)@.surface_resized(id),
            r == if old(self)@.is_live(id) {
                Some(old(self)@.entry(id).window.spec_physical_size())
            } else {
                None
            },
    {
        let mut data = self.take();
        let r = match data.find_window(id) {
            Some(i) => {
                proof {
                    data@.lemma_entry_at(i as int);
                }
                let mut entry = data.windows[i];
                entry.requests.redraw_requested = true;
                data.put_window(i, entry);
                Some(entry.window.physical_size())
            },
            None => None,
        };
        self.put(data);
        r
    }

    /// Puts the identities of the live windows, oldest first, behind those
    /// of `out`.
    pub fn window_ids(&self, out: &mut Vec<WindowId>)
        ensures
            final(out)@ == old(out)@ + self@.window_ids(),
    {
        let mut i: usize = 0;
        while i < self.data.windows.len()
            invariant
                i <= self.data.windows.len(),
                self@.windows == self.data.windows@,
                out@ == old(out)@ + self@.window_ids().take(i as int),
            decreases self.data.windows.len() - i,
        {
            out.push(self.data.windows[i].id);
            proof {
                assert(self@.window_ids().take(i + 1) =~= self@.window_ids().take(i as int).push(
                    self@.windows[i as int].id,
                ));
            }
            i += 1;
        }
        proof {
            assert(self@.window_ids().take(i as int) =~= self@.window_ids());
        }
    }

    /// Handles window `id` in the redraw pass and returns what is to be
    /// delivered for it.  A window whose handle was dropped leaves every
    /// store and gets `Destroyed`.  A window with a frame callback
    /// outstanding is left alone.  Any other window has its frame callback
    /// state reset and gets `RedrawRequested` where a redraw was asked for or
    /// its frame was dirty.
    pub fn process_window(&mut self, id: WindowId) -> (r: Option<WindowEvent>)
        ensures
            r == old(self)@.window_delivery(id),
            final(self)@ == old(self)@.process_window(id),
    {
        let mut data = self.take();
        let r = match data.find_window(id) {
            Some(i) => {
                proof {
                    data@.lemma_entry_at(i as int);
                }
                let mut entry = data.windows[i];
                if entry.requests.take_closed() {
                    data.remove_window(id);
                    Some(WindowEvent::Destroyed)
                } else if entry.window.frame_callback_state() == FrameCallbackState::Requested {
                    None
                } else {
                    entry.window.frame_callback_reset();
                    let mut redraw_requested = entry.requests.take_redraw_requested();
                    let refresh = entry.window.refresh_frame();
                    redraw_requested = redraw_requested || refresh;
                    data.put_window(i, entry);
                    if redraw_requested {
                        Some(WindowEvent::RedrawRequested)
                    } else {
                        None
                    }
                }
            },
            None => None,
        };
        self.put(data);
        r
    }

    /// Resets the dispatched-events flag.
    pub fn clear_dispatched(&mut self)
        ensures
            final(self)@ == old(self)@.clear_dispatched(),
    {
        let mut data = self.take();
        let ghost before = data@;
        data.dispatched_events = false;
        proof {
            before.lemma_same_store(data@);
        }
        self.put(data);
    }

    /// Refreshes the frame of window `id` in the closing pass and says
    /// whether a redraw is owed for it; a redraw owed becomes a redraw
    /// request.  A window that is gone owes nothing.
    pub fn refresh_window(&mut self, id: WindowId) -> (refresh: bool)
        ensures
            refresh == old(self)@.frame_refresh_due(id),
            final(self)@ == old(self)@.refresh_window(id),
    {
        let mut data = self.take();
        let refresh = match data.find_window(id) {
            Some(i) => {
                proof {
                    data@.lemma_entry_at(i as int);
                }
                let mut entry = data.windows[i];
                let refresh = entry.window.refresh_frame();
                if refresh {
                    entry.requests.redraw_requested = true;
                    data.put_window(i, entry);
                }
                refresh
            },
            None => false,
        };
        self.put(data);
        refresh
    }

    /// The identity that the next window gets.
    pub fn next_window_id(&self) -> (r: u64)
        ensures
            r == self@.next_window_id,
    {
        self.data.next_window_id
    }

    /// Carries out a request that the application left with the handle.
    pub fn request(&mut self, request: WindowRequest)
        ensures
            final(self)@ == old(self)@.apply(request.step()),
    {
        match request {
            WindowRequest::Create(size) => {
                self.create_window(size);
            },
            WindowRequest::Redraw(id) => {
                self.request_redraw(id);
            },
            WindowRequest::Close(id) => {
                self.close_window(id);
            },
            WindowRequest::SurfaceSize(id, size) => {
                self.request_surface_size(id, size);
            },
            WindowRequest::FrameCallback(id) => {
                self.frame_callback_requested(id);
            },
            WindowRequest::FrameDirty(id) => {
                self.mark_frame_dirty(id);
            },
            WindowRequest::Event(event) => {
                self.push_window_event(event);
            },
        }
    }

    fn take(&mut self) -> (data: StateData)
        ensures
            data@ == old(self)@,
            data@.wf(),
            final(self)@ == StateView::empty(),
    {
        proof {
            use_type_invariant(&*self);
        }
        let mut data = StateData::new();
        std::mem::swap(&mut data, &mut self.data);
        data
    }

    fn put(&mut self, data: StateData)
        requires
            data@.wf(),
        ensures
            final(self)@ == data@,
    {
        self.data = data;
    }
}

} // verus!

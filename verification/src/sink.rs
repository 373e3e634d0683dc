//! The reusable buffer that collects events between iterations.

use crate::event::DeviceEvent;
use crate::event::Event;
use crate::event::WindowEvent;
use crate::event::WindowId;
use vstd::prelude::*;

verus! {

/// An append-only, drainable buffer of events in arrival order.
#[derive(Debug)]
pub struct EventSink {
    window_events: Vec<Event>,
}

impl View for EventSink {
    type V = Seq<Event>;

    /// The buffered events, oldest first.
    closed spec fn view(&self) -> Seq<Event> {
        self.window_events@
    }
}

impl Default for EventSink {
    fn default() -> (r: Self)
        ensures
            r@ == Seq::<Event>::empty(),
    {
        EventSink::new()
    }
}

impl EventSink {
    /// An empty sink.
    pub fn new() -> (r: Self)
        ensures
            r@ == Seq::<Event>::empty(),
    {
        EventSink { window_events: Vec::new() }
    }

    /// Whether nothing is buffered.
    pub fn is_empty(&self) -> (r: bool)
        ensures
            r == (self@.len() == 0),
    {
        self.window_events.len() == 0
    }

    /// How many events are buffered.
    pub fn len(&self) -> (r: usize)
        ensures
            r == self@.len(),
    {
        self.window_events.len()
    }

    /// Appends a device event.
    pub fn push_device_event(&mut self, event: DeviceEvent)
        ensures
            final(self)@ == old(self)@.push(Event::DeviceEvent { event }),
    {
        self.window_events.push(Event::DeviceEvent { event });
    }

    /// Appends an event bound to `window_id`.
    pub fn push_window_event(&mut self, event: WindowEvent, window_id: WindowId)
        ensures
            final(self)@ == old(self)@.push(Event::WindowEvent { window_id, event }),
    {
        self.window_events.push(Event::WindowEvent { window_id, event });
    }

    /// Moves every event of `other` behind the events of `self`.
    pub fn append(&mut self, other: &mut EventSink)
        ensures
            final(self)@ == old(self)@ + old(other)@,
            final(other)@ == Seq::<Event>::empty(),
    {
        self.window_events.append(&mut other.window_events);
    }

    /// Takes every buffered event out, oldest first, leaving the sink empty.
    pub fn drain(&mut self) -> (events: Vec<Event>)
        ensures
            events@ == old(self)@,
            final(self)@ == Seq::<Event>::empty(),
    {
        let mut events: Vec<Event> = Vec::new();
        events.append(&mut self.window_events);
        events
    }
}

} // verus!

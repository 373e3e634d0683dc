//! The wake-up signal of the loop and the proxy that raises it.

use crate::application::ActiveEventLoop;
use crate::application::TargetView;
use vstd::prelude::*;

verus! {

/// A one-shot wake-up signal: a single bit.  Pings before the loop takes the
/// signal coalesce into one wake-up.
#[derive(Clone, Copy, Debug, PartialEq, Eq, Structural)]
pub struct Ping {
    pending: bool,
}

impl View for Ping {
    type V = bool;

    /// Whether a wake-up is pending.
    closed spec fn view(&self) -> bool {
        self.pending
    }
}

impl Ping {
    /// A signal with no wake-up pending.
    pub fn new() -> (r: Self)
        ensures
            !r@,
    {
        Ping { pending: false }
    }

    /// Raises the signal.
    pub fn ping(&mut self)
        ensures
            final(self)@,
    {
        self.pending = true;
    }

    /// Whether a wake-up is pending.
    pub fn is_pending(&self) -> (r: bool)
        ensures
            r == self@,
    {
        self.pending
    }

    /// Takes the pending wake-up, if any: says whether there was one and
    /// leaves none pending.
    pub fn take(&mut self) -> (r: bool)
        ensures
            r == old(self)@,
            !final(self)@,
    {
        let r = self.pending;
        self.pending = false;
        r
    }
}

/// The handle through which the application asks the loop to wake up.  It
/// holds no signal of its own: it raises the signal of the loop's handle.
#[derive(Clone, Copy, Debug, PartialEq, Eq, Structural)]
pub struct EventLoopProxy {}

impl EventLoopProxy {
    /// A proxy.
    pub fn new() -> (r: Self)
        ensures
            r == (EventLoopProxy {  }),
    {
        EventLoopProxy {  }
    }

    /// Asks the loop of `event_loop` to wake up.  Never blocks; asking again
    /// before the loop woke up changes nothing.
    pub fn wake(&self, event_loop: &mut ActiveEventLoop)
        ensures
            final(event_loop)@ == (TargetView { wake: true, ..old(event_loop)@ }),
    {
        event_loop.wake_up();
    }
}

} // verus!

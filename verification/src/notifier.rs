//! The handshake between the loop and the helper thread that watches the
//! connection while the application is outside the loop.
//!
//! The thread itself, its lock and its pipe live with the caller; this module
//! holds every decision either side takes.

use vstd::prelude::*;

verus! {

/// What the loop asks of the helper thread.
#[derive(Clone, Copy, Debug, PartialEq, Eq, Structural)]
pub enum PumpEventNotifierAction {
    /// Monitor the connection.
    Monitor,
    /// Pause monitoring.
    Pause,
    /// Shut the thread down.
    Shutdown,
}

/// What the helper thread does after it looked at the action under the lock.
#[derive(Clone, Copy, Debug, PartialEq, Eq, Structural)]
pub enum WorkerStep {
    /// Block on the condition variable until notified.
    Sleep,
    /// Release the lock and monitor the connection.
    Monitor,
    /// Leave the thread's loop.
    Exit,
}

/// What the helper thread does in one round of monitoring.
#[derive(Clone, Copy, Debug, PartialEq, Eq, Structural)]
pub enum MonitorStep {
    /// Wait for the connection or the wake pipe to become readable, read the
    /// connection without dispatching, and start another round.
    PollAndRead,
    /// Ping the loop and go back to the lock.
    Ping,
    /// Leave the thread's loop.
    Exit,
}

/// The action that the helper thread leaves behind for a given action: a
/// request to monitor is consumed, anything else stays.
pub open spec fn spec_worker_action(action: PumpEventNotifierAction) -> PumpEventNotifierAction {
    match action {
        PumpEventNotifierAction::Monitor => PumpEventNotifierAction::Pause,
        PumpEventNotifierAction::Pause => PumpEventNotifierAction::Pause,
        PumpEventNotifierAction::Shutdown => PumpEventNotifierAction::Shutdown,
    }
}

/// The step that the helper thread takes for a given action.
pub open spec fn spec_worker_step(action: PumpEventNotifierAction) -> WorkerStep {
    match action {
        PumpEventNotifierAction::Monitor => WorkerStep::Monitor,
        PumpEventNotifierAction::Pause => WorkerStep::Sleep,
        PumpEventNotifierAction::Shutdown => WorkerStep::Exit,
    }
}

/// The step of one round of monitoring.  Without a read prepared on the
/// connection there is nothing to wait for: the loop is pinged.  One byte
/// read from the wake pipe is the owner's request to leave.  Else the thread
/// waits and reads.
pub open spec fn spec_monitor_step(read_prepared: bool, waker_bytes: Option<usize>) -> MonitorStep {
    if !read_prepared {
        MonitorStep::Ping
    } else if waker_bytes == Some(1usize) {
        MonitorStep::Exit
    } else {
        MonitorStep::PollAndRead
    }
}

impl PumpEventNotifierAction {
    /// The helper thread looked at the action under the lock: returns what
    /// it does next and leaves the action that then stands.
    pub fn worker_step(&mut self) -> (step: WorkerStep)
        ensures
            step == spec_worker_step(*old(self)),
            *final(self) == spec_worker_action(*old(self)),
    {
        match *self {
            PumpEventNotifierAction::Pause => WorkerStep::Sleep,
            PumpEventNotifierAction::Shutdown => WorkerStep::Exit,
            PumpEventNotifierAction::Monitor => {
                *self = PumpEventNotifierAction::Pause;
                WorkerStep::Monitor
            },
        }
    }
}

/// What the helper thread does in one round of monitoring, given whether a
/// read could be prepared on the connection and what reading the wake pipe
/// returned (`None` for an error).
pub fn monitor_step(read_prepared: bool, waker_bytes: Option<usize>) -> (step: MonitorStep)
    ensures
        step == spec_monitor_step(read_prepared, waker_bytes),
{
    if !read_prepared {
        return MonitorStep::Ping;
    }
    match waker_bytes {
        Some(n) => {
            if n == 1 {
                MonitorStep::Exit
            } else {
                MonitorStep::PollAndRead
            }
        },
        None => MonitorStep::PollAndRead,
    }
}

/// What the owner does to shut the helper thread down.
#[derive(Clone, Copy, Debug, PartialEq, Eq, Structural)]
pub struct ShutdownSteps {
    /// Write one byte to the wake pipe.
    pub write_waker: bool,
    /// Join the thread.
    pub join: bool,
}

/// The owner's side of the helper thread.
#[derive(Clone, Copy, Debug, PartialEq, Eq, Structural)]
pub struct PumpEventNotifier {
    /// The action last asked of the thread.
    pub control: PumpEventNotifierAction,
    /// Whether the wake pipe exists.
    pub worker_waker: bool,
    /// Whether the thread was started and not yet joined.
    pub handle: bool,
}

impl PumpEventNotifier {
    /// The notifier after an attempt to start the helper thread.  Without a
    /// wake pipe no thread is started.  The thread starts paused.
    pub fn spawn(pipe_created: bool, thread_started: bool) -> (r: Self)
        ensures
            r == (PumpEventNotifier {
                control: PumpEventNotifierAction::Pause,
                worker_waker: pipe_created,
                handle: pipe_created && thread_started,
            }),
    {
        if !pipe_created {
            return PumpEventNotifier {
                control: PumpEventNotifierAction::Pause,
                worker_waker: false,
                handle: false,
            };
        }
        PumpEventNotifier {
            control: PumpEventNotifierAction::Pause,
            worker_waker: true,
            handle: thread_started,
        }
    }

    /// The application is outside the loop: asks the thread to monitor.  A
    /// notifier that was shut down stays shut down.
    pub fn monitor(&mut self)
        ensures
            *final(self) == (PumpEventNotifier {
                control: if old(self).control == PumpEventNotifierAction::Shutdown {
                    PumpEventNotifierAction::Shutdown
                } else {
                    PumpEventNotifierAction::Monitor
                },
                ..*old(self)
            }),
    {
        if self.control != PumpEventNotifierAction::Shutdown {
            self.control = PumpEventNotifierAction::Monitor;
        }
    }

    /// Shuts the thread down: the action becomes `Shutdown` for good, the
    /// wake pipe is written where it exists, and a started thread is joined.
    pub fn shutdown(&mut self) -> (steps: ShutdownSteps)
        ensures
            steps == (ShutdownSteps { write_waker: old(self).worker_waker, join: old(self).handle }),
            *final(self) == (PumpEventNotifier {
                control: PumpEventNotifierAction::Shutdown,
                worker_waker: old(self).worker_waker,
                handle: false,
            }),
    {
        let steps = ShutdownSteps { write_waker: self.worker_waker, join: self.handle };
        self.control = PumpEventNotifierAction::Shutdown;
        self.handle = false;
        steps
    }
}

/// Shutdown is terminal: whatever the thread sees after it, it leaves, and
/// the action stays `Shutdown`.  A request to monitor is honoured once: the
/// thread that took it finds `Pause` the next time.
pub proof fn law_notifier_handshake(action: PumpEventNotifierAction)
    ensures
        spec_worker_step(PumpEventNotifierAction::Shutdown) == WorkerStep::Exit,
        spec_worker_action(PumpEventNotifierAction::Shutdown) == PumpEventNotifierAction::Shutdown,
        spec_worker_step(spec_worker_action(PumpEventNotifierAction::Monitor)) == WorkerStep::Sleep,
        spec_worker_action(spec_worker_action(action)) == spec_worker_action(action),
        spec_worker_step(action) == WorkerStep::Monitor <==> action
            == PumpEventNotifierAction::Monitor,
{
}

} // verus!

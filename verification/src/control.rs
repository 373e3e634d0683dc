//! The control-flow policy, the causes of an iteration, and the decisions
//! the loop takes around a wait.

use crate::time::duration_as_nanos;
use crate::time::duration_from_nanos;
use crate::time::min_bound;
use crate::time::min_timeout;
use crate::time::saturating_duration_since;
use crate::time::saturating_nanos_since;
use crate::time::timeout_nanos;
use crate::time::within;
use std::time::Duration;
use std::time::Instant;
use vstd::prelude::*;

verus! {

/// How the application wants the loop to wait between iterations.
#[derive(Clone, Copy, Debug, PartialEq, Eq)]
pub enum ControlFlow {
    /// Start the next iteration at once.
    Poll,
    /// Wait until something arrives.
    Wait,
    /// Wait until something arrives or the instant is reached.
    WaitUntil(Instant),
}

impl Default for ControlFlow {
    fn default() -> (r: Self)
        ensures
            r == ControlFlow::Wait,
    {
        ControlFlow::Wait
    }
}

/// Why an iteration starts.
#[allow(inconsistent_fields)]
#[derive(Clone, Copy, Debug, PartialEq, Eq)]
pub enum StartCause {
    /// The instant asked for with `WaitUntil` was reached.
    ResumeTimeReached { start: Instant, requested_resume: Instant },
    /// Something arrived before the wait was over.
    WaitCancelled { start: Instant, requested_resume: Option<Instant> },
    /// The policy is `Poll`.
    Poll,
    /// The loop starts.
    Init,
}

/// What pumping the loop once came to.
#[derive(Clone, Copy, Debug, PartialEq, Eq, Structural)]
pub enum PumpStatus {
    /// The loop goes on.
    Continue,
    /// The loop ended with this exit code.
    Exit(i32),
}

/// Why running the loop failed.
#[derive(Clone, Copy, Debug, PartialEq, Eq, Structural)]
pub enum EventLoopError {
    /// The application or a fatal error ended the loop with a code that is
    /// not zero.
    ExitFailure(i32),
}

/// The exit code of a failed flush or of a dispatch error without a code of
/// the operating system.
pub const EXIT_FAILURE: i32 = 1;

/// How long the policy lets the loop wait from `start`, in nanoseconds:
/// not at all for `Poll`, without bound for `Wait`, and for `WaitUntil` the
/// time from `start` to the deadline, which is zero once the deadline is
/// reached.
pub open spec fn spec_control_flow_wait(control_flow: ControlFlow, start: Instant) -> Option<nat> {
    match control_flow {
        ControlFlow::Wait => None,
        ControlFlow::Poll => Some(0nat),
        ControlFlow::WaitUntil(deadline) => Some(saturating_nanos_since(deadline, start)),
    }
}

/// How long the loop waits from `start`, in nanoseconds: the smaller of what
/// the policy allows and what the caller of the pump allows.
pub open spec fn spec_wait_timeout(
    control_flow: ControlFlow,
    pump_timeout: Option<Duration>,
    start: Instant,
) -> Option<nat> {
    min_bound(spec_control_flow_wait(control_flow, start), timeout_nanos(pump_timeout))
}

/// The cause of the iteration that follows a wait begun at `start` and over
/// at `now`.  Under `WaitUntil` the wait was cancelled if time remains from
/// `now` to the deadline, and the deadline was reached if none does.
pub open spec fn spec_start_cause(control_flow: ControlFlow, start: Instant, now: Instant) -> StartCause {
    match control_flow {
        ControlFlow::Poll => StartCause::Poll,
        ControlFlow::Wait => StartCause::WaitCancelled { start, requested_resume: None },
        ControlFlow::WaitUntil(deadline) => if saturating_nanos_since(deadline, now) > 0 {
            StartCause::WaitCancelled { start, requested_resume: Some(deadline) }
        } else {
            StartCause::ResumeTimeReached { start, requested_resume: deadline }
        },
    }
}

/// Whether a wake-up is not worth an iteration: the wait was cancelled,
/// nothing was dispatched, and the caller of the pump set no timeout.
pub open spec fn spec_is_spurious(
    cause: StartCause,
    dispatched_events: bool,
    pump_timeout: Option<Duration>,
) -> bool {
    cause is WaitCancelled && !dispatched_events && pump_timeout is None
}

/// The exit code for a dispatch error: the error's code of the operating
/// system, or the generic failure code where it has none.
pub open spec fn spec_dispatch_exit_code(raw_os_error: Option<i32>) -> i32 {
    match raw_os_error {
        Some(code) => code,
        None => EXIT_FAILURE,
    }
}

/// What a pump status means for a run: `None` while the loop goes on,
/// success for exit code zero, and a failure that carries the code for any
/// other.
pub open spec fn spec_run_outcome(status: PumpStatus) -> Option<Result<(), EventLoopError>> {
    match status {
        PumpStatus::Continue => None,
        PumpStatus::Exit(code) => if code == 0 {
            Some(Ok(()))
        } else {
            Some(Err(EventLoopError::ExitFailure(code)))
        },
    }
}

/// The timeout that the control-flow policy implies for a wait that begins
/// at `start`.
pub fn control_flow_timeout(control_flow: ControlFlow, start: Instant) -> (r: Option<Duration>)
    ensures
        timeout_nanos(r) == spec_control_flow_wait(control_flow, start),
{
    match control_flow {
        ControlFlow::Wait => None,
        ControlFlow::Poll => Some(duration_from_nanos(0)),
        ControlFlow::WaitUntil(wait_deadline) => Some(
            saturating_duration_since(wait_deadline, start),
        ),
    }
}

/// The timeout of the wait that begins at `start`: the minimum of what the
/// policy implies and of the pump's own timeout, where an absent timeout is
/// an unbounded one.  The wait is unbounded only if both are.
pub fn wait_timeout(control_flow: ControlFlow, pump_timeout: Option<Duration>, start: Instant) -> (r:
    Option<Duration>)
    ensures
        timeout_nanos(r) == spec_wait_timeout(control_flow, pump_timeout, start),
        within(timeout_nanos(r), timeout_nanos(pump_timeout)),
        within(timeout_nanos(r), spec_control_flow_wait(control_flow, start)),
        r is None <==> control_flow is Wait && pump_timeout is None,
{
    min_timeout(control_flow_timeout(control_flow, start), pump_timeout)
}

/// Classifies the end of a wait that began at `start` and was over at `now`.
pub fn start_cause(control_flow: ControlFlow, start: Instant, now: Instant) -> (r: StartCause)
    ensures
        r == spec_start_cause(control_flow, start, now),
{
    match control_flow {
        ControlFlow::Poll => StartCause::Poll,
        ControlFlow::Wait => StartCause::WaitCancelled { start, requested_resume: None },
        ControlFlow::WaitUntil(deadline) => {
            // Time remains to the deadline exactly when the wait ended before it.
            if duration_as_nanos(&saturating_duration_since(deadline, now)) > 0 {
                StartCause::WaitCancelled { start, requested_resume: Some(deadline) }
            } else {
                StartCause::ResumeTimeReached { start, requested_resume: deadline }
            }
        },
    }
}

/// Whether a wake-up is to be passed over without an iteration.
pub fn is_spurious(cause: &StartCause, dispatched_events: bool, pump_timeout: &Option<Duration>) -> (r:
    bool)
    ensures
        r == spec_is_spurious(*cause, dispatched_events, *pump_timeout),
{
    let cancelled = match cause {
        StartCause::WaitCancelled { .. } => true,
        _ => false,
    };
    cancelled && !dispatched_events && pump_timeout.is_none()
}

/// The exit code with which a dispatch error ends the loop.
pub fn dispatch_exit_code(raw_os_error: Option<i32>) -> (r: i32)
    ensures
        r == spec_dispatch_exit_code(raw_os_error),
{
    match raw_os_error {
        Some(code) => code,
        None => EXIT_FAILURE,
    }
}

/// What a pump status means for a run of the loop.
pub fn run_outcome(status: PumpStatus) -> (r: Option<Result<(), EventLoopError>>)
    ensures
        r == spec_run_outcome(status),
{
    match status {
        PumpStatus::Exit(code) => {
            if code == 0 {
                Some(Ok(()))
            } else {
                Some(Err(EventLoopError::ExitFailure(code)))
            }
        },
        PumpStatus::Continue => None,
    }
}

/// Whatever policy the application sets, the wait never lasts longer than
/// the pump's timeout allows nor longer than the policy allows, and it is
/// unbounded exactly when the policy is `Wait` and the pump set no timeout.
pub proof fn law_wait_within_bounds(
    control_flow: ControlFlow,
    pump_timeout: Option<Duration>,
    start: Instant,
)
    ensures
        within(
            spec_wait_timeout(control_flow, pump_timeout, start),
            timeout_nanos(pump_timeout),
        ),
        within(
            spec_wait_timeout(control_flow, pump_timeout, start),
            spec_control_flow_wait(control_flow, start),
        ),
        spec_wait_timeout(control_flow, pump_timeout, start) is None <==> control_flow is Wait
            && pump_timeout is None,
        control_flow is Poll ==> spec_wait_timeout(control_flow, pump_timeout, start) == Some(0nat),
{
}

/// A wait under `WaitUntil` that is over when no time remains to the
/// deadline is a resume at the requested time, never a cancelled wait; one
/// that is over while time remains is a cancelled wait.  And when no time
/// remains to the deadline, the next wait does not block.
pub proof fn law_deadline_reached(deadline: Instant, start: Instant, now: Instant)
    ensures
        saturating_nanos_since(deadline, now) == 0 ==> spec_start_cause(
            ControlFlow::WaitUntil(deadline),
            start,
            now,
        ) == (StartCause::ResumeTimeReached { start, requested_resume: deadline }),
        saturating_nanos_since(deadline, now) > 0 ==> spec_start_cause(
            ControlFlow::WaitUntil(deadline),
            start,
            now,
        ) == (StartCause::WaitCancelled { start, requested_resume: Some(deadline) }),
        saturating_nanos_since(deadline, now) == 0 ==> spec_control_flow_wait(
            ControlFlow::WaitUntil(deadline),
            now,
        ) == Some(0nat),
{
}


/// A wake-up that dispatched something is never passed over: whatever the
/// cause and whatever the pump's timeout, it is worth an iteration.  So is
/// any wake-up of a pump with a timeout, and any that is not a cancelled
/// wait.
pub proof fn law_wake_up_not_passed_over(cause: StartCause, pump_timeout: Option<Duration>)
    ensures
        !spec_is_spurious(cause, true, pump_timeout),
        pump_timeout is Some ==> !spec_is_spurious(cause, false, pump_timeout),
        !(cause is WaitCancelled) ==> !spec_is_spurious(cause, false, pump_timeout),
{
}

} // verus!

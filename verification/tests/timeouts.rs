use std::time::Duration;
use std::time::Instant;
use winit_wayland::control::control_flow_timeout;
use winit_wayland::control::dispatch_exit_code;
use winit_wayland::control::is_spurious;
use winit_wayland::control::run_outcome;
use winit_wayland::control::start_cause;
use winit_wayland::control::wait_timeout;
use winit_wayland::control::ControlFlow;
use winit_wayland::control::EventLoopError;
use winit_wayland::control::PumpStatus;
use winit_wayland::control::StartCause;
use winit_wayland::time::min_timeout;

#[test]
fn min_timeout_none_is_infinite() {
    let t = Duration::from_millis(5);
    assert_eq!(min_timeout(None, None), None);
    assert_eq!(min_timeout(None, Some(t)), Some(t));
    assert_eq!(min_timeout(Some(t), None), Some(t));
}

#[test]
fn min_timeout_of_two_is_the_shorter() {
    let a = Duration::from_millis(5);
    let b = Duration::from_millis(3);
    assert_eq!(min_timeout(Some(a), Some(b)), Some(b));
    assert_eq!(min_timeout(Some(b), Some(a)), Some(b));
    assert_eq!(min_timeout(Some(a), Some(a)), Some(a));
    assert_eq!(min_timeout(Some(Duration::ZERO), Some(a)), Some(Duration::ZERO));
}

#[test]
fn min_timeout_is_not_option_min() {
    // `Option::min` would rank `None` below every bounded timeout.
    let t = Duration::from_secs(1);
    assert_ne!(min_timeout(None, Some(t)), None.min(Some(t)));
}

#[test]
fn control_flow_timeout_by_policy() {
    let start = Instant::now();
    assert_eq!(control_flow_timeout(ControlFlow::Wait, start), None);
    assert_eq!(control_flow_timeout(ControlFlow::Poll, start), Some(Duration::ZERO));
    let deadline = start + Duration::from_millis(50);
    assert_eq!(
        control_flow_timeout(ControlFlow::WaitUntil(deadline), start),
        Some(Duration::from_millis(50))
    );
}

#[test]
fn control_flow_timeout_saturates_at_zero() {
    let deadline = Instant::now();
    let start = deadline + Duration::from_millis(20);
    assert_eq!(control_flow_timeout(ControlFlow::WaitUntil(deadline), start), Some(Duration::ZERO));
    assert_eq!(control_flow_timeout(ControlFlow::WaitUntil(start), start), Some(Duration::ZERO));
}

#[test]
fn wait_timeout_is_minimum_of_policy_and_pump() {
    let start = Instant::now();
    let deadline = start + Duration::from_millis(50);
    let until = ControlFlow::WaitUntil(deadline);
    assert_eq!(wait_timeout(ControlFlow::Wait, None, start), None);
    assert_eq!(
        wait_timeout(ControlFlow::Wait, Some(Duration::from_millis(7)), start),
        Some(Duration::from_millis(7))
    );
    assert_eq!(wait_timeout(ControlFlow::Poll, None, start), Some(Duration::ZERO));
    assert_eq!(
        wait_timeout(ControlFlow::Poll, Some(Duration::from_millis(7)), start),
        Some(Duration::ZERO)
    );
    assert_eq!(wait_timeout(until, None, start), Some(Duration::from_millis(50)));
    assert_eq!(
        wait_timeout(until, Some(Duration::from_millis(7)), start),
        Some(Duration::from_millis(7))
    );
    assert_eq!(
        wait_timeout(until, Some(Duration::from_millis(70)), start),
        Some(Duration::from_millis(50))
    );
}

#[test]
fn start_cause_by_policy() {
    let start = Instant::now();
    let now = start + Duration::from_millis(1);
    assert_eq!(start_cause(ControlFlow::Poll, start, now), StartCause::Poll);
    assert_eq!(
        start_cause(ControlFlow::Wait, start, now),
        StartCause::WaitCancelled { start, requested_resume: None }
    );
}

#[test]
fn wait_until_elapsed_is_resume_time_reached() {
    let start = Instant::now();
    let deadline = start + Duration::from_millis(50);
    let policy = ControlFlow::WaitUntil(deadline);
    assert_eq!(
        start_cause(policy, start, deadline),
        StartCause::ResumeTimeReached { start, requested_resume: deadline }
    );
    assert_eq!(
        start_cause(policy, start, deadline + Duration::from_millis(1)),
        StartCause::ResumeTimeReached { start, requested_resume: deadline }
    );
}

#[test]
fn wait_until_woken_early_is_wait_cancelled() {
    let start = Instant::now();
    let deadline = start + Duration::from_millis(50);
    assert_eq!(
        start_cause(ControlFlow::WaitUntil(deadline), start, start + Duration::from_millis(49)),
        StartCause::WaitCancelled { start, requested_resume: Some(deadline) }
    );
}

#[test]
fn spurious_wake_up_needs_all_three() {
    let start = Instant::now();
    let cancelled = StartCause::WaitCancelled { start, requested_resume: None };
    let reached = StartCause::ResumeTimeReached { start, requested_resume: start };
    assert!(is_spurious(&cancelled, false, &None));
    assert!(!is_spurious(&cancelled, true, &None));
    assert!(!is_spurious(&cancelled, false, &Some(Duration::ZERO)));
    assert!(!is_spurious(&reached, false, &None));
    assert!(!is_spurious(&StartCause::Poll, false, &None));
    assert!(!is_spurious(&StartCause::Init, false, &None));
}

#[test]
fn dispatch_exit_code_falls_back_to_generic_failure() {
    assert_eq!(dispatch_exit_code(Some(32)), 32);
    assert_eq!(dispatch_exit_code(Some(0)), 0);
    assert_eq!(dispatch_exit_code(None), 1);
}

#[test]
fn run_outcome_by_status() {
    assert_eq!(run_outcome(PumpStatus::Continue), None);
    assert_eq!(run_outcome(PumpStatus::Exit(0)), Some(Ok(())));
    assert_eq!(run_outcome(PumpStatus::Exit(3)), Some(Err(EventLoopError::ExitFailure(3))));
    assert_eq!(run_outcome(PumpStatus::Exit(-1)), Some(Err(EventLoopError::ExitFailure(-1))));
}

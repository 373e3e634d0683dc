use winit_wayland::application::ActiveEventLoop;
use winit_wayland::event::WindowId;
use winit_wayland::application::CursorImage;
use winit_wayland::application::CustomCursor;
use winit_wayland::application::CustomCursorSource;
use winit_wayland::application::RequestError;
use winit_wayland::notifier::monitor_step;
use winit_wayland::notifier::MonitorStep;
use winit_wayland::notifier::PumpEventNotifier;
use winit_wayland::notifier::PumpEventNotifierAction;
use winit_wayland::notifier::ShutdownSteps;
use winit_wayland::notifier::WorkerStep;
use winit_wayland::proxy::EventLoopProxy;
use winit_wayland::proxy::Ping;

#[test]
fn worker_sleeps_while_paused() {
    let mut action = PumpEventNotifierAction::Pause;
    assert_eq!(action.worker_step(), WorkerStep::Sleep);
    assert_eq!(action, PumpEventNotifierAction::Pause);
}

#[test]
fn worker_consumes_a_monitor_request() {
    let mut action = PumpEventNotifierAction::Monitor;
    assert_eq!(action.worker_step(), WorkerStep::Monitor);
    assert_eq!(action, PumpEventNotifierAction::Pause);
    assert_eq!(action.worker_step(), WorkerStep::Sleep);
}

#[test]
fn shutdown_is_terminal_for_the_worker() {
    let mut action = PumpEventNotifierAction::Shutdown;
    assert_eq!(action.worker_step(), WorkerStep::Exit);
    assert_eq!(action, PumpEventNotifierAction::Shutdown);
    assert_eq!(action.worker_step(), WorkerStep::Exit);
}

#[test]
fn monitor_round_decisions() {
    assert_eq!(monitor_step(false, None), MonitorStep::Ping);
    assert_eq!(monitor_step(false, Some(1)), MonitorStep::Ping);
    assert_eq!(monitor_step(true, Some(1)), MonitorStep::Exit);
    assert_eq!(monitor_step(true, Some(0)), MonitorStep::PollAndRead);
    assert_eq!(monitor_step(true, Some(2)), MonitorStep::PollAndRead);
    assert_eq!(monitor_step(true, None), MonitorStep::PollAndRead);
}

#[test]
fn notifier_starts_paused() {
    let notifier = PumpEventNotifier::spawn(true, true);
    assert_eq!(
        notifier,
        PumpEventNotifier {
            control: PumpEventNotifierAction::Pause,
            worker_waker: true,
            handle: true,
        }
    );
}

#[test]
fn notifier_without_a_pipe_has_no_thread() {
    let notifier = PumpEventNotifier::spawn(false, true);
    assert!(!notifier.worker_waker);
    assert!(!notifier.handle);
    let failed = PumpEventNotifier::spawn(true, false);
    assert!(failed.worker_waker);
    assert!(!failed.handle);
}

#[test]
fn notifier_shutdown_wakes_and_joins() {
    let mut notifier = PumpEventNotifier::spawn(true, true);
    notifier.monitor();
    assert_eq!(notifier.control, PumpEventNotifierAction::Monitor);
    assert_eq!(notifier.shutdown(), ShutdownSteps { write_waker: true, join: true });
    assert_eq!(notifier.control, PumpEventNotifierAction::Shutdown);
    // A second shutdown has no thread left to join.
    assert_eq!(notifier.shutdown(), ShutdownSteps { write_waker: true, join: false });
    notifier.monitor();
    assert_eq!(notifier.control, PumpEventNotifierAction::Shutdown);
}

#[test]
fn pings_coalesce() {
    let mut ping = Ping::new();
    assert!(!ping.is_pending());
    assert!(!ping.take());
    ping.ping();
    ping.ping();
    assert!(ping.is_pending());
    assert!(ping.take());
    assert!(!ping.take());
}

#[test]
fn proxy_wakes_once() {
    let mut target = ActiveEventLoop::new();
    let proxy = EventLoopProxy::new();
    proxy.wake(&mut target);
    proxy.wake(&mut target);
    assert!(target.take_wake_up());
    assert!(!target.take_wake_up());
}

#[test]
fn only_image_cursors_are_supported() {
    let target = ActiveEventLoop::new();
    let image = CursorImage { width: 16, height: 16, hotspot_x: 1, hotspot_y: 2 };
    assert_eq!(
        target.create_custom_cursor(CustomCursorSource::Image(image)),
        Ok(CustomCursor(image))
    );
    assert_eq!(
        target.create_custom_cursor(CustomCursorSource::Animation),
        Err(RequestError::UnsupportedCursorKind)
    );
    assert_eq!(
        target.create_custom_cursor(CustomCursorSource::Url),
        Err(RequestError::UnsupportedCursorKind)
    );
    assert_eq!(RequestError::UnsupportedCursorKind.reason(), "unsupported cursor kind");
    assert_eq!(target.system_theme(), None);
}

#[test]
fn handle_queues_requests_in_order() {
    let mut target = ActiveEventLoop::new();
    assert_eq!(target.create_window(winit_wayland::event::LogicalSize::new(1, 2)), Some(WindowId(0)));
    assert_eq!(target.create_window(winit_wayland::event::LogicalSize::new(3, 4)), Some(WindowId(1)));
    target.request_redraw(WindowId(0));
    target.close_window(WindowId(1));
    target.pre_present_notify(WindowId(0));
    target.mark_frame_dirty(WindowId(0));
    assert!(!target.awakener_pending());
    target.ping_awakener();
    assert!(target.awakener_pending());
    assert!(target.take_awakener());
    assert!(!target.take_awakener());
}

use std::time::Duration;
use std::time::Instant;
use winit_wayland::application::ActiveEventLoop;
use winit_wayland::application::ApplicationHandler;
use winit_wayland::application::DeviceId;
use winit_wayland::control::ControlFlow;
use winit_wayland::control::PumpStatus;
use winit_wayland::control::StartCause;
use winit_wayland::event::DeviceEvent;
use winit_wayland::event::Event;
use winit_wayland::event::LogicalSize;
use winit_wayland::event::PhysicalSize;
use winit_wayland::event::SurfaceSizeWriter;
use winit_wayland::event::WindowEvent;
use winit_wayland::event::WindowId;
use winit_wayland::trace::Callback;
use winit_wayland::event_loop::EventLoop;
use winit_wayland::event_loop::NotifierCommand;
use winit_wayland::event_loop::WaitOutcome;
use winit_wayland::notifier::ShutdownSteps;
use winit_wayland::state::WinitState;

/// Records every callback, and acts on the loop as told.
#[derive(Default)]
struct Recorder {
    log: Vec<Callback>,
    /// Policy to set in `about_to_wait`.
    policy: Option<ControlFlow>,
    /// Exit to ask for in `new_events`.
    exit_on_new_events: bool,
    /// Size to answer a scale change with.
    size_override: Option<PhysicalSize>,
    /// Window to drop when it is asked to close.
    drop_on_close: bool,
    /// Window to ask a redraw of in `about_to_wait`.
    redraw_in_about_to_wait: Option<WindowId>,
    /// Window to mark dirty in `about_to_wait`.
    dirty_in_about_to_wait: Option<WindowId>,
    /// Window to create in `can_create_surfaces`.
    create_window: Option<LogicalSize>,
}

impl ApplicationHandler for Recorder {
    fn new_events(
        &mut self,
        event_loop: &mut ActiveEventLoop,
        _windows: &WinitState,
        cause: StartCause,
    ) {
        self.log.push(Callback::NewEvents(cause));
        if self.exit_on_new_events {
            event_loop.exit();
        }
    }

    fn can_create_surfaces(&mut self, event_loop: &mut ActiveEventLoop, _windows: &WinitState) {
        self.log.push(Callback::CanCreateSurfaces);
        if let Some(size) = self.create_window.take() {
            event_loop.create_window(size);
        }
    }

    fn proxy_wake_up(&mut self, _event_loop: &mut ActiveEventLoop, _windows: &WinitState) {
        self.log.push(Callback::ProxyWakeUp);
    }

    fn window_event(
        &mut self,
        event_loop: &mut ActiveEventLoop,
        _windows: &WinitState,
        window_id: WindowId,
        event: &mut WindowEvent,
    ) {
        self.log.push(Callback::WindowEvent { window_id, event: *event });
        match event {
            WindowEvent::ScaleFactorChanged { surface_size_writer, .. } => {
                if let Some(size) = self.size_override {
                    surface_size_writer.request_surface_size(size);
                }
            },
            WindowEvent::CloseRequested => {
                if self.drop_on_close {
                    event_loop.close_window(window_id);
                }
            },
            _ => {},
        }
    }

    fn device_event(
        &mut self,
        _event_loop: &mut ActiveEventLoop,
        _windows: &WinitState,
        device_id: Option<DeviceId>,
        event: DeviceEvent,
    ) {
        self.log.push(Callback::DeviceEvent { device_id, event });
    }

    fn about_to_wait(&mut self, event_loop: &mut ActiveEventLoop, _windows: &WinitState) {
        self.log.push(Callback::AboutToWait);
        if let Some(policy) = self.policy.take() {
            event_loop.set_control_flow(policy);
        }
        if let Some(id) = self.redraw_in_about_to_wait.take() {
            event_loop.request_redraw(id);
        }
        if let Some(id) = self.dirty_in_about_to_wait.take() {
            event_loop.mark_frame_dirty(id);
        }
    }
}

fn window_event(id: WindowId, event: WindowEvent) -> Callback {
    Callback::WindowEvent { window_id: id, event }
}

fn input(id: WindowId, payload: u64) -> Event {
    Event::WindowEvent { window_id: id, event: WindowEvent::Input(payload) }
}

/// A loop with one window whose first frame was already drawn.
fn loop_with_window(app: &mut Recorder) -> (EventLoop, WindowId) {
    let mut event_loop = EventLoop::new();
    let id = event_loop.create_window(LogicalSize::new(100, 50)).unwrap();
    // The first pump runs the initial iteration and nothing else.
    assert!(!event_loop.pump_begin(app));
    app.log.clear();
    (event_loop, id)
}

#[test]
fn first_iteration_offers_surfaces() {
    let mut app = Recorder::default();
    let mut event_loop = EventLoop::new();
    let wake_up = event_loop.single_iteration(&mut app, StartCause::Init);
    assert!(!wake_up);
    assert_eq!(
        app.log,
        vec![Callback::NewEvents(StartCause::Init), Callback::CanCreateSurfaces, Callback::AboutToWait]
    );
}

#[test]
fn first_iteration_offers_surfaces_whatever_the_cause() {
    let mut app = Recorder::default();
    let mut event_loop = EventLoop::new();
    event_loop.single_iteration(&mut app, StartCause::Poll);
    assert_eq!(
        app.log,
        vec![Callback::NewEvents(StartCause::Poll), Callback::CanCreateSurfaces, Callback::AboutToWait]
    );
}

#[test]
fn later_iterations_do_not_offer_surfaces() {
    let mut app = Recorder::default();
    let mut event_loop = EventLoop::new();
    event_loop.single_iteration(&mut app, StartCause::Init);
    app.log.clear();
    event_loop.single_iteration(&mut app, StartCause::Poll);
    event_loop.single_iteration(&mut app, StartCause::Init);
    assert_eq!(
        app.log,
        vec![
            Callback::NewEvents(StartCause::Poll),
            Callback::AboutToWait,
            Callback::NewEvents(StartCause::Init),
            Callback::AboutToWait,
        ]
    );
}

#[test]
fn first_pump_drives_the_initial_iteration_only() {
    let mut app = Recorder::default();
    let mut event_loop = EventLoop::new();
    event_loop.window_target_mut().set_control_flow(ControlFlow::Poll);
    // The initial iteration is the one iteration of the first pump: the
    // pump does not go on to wait.
    assert!(!event_loop.pump_begin(&mut app));
    assert_eq!(event_loop.pump_end(false), (PumpStatus::Continue, NotifierCommand::Nothing));
    assert_eq!(
        app.log,
        vec![Callback::NewEvents(StartCause::Init), Callback::CanCreateSurfaces, Callback::AboutToWait]
    );
    // The second pump waits, and drives one iteration too.
    app.log.clear();
    assert!(event_loop.pump_begin(&mut app));
    let start = Instant::now();
    assert_eq!(event_loop.poll_timeout(None, start), Some(Duration::ZERO));
    assert!(!event_loop.poll_events_with_timeout(
        None,
        &mut app,
        start,
        WaitOutcome::Woke { now: start }
    ));
    assert_eq!(event_loop.pump_end(false), (PumpStatus::Continue, NotifierCommand::Nothing));
    assert_eq!(app.log, vec![Callback::NewEvents(StartCause::Poll), Callback::AboutToWait]);
}

#[test]
fn surfaces_are_offered_once_across_restarts() {
    let mut app = Recorder::default();
    let mut event_loop = EventLoop::new();
    assert!(!event_loop.pump_begin(&mut app));
    event_loop.set_exit_code(0);
    assert_eq!(event_loop.pump_end(false), (PumpStatus::Exit(0), NotifierCommand::Nothing));
    app.log.clear();
    event_loop.run_begin();
    assert!(!event_loop.pump_begin(&mut app));
    assert_eq!(app.log, vec![Callback::NewEvents(StartCause::Init), Callback::AboutToWait]);
}

#[test]
fn phases_come_in_fixed_order() {
    let mut app = Recorder::default();
    let (mut event_loop, id) = loop_with_window(&mut app);
    {
        let state = event_loop.state_mut();
        // Written in an order unlike the one they are delivered in.
        state.request_redraw(id);
        assert!(state.push_event(input(id, 1)));
        assert!(state.push_event(Event::DeviceEvent { event: DeviceEvent(2) }));
        assert!(state.push_window_event(input(id, 3)));
        assert!(state.close_requested(id));
        assert!(state.configure(id, LogicalSize::new(200, 100)));
    }
    event_loop.window_target_mut().wake_up();
    event_loop.dispatch_pings();
    event_loop.single_iteration(&mut app, StartCause::Poll);
    assert_eq!(
        app.log,
        vec![
            Callback::NewEvents(StartCause::Poll),
            Callback::ProxyWakeUp,
            window_event(id, WindowEvent::SurfaceResized(PhysicalSize::new(200, 100))),
            window_event(id, WindowEvent::CloseRequested),
            window_event(id, WindowEvent::Input(3)),
            window_event(id, WindowEvent::Input(1)),
            Callback::DeviceEvent { device_id: None, event: DeviceEvent(2) },
            window_event(id, WindowEvent::RedrawRequested),
            Callback::AboutToWait,
        ]
    );
}

#[test]
fn scale_change_then_resize_gives_one_resize() {
    let mut app = Recorder::default();
    let (mut event_loop, id) = loop_with_window(&mut app);
    {
        let state = event_loop.state_mut();
        assert!(state.scale_factor_changed(id, 240));
        assert!(state.configure(id, LogicalSize::new(150, 60)));
    }
    event_loop.single_iteration(&mut app, StartCause::Poll);
    let size = PhysicalSize::new(300, 120);
    assert_eq!(
        app.log,
        vec![
            Callback::NewEvents(StartCause::Poll),
            window_event(
                id,
                WindowEvent::ScaleFactorChanged {
                    scale_factor: 240,
                    surface_size_writer: SurfaceSizeWriter::new(size),
                }
            ),
            window_event(id, WindowEvent::SurfaceResized(size)),
            window_event(id, WindowEvent::RedrawRequested),
            Callback::AboutToWait,
        ]
    );
}

#[test]
fn size_override_forces_a_resize() {
    let mut app = Recorder::default();
    let (mut event_loop, id) = loop_with_window(&mut app);
    app.size_override = Some(PhysicalSize::new(400, 300));
    assert!(event_loop.state_mut().scale_factor_changed(id, 240));
    event_loop.single_iteration(&mut app, StartCause::Poll);
    assert_eq!(
        app.log,
        vec![
            Callback::NewEvents(StartCause::Poll),
            window_event(
                id,
                WindowEvent::ScaleFactorChanged {
                    scale_factor: 240,
                    surface_size_writer: SurfaceSizeWriter::new(PhysicalSize::new(200, 100)),
                }
            ),
            window_event(id, WindowEvent::SurfaceResized(PhysicalSize::new(400, 300))),
            window_event(id, WindowEvent::RedrawRequested),
            Callback::AboutToWait,
        ]
    );
    let entry = event_loop.state_ref().window(id).unwrap();
    assert_eq!(entry.window.surface_size(), LogicalSize::new(200, 150));
}

#[test]
fn configure_with_the_same_size_announces_nothing() {
    let mut app = Recorder::default();
    let (mut event_loop, id) = loop_with_window(&mut app);
    assert!(event_loop.state_mut().configure(id, LogicalSize::new(100, 50)));
    event_loop.single_iteration(&mut app, StartCause::Poll);
    assert_eq!(app.log, vec![Callback::NewEvents(StartCause::Poll), Callback::AboutToWait]);
}

#[test]
fn close_request_is_not_a_destroy() {
    let mut app = Recorder::default();
    let (mut event_loop, id) = loop_with_window(&mut app);
    assert!(event_loop.state_mut().close_requested(id));
    event_loop.single_iteration(&mut app, StartCause::Poll);
    assert_eq!(
        app.log,
        vec![
            Callback::NewEvents(StartCause::Poll),
            window_event(id, WindowEvent::CloseRequested),
            Callback::AboutToWait,
        ]
    );
    assert!(event_loop.state_ref().contains(id));
}

#[test]
fn destroyed_is_delivered_once_and_last() {
    let mut app = Recorder::default();
    let (mut event_loop, id) = loop_with_window(&mut app);
    app.drop_on_close = true;
    {
        let state = event_loop.state_mut();
        assert!(state.close_requested(id));
        assert!(state.push_event(input(id, 1)));
    }
    event_loop.single_iteration(&mut app, StartCause::Poll);
    assert_eq!(
        app.log,
        vec![
            Callback::NewEvents(StartCause::Poll),
            window_event(id, WindowEvent::CloseRequested),
            window_event(id, WindowEvent::Input(1)),
            window_event(id, WindowEvent::Destroyed),
            Callback::AboutToWait,
        ]
    );
    app.log.clear();
    {
        let state = event_loop.state_mut();
        assert!(!state.contains(id));
        assert!(!state.push_event(input(id, 2)));
        assert!(!state.close_requested(id));
        assert!(!state.request_redraw(id));
    }
    event_loop.single_iteration(&mut app, StartCause::Poll);
    event_loop.single_iteration(&mut app, StartCause::Poll);
    assert_eq!(
        app.log,
        vec![
            Callback::NewEvents(StartCause::Poll),
            Callback::AboutToWait,
            Callback::NewEvents(StartCause::Poll),
            Callback::AboutToWait,
        ]
    );
}

#[test]
fn events_of_a_window_dropped_mid_iteration_are_not_delivered() {
    let mut app = Recorder::default();
    let mut event_loop = EventLoop::new();
    let a = event_loop.create_window(LogicalSize::new(1, 1)).unwrap();
    let b = event_loop.create_window(LogicalSize::new(1, 1)).unwrap();
    event_loop.pump_begin(&mut app);
    app.log.clear();
    {
        let state = event_loop.state_mut();
        state.close_window(a);
        state.push_event(input(b, 1));
    }
    event_loop.single_iteration(&mut app, StartCause::Poll);
    assert_eq!(
        app.log,
        vec![
            Callback::NewEvents(StartCause::Poll),
            window_event(b, WindowEvent::Input(1)),
            window_event(a, WindowEvent::Destroyed),
            Callback::AboutToWait,
        ]
    );
}

#[test]
fn no_redraw_while_frame_callback_is_requested() {
    let mut app = Recorder::default();
    let (mut event_loop, id) = loop_with_window(&mut app);
    {
        let state = event_loop.state_mut();
        state.request_redraw(id);
        state.frame_callback_requested(id);
    }
    event_loop.single_iteration(&mut app, StartCause::Poll);
    assert_eq!(app.log, vec![Callback::NewEvents(StartCause::Poll), Callback::AboutToWait]);
    app.log.clear();
    event_loop.state_mut().frame_callback_received(id);
    event_loop.single_iteration(&mut app, StartCause::Poll);
    assert_eq!(
        app.log,
        vec![
            Callback::NewEvents(StartCause::Poll),
            window_event(id, WindowEvent::RedrawRequested),
            Callback::AboutToWait,
        ]
    );
    app.log.clear();
    event_loop.single_iteration(&mut app, StartCause::Poll);
    assert_eq!(app.log, vec![Callback::NewEvents(StartCause::Poll), Callback::AboutToWait]);
}

#[test]
fn dirty_frame_after_about_to_wait_pings_the_loop() {
    let mut app = Recorder::default();
    let (mut event_loop, id) = loop_with_window(&mut app);
    assert!(!event_loop.window_target().awakener_pending());
    app.dirty_in_about_to_wait = Some(id);
    assert!(event_loop.single_iteration(&mut app, StartCause::Poll));
    assert!(event_loop.window_target().awakener_pending());
    let entry = event_loop.state_ref().window(id).unwrap();
    assert!(entry.requests.redraw_requested);
    assert!(!entry.window.frame_dirty);
    app.log.clear();
    event_loop.dispatch_pings();
    assert!(event_loop.state_ref().dispatched_events());
    assert!(!event_loop.single_iteration(&mut app, StartCause::Poll));
    assert_eq!(
        app.log,
        vec![
            Callback::NewEvents(StartCause::Poll),
            window_event(id, WindowEvent::RedrawRequested),
            Callback::AboutToWait,
        ]
    );
    assert!(!event_loop.state_ref().dispatched_events());
}

#[test]
fn redraw_request_alone_does_not_ping() {
    let mut app = Recorder::default();
    let (mut event_loop, id) = loop_with_window(&mut app);
    app.redraw_in_about_to_wait = Some(id);
    assert!(!event_loop.single_iteration(&mut app, StartCause::Poll));
    assert!(!event_loop.window_target().awakener_pending());
}

#[test]
fn window_created_in_first_iteration_is_drawn_in_it() {
    let mut app = Recorder::default();
    app.create_window = Some(LogicalSize::new(10, 10));
    let mut event_loop = EventLoop::new();
    assert!(!event_loop.pump_begin(&mut app));
    assert_eq!(
        app.log,
        vec![
            Callback::NewEvents(StartCause::Init),
            Callback::CanCreateSurfaces,
            window_event(WindowId(0), WindowEvent::RedrawRequested),
            Callback::AboutToWait,
        ]
    );
}

#[test]
fn proxy_wake_is_delivered_in_the_next_iteration() {
    let mut app = Recorder::default();
    let mut event_loop = EventLoop::new();
    event_loop.pump_begin(&mut app);
    app.log.clear();
    let start = Instant::now();
    assert_eq!(event_loop.poll_timeout(None, start), None);
    event_loop.window_target_mut().wake_up();
    event_loop.window_target_mut().wake_up();
    event_loop.dispatch_pings();
    let again = event_loop.poll_events_with_timeout(
        None,
        &mut app,
        start,
        WaitOutcome::Woke { now: start + Duration::from_millis(3) },
    );
    assert!(!again);
    assert_eq!(
        app.log,
        vec![
            Callback::NewEvents(StartCause::WaitCancelled { start, requested_resume: None }),
            Callback::ProxyWakeUp,
            Callback::AboutToWait,
        ]
    );
    app.log.clear();
    event_loop.single_iteration(&mut app, StartCause::Poll);
    assert_eq!(app.log, vec![Callback::NewEvents(StartCause::Poll), Callback::AboutToWait]);
}

#[test]
fn spurious_wake_up_runs_no_iteration() {
    let mut app = Recorder::default();
    let mut event_loop = EventLoop::new();
    event_loop.pump_begin(&mut app);
    app.log.clear();
    let start = Instant::now();
    let woke = WaitOutcome::Woke { now: start + Duration::from_millis(1) };
    assert!(event_loop.poll_events_with_timeout(None, &mut app, start, woke));
    assert!(event_loop.poll_events_with_timeout(None, &mut app, start, woke));
    assert_eq!(app.log, vec![]);
    assert_eq!(event_loop.pump_end(false), (PumpStatus::Continue, NotifierCommand::Nothing));
    // Only a wake-up with something dispatched starts an iteration.
    event_loop.state_mut().awakener_woke();
    assert!(!event_loop.poll_events_with_timeout(None, &mut app, start, woke));
    assert_eq!(
        app.log,
        vec![
            Callback::NewEvents(StartCause::WaitCancelled { start, requested_resume: None }),
            Callback::AboutToWait,
        ]
    );
}

#[test]
fn wake_up_with_a_pump_timeout_is_never_spurious() {
    let mut app = Recorder::default();
    let mut event_loop = EventLoop::new();
    event_loop.pump_begin(&mut app);
    app.log.clear();
    let start = Instant::now();
    let again = event_loop.poll_events_with_timeout(
        Some(Duration::ZERO),
        &mut app,
        start,
        WaitOutcome::Woke { now: start },
    );
    assert!(!again);
    assert_eq!(
        app.log,
        vec![
            Callback::NewEvents(StartCause::WaitCancelled { start, requested_resume: None }),
            Callback::AboutToWait,
        ]
    );
}

#[test]
fn wait_until_set_in_about_to_wait_resumes_at_the_deadline() {
    let mut app = Recorder::default();
    let mut event_loop = EventLoop::new();
    let now = Instant::now();
    let deadline = now + Duration::from_millis(50);
    app.policy = Some(ControlFlow::WaitUntil(deadline));
    assert!(!event_loop.pump_begin(&mut app));
    app.log.clear();
    assert_eq!(event_loop.control_flow(), ControlFlow::WaitUntil(deadline));
    assert_eq!(event_loop.poll_timeout(None, now), Some(Duration::from_millis(50)));
    assert_eq!(
        event_loop.poll_timeout(Some(Duration::from_millis(10)), now),
        Some(Duration::from_millis(10))
    );
    let again = event_loop.poll_events_with_timeout(
        None,
        &mut app,
        now,
        WaitOutcome::Woke { now: deadline },
    );
    assert!(!again);
    assert_eq!(
        app.log,
        vec![
            Callback::NewEvents(StartCause::ResumeTimeReached {
                start: now,
                requested_resume: deadline,
            }),
            Callback::AboutToWait,
        ]
    );
}

#[test]
fn early_wake_up_before_the_deadline_waits_again() {
    let mut app = Recorder::default();
    let mut event_loop = EventLoop::new();
    let now = Instant::now();
    let deadline = now + Duration::from_millis(50);
    event_loop.window_target_mut().set_control_flow(ControlFlow::WaitUntil(deadline));
    event_loop.pump_begin(&mut app);
    app.log.clear();
    let early = now + Duration::from_millis(20);
    assert!(event_loop.poll_events_with_timeout(
        None,
        &mut app,
        now,
        WaitOutcome::Woke { now: early }
    ));
    assert_eq!(app.log, vec![]);
    assert_eq!(event_loop.poll_timeout(None, early), Some(Duration::from_millis(30)));
}

#[test]
fn policy_change_takes_effect_on_the_next_wait() {
    let mut app = Recorder::default();
    let mut event_loop = EventLoop::new();
    event_loop.pump_begin(&mut app);
    let start = Instant::now();
    assert_eq!(event_loop.poll_timeout(None, start), None);
    app.policy = Some(ControlFlow::Poll);
    event_loop.single_iteration(&mut app, StartCause::Poll);
    assert_eq!(event_loop.poll_timeout(None, start), Some(Duration::ZERO));
    assert_eq!(event_loop.poll_timeout(Some(Duration::from_secs(1)), start), Some(Duration::ZERO));
}

#[test]
fn flush_failure_ends_the_loop_with_the_generic_code() {
    let mut app = Recorder::default();
    let mut event_loop = EventLoop::new();
    event_loop.pump_begin(&mut app);
    app.log.clear();
    let start = Instant::now();
    assert!(!event_loop.poll_events_with_timeout(None, &mut app, start, WaitOutcome::FlushFailed));
    assert_eq!(app.log, vec![]);
    assert_eq!(event_loop.exit_code(), Some(1));
    assert!(event_loop.exiting());
    assert_eq!(event_loop.pump_end(false), (PumpStatus::Exit(1), NotifierCommand::Nothing));
}

#[test]
fn dispatch_failure_ends_the_loop_with_the_os_code() {
    let mut app = Recorder::default();
    let mut event_loop = EventLoop::new();
    event_loop.pump_begin(&mut app);
    app.log.clear();
    let start = Instant::now();
    assert!(!event_loop.poll_events_with_timeout(
        Some(Duration::ZERO),
        &mut app,
        start,
        WaitOutcome::DispatchFailed(Some(104))
    ));
    assert_eq!(event_loop.exit_code(), Some(104));
    assert_eq!(app.log, vec![]);
    event_loop.set_exit_code(7);
    assert!(!event_loop.poll_events_with_timeout(
        None,
        &mut app,
        start,
        WaitOutcome::DispatchFailed(None)
    ));
    assert_eq!(event_loop.exit_code(), Some(1));
}

#[test]
fn exit_in_the_first_iteration_skips_the_wait() {
    let mut app = Recorder::default();
    app.exit_on_new_events = true;
    let mut event_loop = EventLoop::new();
    assert!(!event_loop.pump_begin(&mut app));
    assert_eq!(event_loop.pump_end(true), (PumpStatus::Exit(0), NotifierCommand::Nothing));
    // The loop stopped running: the next pump starts it again.
    app.log.clear();
    app.exit_on_new_events = false;
    event_loop.run_begin();
    assert!(!event_loop.pump_begin(&mut app));
    assert_eq!(app.log, vec![Callback::NewEvents(StartCause::Init), Callback::AboutToWait]);
    // A running loop does not start over.
    app.log.clear();
    assert!(event_loop.pump_begin(&mut app));
    assert_eq!(app.log, vec![]);
}

#[test]
fn notifier_is_spawned_once_and_reused() {
    let mut app = Recorder::default();
    let mut event_loop = EventLoop::new();
    event_loop.pump_begin(&mut app);
    assert_eq!(event_loop.pump_end(false), (PumpStatus::Continue, NotifierCommand::Nothing));
    assert_eq!(event_loop.shutdown_notifier(), None);
    assert_eq!(event_loop.pump_end(true), (PumpStatus::Continue, NotifierCommand::SpawnAndMonitor));
    event_loop.notifier_started(true, true);
    assert_eq!(event_loop.pump_end(true), (PumpStatus::Continue, NotifierCommand::Monitor));
    assert_eq!(event_loop.pump_end(true), (PumpStatus::Continue, NotifierCommand::Monitor));
    // Once there is one it monitors after unbounded pumps too.
    assert_eq!(event_loop.pump_end(false), (PumpStatus::Continue, NotifierCommand::Monitor));
    assert_eq!(
        event_loop.shutdown_notifier(),
        Some(ShutdownSteps { write_waker: true, join: true })
    );
    assert_eq!(
        event_loop.shutdown_notifier(),
        Some(ShutdownSteps { write_waker: true, join: false })
    );
}

#[test]
fn exit_state_round_trip() {
    let mut target = ActiveEventLoop::new();
    assert_eq!(target.control_flow(), ControlFlow::Wait);
    assert!(!target.exiting());
    assert_eq!(target.exit_code(), None);
    target.exit();
    assert!(target.exiting());
    assert_eq!(target.exit_code(), Some(0));
    target.set_exit_code(9);
    assert_eq!(target.exit_code(), Some(9));
    target.clear_exit();
    assert!(!target.exiting());
    target.set_control_flow(ControlFlow::Poll);
    assert_eq!(target.control_flow(), ControlFlow::Poll);
    // A proxy raises the signal of the handle it is used on.
    assert!(!target.take_wake_up());
    let proxy = target.create_proxy();
    proxy.wake(&mut target);
    proxy.wake(&mut target);
    assert!(target.take_wake_up());
    assert!(!target.take_wake_up());
}

/// Implements only what a handler must.
struct Minimal {
    redraws: usize,
}

impl ApplicationHandler for Minimal {
    fn can_create_surfaces(&mut self, event_loop: &mut ActiveEventLoop, _windows: &WinitState) {
        event_loop.create_window(LogicalSize::new(1, 1));
    }

    fn window_event(
        &mut self,
        _event_loop: &mut ActiveEventLoop,
        _windows: &WinitState,
        _window_id: WindowId,
        event: &mut WindowEvent,
    ) {
        if *event == WindowEvent::RedrawRequested {
            self.redraws += 1;
        }
    }
}

#[test]
fn optional_callbacks_default_to_nothing() {
    let mut app = Minimal { redraws: 0 };
    let mut event_loop = EventLoop::new();
    assert!(!event_loop.pump_begin(&mut app));
    assert_eq!(app.redraws, 1);
    event_loop.state_mut().push_event(Event::DeviceEvent { event: DeviceEvent(1) });
    event_loop.window_target_mut().wake_up();
    event_loop.dispatch_pings();
    assert!(!event_loop.single_iteration(&mut app, StartCause::Poll));
    assert_eq!(app.redraws, 1);
    assert_eq!(event_loop.pump_end(false), (PumpStatus::Continue, NotifierCommand::Nothing));
}

/// Asks for two windows when surfaces are offered and remembers what the
/// handle announced.
#[derive(Default)]
struct Creator {
    announced: Vec<Option<WindowId>>,
    seen: Vec<usize>,
    redraws: Vec<WindowId>,
}

impl ApplicationHandler for Creator {
    fn can_create_surfaces(&mut self, event_loop: &mut ActiveEventLoop, windows: &WinitState) {
        self.announced.push(event_loop.create_window(LogicalSize::new(10, 10)));
        self.announced.push(event_loop.create_window(LogicalSize::new(20, 20)));
        // The windows come into being when the callback returns.
        self.seen.push(windows.window_count());
    }

    fn window_event(
        &mut self,
        _event_loop: &mut ActiveEventLoop,
        windows: &WinitState,
        window_id: WindowId,
        event: &mut WindowEvent,
    ) {
        self.seen.push(windows.window_count());
        if *event == WindowEvent::RedrawRequested {
            self.redraws.push(window_id);
        }
    }
}

#[test]
fn windows_get_the_identities_that_the_handle_announced() {
    let mut app = Creator::default();
    let mut event_loop = EventLoop::new();
    // A window made before the loop runs takes the first identity.
    assert_eq!(event_loop.create_window(LogicalSize::new(1, 1)), Some(WindowId(0)));
    event_loop.single_iteration(&mut app, StartCause::Init);
    assert_eq!(app.announced, vec![Some(WindowId(1)), Some(WindowId(2))]);
    assert_eq!(app.seen, vec![1, 3, 3, 3]);
    assert_eq!(app.redraws, vec![WindowId(0), WindowId(1), WindowId(2)]);
    let state = event_loop.state_ref();
    assert_eq!(state.window(WindowId(1)).unwrap().window.surface_size(), LogicalSize::new(10, 10));
    assert_eq!(state.window(WindowId(2)).unwrap().window.surface_size(), LogicalSize::new(20, 20));
}

#[test]
fn requests_left_between_iterations_are_carried_out_first() {
    let mut app = Recorder::default();
    let (mut event_loop, id) = loop_with_window(&mut app);
    event_loop.window_target_mut().request_redraw(id);
    event_loop.window_target_mut().request_surface_size(id, LogicalSize::new(7, 9));
    // Nothing has happened to the window yet.
    assert!(!event_loop.state_ref().window(id).unwrap().requests.redraw_requested);
    event_loop.single_iteration(&mut app, StartCause::Poll);
    assert_eq!(
        app.log,
        vec![
            Callback::NewEvents(StartCause::Poll),
            window_event(id, WindowEvent::RedrawRequested),
            Callback::AboutToWait,
        ]
    );
    assert_eq!(
        event_loop.state_ref().window(id).unwrap().window.surface_size(),
        LogicalSize::new(7, 9)
    );
}

#[test]
fn a_window_dropped_in_a_callback_is_destroyed_in_the_same_iteration() {
    let mut app = Recorder::default();
    let (mut event_loop, id) = loop_with_window(&mut app);
    app.drop_on_close = true;
    assert!(event_loop.state_mut().close_requested(id));
    event_loop.single_iteration(&mut app, StartCause::Poll);
    assert_eq!(
        app.log,
        vec![
            Callback::NewEvents(StartCause::Poll),
            window_event(id, WindowEvent::CloseRequested),
            window_event(id, WindowEvent::Destroyed),
            Callback::AboutToWait,
        ]
    );
    assert!(!event_loop.state_ref().contains(id));
    // The identity is not given out again.
    assert_eq!(event_loop.create_window(LogicalSize::new(1, 1)), Some(WindowId(1)));
}

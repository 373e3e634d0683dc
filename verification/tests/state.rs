use winit_wayland::event::DeviceEvent;
use winit_wayland::event::Event;
use winit_wayland::event::LogicalSize;
use winit_wayland::event::PhysicalSize;
use winit_wayland::event::WindowEvent;
use winit_wayland::event::WindowId;
use winit_wayland::sink::EventSink;
use winit_wayland::state::WinitState;
use winit_wayland::window::FrameCallbackState;
use winit_wayland::window::WindowCompositorUpdate;
use winit_wayland::window::WindowRequests;
use winit_wayland::window::WindowState;

fn input(id: u64, payload: u64) -> Event {
    Event::WindowEvent { window_id: WindowId(id), event: WindowEvent::Input(payload) }
}

#[test]
fn sink_keeps_arrival_order() {
    let mut sink = EventSink::new();
    assert!(sink.is_empty());
    sink.push_window_event(WindowEvent::Input(1), WindowId(0));
    sink.push_device_event(DeviceEvent(2));
    sink.push_window_event(WindowEvent::CloseRequested, WindowId(1));
    assert_eq!(sink.len(), 3);
    let events = sink.drain();
    assert_eq!(
        events,
        vec![
            input(0, 1),
            Event::DeviceEvent { event: DeviceEvent(2) },
            Event::WindowEvent { window_id: WindowId(1), event: WindowEvent::CloseRequested },
        ]
    );
    assert!(sink.is_empty());
    assert_eq!(sink.drain(), vec![]);
}

#[test]
fn sink_append_moves_everything() {
    let mut a = EventSink::default();
    let mut b = EventSink::new();
    a.push_device_event(DeviceEvent(1));
    b.push_device_event(DeviceEvent(2));
    b.push_device_event(DeviceEvent(3));
    a.append(&mut b);
    assert!(b.is_empty());
    assert_eq!(
        a.drain(),
        vec![
            Event::DeviceEvent { event: DeviceEvent(1) },
            Event::DeviceEvent { event: DeviceEvent(2) },
            Event::DeviceEvent { event: DeviceEvent(3) },
        ]
    );
}

#[test]
fn window_state_starts_idle_at_scale_one() {
    let window = WindowState::new(LogicalSize::new(640, 480));
    assert_eq!(window.scale_factor(), 120);
    assert_eq!(window.surface_size(), LogicalSize::new(640, 480));
    assert_eq!(window.physical_size(), PhysicalSize::new(640, 480));
    assert_eq!(window.frame_callback_state(), FrameCallbackState::Idle);
    assert!(window.frame_dirty);
}

#[test]
fn refresh_frame_is_idempotent() {
    let mut window = WindowState::new(LogicalSize::new(1, 1));
    assert!(window.refresh_frame());
    assert!(!window.refresh_frame());
    assert!(!window.refresh_frame());
    window.mark_frame_dirty();
    assert!(window.refresh_frame());
    assert!(!window.refresh_frame());
}

#[test]
fn zero_scale_is_refused() {
    let mut window = WindowState::new(LogicalSize::new(10, 10));
    window.refresh_frame();
    assert!(!window.set_scale_factor(0));
    assert_eq!(window.scale_factor(), 120);
    assert!(!window.frame_dirty);
    assert!(window.set_scale_factor(240));
    assert_eq!(window.scale_factor(), 240);
    assert_eq!(window.physical_size(), PhysicalSize::new(20, 20));
    assert!(window.frame_dirty);
}

#[test]
fn frame_callback_state_machine() {
    let mut window = WindowState::new(LogicalSize::new(1, 1));
    window.frame_callback_requested();
    assert_eq!(window.frame_callback_state(), FrameCallbackState::Requested);
    window.frame_callback_received();
    assert_eq!(window.frame_callback_state(), FrameCallbackState::Received);
    window.frame_callback_reset();
    assert_eq!(window.frame_callback_state(), FrameCallbackState::Idle);
}

#[test]
fn requests_are_taken_once() {
    let mut requests = WindowRequests::new();
    assert!(!requests.take_closed());
    assert!(!requests.take_redraw_requested());
    requests.closed = true;
    requests.redraw_requested = true;
    assert!(requests.take_redraw_requested());
    assert!(!requests.take_redraw_requested());
    assert!(requests.take_closed());
    assert!(!requests.take_closed());
}

#[test]
fn windows_get_fresh_identities() {
    let mut state = WinitState::new();
    assert_eq!(state.window_count(), 0);
    let a = state.create_window(LogicalSize::new(10, 10));
    let b = state.create_window(LogicalSize::new(20, 20));
    assert_eq!(a, Some(WindowId(0)));
    assert_eq!(b, Some(WindowId(1)));
    assert!(state.contains(WindowId(0)));
    assert!(state.contains(WindowId(1)));
    assert!(!state.contains(WindowId(2)));
    assert_eq!(state.window_count(), 2);
    let mut ids = Vec::new();
    state.window_ids(&mut ids);
    assert_eq!(ids, vec![WindowId(0), WindowId(1)]);
}

#[test]
fn identities_are_not_reused_after_destruction() {
    let mut state = WinitState::new();
    let a = state.create_window(LogicalSize::new(10, 10)).unwrap();
    assert!(state.close_window(a));
    assert_eq!(state.process_window(a), Some(WindowEvent::Destroyed));
    assert!(!state.contains(a));
    let b = state.create_window(LogicalSize::new(10, 10)).unwrap();
    assert_ne!(a, b);
    assert_eq!(b, WindowId(1));
}

#[test]
fn scale_change_then_resize_merge_into_one_update() {
    let mut state = WinitState::new();
    let id = state.create_window(LogicalSize::new(100, 50)).unwrap();
    assert!(state.scale_factor_changed(id, 240));
    assert!(state.configure(id, LogicalSize::new(200, 100)));
    let mut updates = Vec::new();
    state.take_compositor_updates(&mut updates);
    assert_eq!(
        updates,
        vec![WindowCompositorUpdate {
            window_id: id,
            resized: true,
            scale_changed: true,
            close_window: false,
        }]
    );
    let mut again = Vec::new();
    state.take_compositor_updates(&mut again);
    assert_eq!(again, vec![]);
}

#[test]
fn updates_keep_first_observed_order() {
    let mut state = WinitState::new();
    let a = state.create_window(LogicalSize::new(1, 1)).unwrap();
    let b = state.create_window(LogicalSize::new(1, 1)).unwrap();
    assert!(state.close_requested(b));
    assert!(state.scale_factor_changed(a, 180));
    assert!(state.configure(b, LogicalSize::new(2, 2)));
    assert!(state.configure(a, LogicalSize::new(1, 1)));
    let mut updates = Vec::new();
    state.take_compositor_updates(&mut updates);
    assert_eq!(
        updates,
        vec![
            WindowCompositorUpdate {
                window_id: b,
                resized: true,
                scale_changed: false,
                close_window: true,
            },
            WindowCompositorUpdate {
                window_id: a,
                resized: false,
                scale_changed: true,
                close_window: false,
            },
        ]
    );
}

#[test]
fn notifications_for_unknown_windows_are_dropped() {
    let mut state = WinitState::new();
    let gone = WindowId(5);
    assert!(!state.scale_factor_changed(gone, 240));
    assert!(!state.configure(gone, LogicalSize::new(1, 1)));
    assert!(!state.close_requested(gone));
    assert!(!state.frame_callback_received(gone));
    assert!(!state.request_redraw(gone));
    assert!(!state.close_window(gone));
    assert!(!state.push_event(input(5, 1)));
    assert_eq!(state.request_surface_size(gone, LogicalSize::new(1, 1)), None);
    assert_eq!(state.process_window(gone), None);
    assert!(!state.refresh_window(gone));
    let mut updates = Vec::new();
    state.take_compositor_updates(&mut updates);
    assert!(updates.is_empty());
}

#[test]
fn zero_scale_notification_is_dropped() {
    let mut state = WinitState::new();
    let id = state.create_window(LogicalSize::new(1, 1)).unwrap();
    assert!(!state.scale_factor_changed(id, 0));
    assert_eq!(state.window(id).unwrap().window.scale_factor(), 120);
    let mut updates = Vec::new();
    state.take_compositor_updates(&mut updates);
    assert!(updates.is_empty());
}

#[test]
fn sinks_take_raw_events_only() {
    let mut state = WinitState::new();
    let id = state.create_window(LogicalSize::new(1, 1)).unwrap();
    assert!(state.push_event(input(0, 7)));
    assert!(state.push_event(Event::DeviceEvent { event: DeviceEvent(8) }));
    assert!(!state.push_event(Event::WindowEvent { window_id: id, event: WindowEvent::Destroyed }));
    assert!(!state.push_event(Event::WindowEvent {
        window_id: id,
        event: WindowEvent::RedrawRequested,
    }));
    assert!(!state.push_window_event(Event::WindowEvent {
        window_id: id,
        event: WindowEvent::CloseRequested,
    }));
    assert!(state.push_window_event(input(0, 9)));
    let mut sink = EventSink::new();
    state.take_events(&mut sink);
    assert_eq!(sink.drain(), vec![input(0, 7), Event::DeviceEvent { event: DeviceEvent(8) }]);
    state.take_window_events(&mut sink);
    assert_eq!(sink.drain(), vec![input(0, 9)]);
}

#[test]
fn queue_dispatched_marks_only_when_something_arrived() {
    let mut state = WinitState::new();
    let id = state.create_window(LogicalSize::new(1, 1)).unwrap();
    state.queue_dispatched(true);
    assert!(!state.dispatched_events());
    state.push_event(input(0, 1));
    state.queue_dispatched(false);
    assert!(!state.dispatched_events());
    state.queue_dispatched(true);
    assert!(state.dispatched_events());
    state.clear_dispatched();
    assert!(!state.dispatched_events());
    let mut sink = EventSink::new();
    state.take_events(&mut sink);
    state.close_requested(id);
    state.queue_dispatched(true);
    assert!(state.dispatched_events());
}

#[test]
fn wake_ups_mark_the_state() {
    let mut state = WinitState::new();
    state.awakener_woke();
    assert!(state.dispatched_events());
    assert!(!state.take_proxy_wake_up());
    state.clear_dispatched();
    state.proxy_woke();
    assert!(state.dispatched_events());
    assert!(state.take_proxy_wake_up());
    assert!(!state.take_proxy_wake_up());
}

#[test]
fn destroying_a_window_purges_what_is_pending_for_it() {
    let mut state = WinitState::new();
    let a = state.create_window(LogicalSize::new(1, 1)).unwrap();
    let b = state.create_window(LogicalSize::new(1, 1)).unwrap();
    state.push_event(input(0, 1));
    state.push_event(input(1, 2));
    state.push_event(Event::DeviceEvent { event: DeviceEvent(3) });
    state.push_window_event(input(0, 4));
    state.close_requested(a);
    state.close_requested(b);
    state.close_window(a);
    assert_eq!(state.process_window(a), Some(WindowEvent::Destroyed));
    assert_eq!(state.process_window(a), None);
    assert!(!state.contains(a));
    assert!(state.contains(b));
    let mut updates = Vec::new();
    state.take_compositor_updates(&mut updates);
    assert_eq!(updates.len(), 1);
    assert_eq!(updates[0].window_id, b);
    let mut sink = EventSink::new();
    state.take_events(&mut sink);
    assert_eq!(sink.drain(), vec![input(1, 2), Event::DeviceEvent { event: DeviceEvent(3) }]);
    state.take_window_events(&mut sink);
    assert_eq!(sink.drain(), vec![]);
}

#[test]
fn no_redraw_while_a_frame_callback_is_outstanding() {
    let mut state = WinitState::new();
    let id = state.create_window(LogicalSize::new(1, 1)).unwrap();
    state.request_redraw(id);
    state.frame_callback_requested(id);
    assert_eq!(state.process_window(id), None);
    assert_eq!(state.process_window(id), None);
    // The request stays until the callback arrives.
    assert!(state.window(id).unwrap().requests.redraw_requested);
    state.frame_callback_received(id);
    assert_eq!(state.process_window(id), Some(WindowEvent::RedrawRequested));
    let entry = state.window(id).unwrap();
    assert_eq!(entry.window.frame_callback_state(), FrameCallbackState::Idle);
    assert!(!entry.requests.redraw_requested);
    assert!(!entry.window.frame_dirty);
}

#[test]
fn redraw_is_delivered_once_per_request() {
    let mut state = WinitState::new();
    let id = state.create_window(LogicalSize::new(1, 1)).unwrap();
    // A new window has its frame to draw.
    assert_eq!(state.process_window(id), Some(WindowEvent::RedrawRequested));
    assert_eq!(state.process_window(id), None);
    assert!(!state.refresh_window(id));
    state.request_redraw(id);
    state.request_redraw(id);
    assert_eq!(state.process_window(id), Some(WindowEvent::RedrawRequested));
    assert_eq!(state.process_window(id), None);
}

#[test]
fn refresh_window_turns_a_dirty_frame_into_a_request() {
    let mut state = WinitState::new();
    let id = state.create_window(LogicalSize::new(1, 1)).unwrap();
    assert!(state.refresh_window(id));
    assert!(!state.refresh_window(id));
    let entry = state.window(id).unwrap();
    assert!(entry.requests.redraw_requested);
    assert!(!entry.window.frame_dirty);
    state.mark_frame_dirty(id);
    assert!(state.refresh_window(id));
}

#[test]
fn surface_sizes_follow_the_scale() {
    let mut state = WinitState::new();
    let id = state.create_window(LogicalSize::new(100, 50)).unwrap();
    state.scale_factor_changed(id, 180);
    assert_eq!(state.scaled_surface_size(id), Some((PhysicalSize::new(150, 75), 180)));
    assert_eq!(
        state.request_surface_size(id, LogicalSize::new(10, 20)),
        Some(PhysicalSize::new(15, 30))
    );
    assert!(state.override_surface_size(id, PhysicalSize::new(300, 150)));
    assert_eq!(state.window(id).unwrap().window.surface_size(), LogicalSize::new(200, 100));
    assert_eq!(state.surface_resized(id), Some(PhysicalSize::new(300, 150)));
    assert!(state.window(id).unwrap().requests.redraw_requested);
    assert_eq!(state.scaled_surface_size(WindowId(9)), None);
    assert_eq!(state.surface_resized(WindowId(9)), None);
}

use winit_wayland::event::Event;
use winit_wayland::event::DeviceEvent;
use winit_wayland::event::LogicalSize;
use winit_wayland::event::PhysicalSize;
use winit_wayland::event::SurfaceSizeWriter;
use winit_wayland::event::WindowEvent;
use winit_wayland::event::WindowId;
use winit_wayland::event::SCALE_DENOMINATOR;

#[test]
fn scale_one_keeps_the_size() {
    let size = LogicalSize::new(800, 600);
    assert_eq!(size.to_physical(SCALE_DENOMINATOR), PhysicalSize::new(800, 600));
    assert_eq!(PhysicalSize::new(800, 600).to_logical(120), size);
}

#[test]
fn fractional_scale_rounds_to_nearest() {
    assert_eq!(LogicalSize::new(800, 600).to_physical(180), PhysicalSize::new(1200, 900));
    // 3 * 1.25 = 3.75, 5 * 1.25 = 6.25
    assert_eq!(LogicalSize::new(3, 5).to_physical(150), PhysicalSize::new(4, 6));
    // 1 * 1.5 = 1.5 rounds up, 0 stays 0
    assert_eq!(LogicalSize::new(1, 0).to_physical(180), PhysicalSize::new(2, 0));
}

#[test]
fn to_logical_divides_by_the_scale() {
    assert_eq!(PhysicalSize::new(1200, 900).to_logical(180), LogicalSize::new(800, 600));
    // 5 / 2 = 2.5 rounds up, 4 / 2 = 2
    assert_eq!(PhysicalSize::new(5, 4).to_logical(240), LogicalSize::new(3, 2));
    // 7 / 1.5 = 4.67
    assert_eq!(PhysicalSize::new(7, 1).to_logical(180), LogicalSize::new(5, 1));
}

#[test]
fn sizes_saturate() {
    assert_eq!(
        LogicalSize::new(u32::MAX, 1).to_physical(240),
        PhysicalSize::new(u32::MAX, 2)
    );
    assert_eq!(
        LogicalSize::new(u32::MAX, u32::MAX).to_physical(u32::MAX),
        PhysicalSize::new(u32::MAX, u32::MAX)
    );
    assert_eq!(PhysicalSize::new(u32::MAX, 1).to_logical(1), LogicalSize::new(u32::MAX, 120));
}

#[test]
fn window_id_round_trips() {
    assert_eq!(WindowId::from_raw(7).into_raw(), 7);
    assert_eq!(WindowId::from_raw(7), WindowId(7));
    assert!(WindowId(1) < WindowId(2));
}

#[test]
fn surface_size_writer_keeps_the_last_request() {
    let mut writer = SurfaceSizeWriter::new(PhysicalSize::new(10, 20));
    assert_eq!(writer.surface_size(), PhysicalSize::new(10, 20));
    writer.request_surface_size(PhysicalSize::new(30, 40));
    writer.request_surface_size(PhysicalSize::new(50, 60));
    assert_eq!(writer.surface_size(), PhysicalSize::new(50, 60));
}

#[test]
fn event_window_id() {
    let bound = Event::WindowEvent { window_id: WindowId(4), event: WindowEvent::Input(1) };
    assert_eq!(bound.window_id(), Some(WindowId(4)));
    assert_eq!(Event::DeviceEvent { event: DeviceEvent(9) }.window_id(), None);
}

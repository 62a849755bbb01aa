use winit::dispatch::{Dispatcher, Route};
use winit::event_loop::{ControlFlow, Event, StartCause, WindowEvent};
use winit::monitor::{clamp_mode_index, reselect_video_mode, VideoMode};
use winit::window::WindowId;
use winit::DeviceId;

fn mode(width: u32, height: u32) -> VideoMode {
    VideoMode { width, height, bit_depth: 32, refresh_rate: 60 }
}

#[test]
fn clamp_index_to_last_mode() {
    assert_eq!(clamp_mode_index(5, 3), Some(2));
    assert_eq!(clamp_mode_index(3, 3), Some(2));
    assert_eq!(clamp_mode_index(1, 3), Some(1));
    assert_eq!(clamp_mode_index(0, 1), Some(0));
    assert_eq!(clamp_mode_index(usize::MAX, 4), Some(3));
    assert_eq!(clamp_mode_index(2, 0), None);
}

#[test]
fn reselect_reports_a_changed_mode() {
    let old = vec![mode(800, 600), mode(1024, 768), mode(1920, 1080)];
    let new = vec![mode(800, 600), mode(1280, 720)];
    let r = reselect_video_mode(&old, 2, &new);
    assert_eq!(r.index, Some(1));
    assert!(r.changed);
    let r = reselect_video_mode(&old, 0, &new);
    assert_eq!(r.index, Some(0));
    assert!(!r.changed);
    let r = reselect_video_mode(&old, 1, &new);
    assert_eq!(r.index, Some(1));
    assert!(r.changed);
}

#[test]
fn reselect_on_monitor_without_modes() {
    let old = vec![mode(800, 600)];
    let r = reselect_video_mode(&old, 0, &vec![]);
    assert_eq!(r.index, None);
    assert!(r.changed);
    let r = reselect_video_mode(&vec![], 0, &vec![]);
    assert_eq!(r.index, None);
    assert!(!r.changed);
}

#[test]
fn dispatch_forwards_and_unregisters() {
    let a = WindowId(0);
    let b = WindowId(1);
    let mut d = Dispatcher::new();
    assert_eq!(d.control_flow(), ControlFlow::Exit);
    d.register(a);
    d.register(b);
    d.register(a);
    assert_eq!(d.control_flow(), ControlFlow::Wait);
    let moved = WindowEvent::Moved { x: 1, y: 2 };
    assert_eq!(d.route(Event::WindowEvent { window_id: b, event: moved }), Route::Forward(b, moved));
    assert_eq!(d.route(Event::NewEvents(StartCause::Poll)), Route::Ignore);
    assert_eq!(d.route(Event::DeviceEvent { device_id: DeviceId::dummy() }), Route::Ignore);
    let esc_down = WindowEvent::KeyboardInput { scancode: 53, pressed: true, escape: true };
    assert_eq!(d.route(Event::WindowEvent { window_id: a, event: esc_down }), Route::Forward(a, esc_down));
    let esc_up = WindowEvent::KeyboardInput { scancode: 53, pressed: false, escape: true };
    assert_eq!(d.route(Event::WindowEvent { window_id: a, event: esc_up }), Route::Unregister(a));
    assert!(!d.is_registered(a));
    assert_eq!(d.route(Event::WindowEvent { window_id: a, event: moved }), Route::Ignore);
    assert_eq!(
        d.route(Event::WindowEvent { window_id: b, event: WindowEvent::CloseRequested }),
        Route::Unregister(b)
    );
    assert_eq!(d.control_flow(), ControlFlow::Exit);
}

#[test]
fn dispatch_unregisters_on_destroyed() {
    let a = WindowId(4);
    let mut d = Dispatcher::new();
    d.register(a);
    assert_eq!(d.route(Event::WindowEvent { window_id: a, event: WindowEvent::Destroyed }), Route::Unregister(a));
    assert!(!d.is_registered(a));
}

use zero_ui_core::app::{
    App, AppExtension, AppProcess, AppShutdown, ControlFlow, ExtensionInfo, RunningApp, ShutdownCancelled, ThreadState,
    TimeoutOrAppShutdown, UpdateInfo, UpdateStep,
};
use zero_ui_core::app::{FOCUS_MANAGER_ID, MOUSE_MANAGER_ID};
use zero_ui_core::image::IMAGE_MANAGER_ID;
use zero_ui_core::keyboard::KEYBOARD_MANAGER_ID;
use zero_ui_core::window::WindowId;

struct Mouse;
impl AppExtension for Mouse {
    fn id(&self) -> u64 {
        1
    }
}

struct Raw;
impl AppExtension for Raw {
    fn id(&self) -> u64 {
        2
    }
    fn enable_device_events(&self) -> bool {
        true
    }
}

#[test]
fn extensions_and_device_events() {
    let app = App::blank();
    assert!(!app.extended_with(1));
    let app = app.extend(ExtensionInfo::of(&Mouse));
    assert!(app.extended_with(1));
    assert!(!app.device_events());
    let app = app.extend(ExtensionInfo::of(&Raw));
    assert!(app.device_events());
    let app2 = App::blank().enable_device_events();
    assert!(app2.device_events());
    assert!(Mouse.is_or_contain(1));
    assert!(!Mouse.is_or_contain(2));
}

#[test]
fn running_app_ids_are_stable() {
    let app = App::blank();
    let mut thread = ThreadState::new();
    let mut running = RunningApp::start(&app, &mut thread);
    let next = std::cell::Cell::new(100u64);
    let new_unique = || {
        let v = next.get();
        next.set(v + 1);
        WindowId(v)
    };
    let a = running.window_id(7, &new_unique);
    let b = running.window_id(8, &new_unique);
    assert_ne!(a, b);
    assert_eq!(running.window_id(7, &new_unique), a);
    let d = running.device_id(9, &new_unique);
    assert_ne!(d, a);
    assert_eq!(running.device_id(9, &new_unique), d);
    assert_eq!(running.window_id(9, &new_unique), d);
    assert_eq!(running.device_id(7, &new_unique), a);
    assert_eq!(a, WindowId(100));
    assert_eq!(next.get(), 103);
}

#[test]
fn update_loop_steps() {
    let app = App::blank();
    let mut thread = ThreadState::new();
    let mut running = RunningApp::start(&app, &mut thread);
    assert!(running.begin_update());
    assert!(!running.begin_update());
    running.ctx();
    assert!(running.begin_update());
    assert_eq!(running.update_step(UpdateInfo { update: true, display_update: true, wake_time: None }), UpdateStep::Update);
    assert_eq!(running.update_step(UpdateInfo { update: false, display_update: false, wake_time: Some(5) }), UpdateStep::UpdateDisplay);
    assert_eq!(running.update_step(UpdateInfo { update: false, display_update: false, wake_time: Some(5) }), UpdateStep::Done);
    assert_eq!(running.control_flow(), ControlFlow::WaitUntil(5));
    assert!(!running.shutdown_answered(true));
    assert_eq!(running.control_flow(), ControlFlow::WaitUntil(5));
    assert!(running.shutdown_answered(false));
    assert_eq!(running.control_flow(), ControlFlow::Exit);
}

#[test]
fn shutdown_requests_share_response() {
    let mut p = AppProcess::new();
    let (r1, send1) = p.shutdown();
    let (r2, send2) = p.shutdown();
    assert_eq!(r1, r2);
    assert!(send1);
    assert!(!send2);
    assert_eq!(p.take_requests(), Some(r1));
    assert_eq!(p.take_requests(), None);
    let (r3, send3) = p.shutdown();
    assert_ne!(r3, r1);
    assert!(send3);
}

#[test]
fn error_messages() {
    assert_eq!(AppShutdown::new(5u8).to_text(), "cannot send/receive because the app has shutdown");
    assert_eq!(AppShutdown::new(5u8).0, 5);
    assert_eq!(TimeoutOrAppShutdown::from_recv_timeout(true), TimeoutOrAppShutdown::AppShutdown);
    assert_eq!(TimeoutOrAppShutdown::from_recv_timeout(false).to_text(), "failed send, timeout");
    assert_eq!(ShutdownCancelled.to_text(), "shutdown cancelled");
    assert!(App::is_running(false, true));
    assert!(!App::is_running(false, false));
}

#[test]
fn one_app_per_thread() {
    let app = App::blank();
    let mut thread = ThreadState::new();
    assert!(!thread.app_running());
    let running = RunningApp::start(&app, &mut thread);
    assert!(thread.app_running());
    running.end(&mut thread);
    assert!(!thread.app_running());
    let again = RunningApp::start(&app, &mut thread);
    assert!(thread.app_running());
    again.end(&mut thread);
}

#[test]
fn default_app_extensions() {
    let app = App::default();
    assert_eq!(app.extensions.len(), 7);
    assert_eq!(app.extensions[0].id, MOUSE_MANAGER_ID);
    assert_eq!(app.extensions[1].id, KEYBOARD_MANAGER_ID);
    assert_eq!(app.extensions[5].id, FOCUS_MANAGER_ID);
    assert_eq!(app.extensions[6].id, IMAGE_MANAGER_ID);
    assert!(app.extended_with(IMAGE_MANAGER_ID));
    assert!(!app.device_events());
}

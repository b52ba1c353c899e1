use zero_ui_core::keyboard::{InteractionPath, Interactivity, Key, Keyboard, KeyboardManager, ModifiersState, RawKeyInputArgs, CTRL, SHIFT};
use zero_ui_core::ui_list::WidgetId;
use zero_ui_core::window::{DeviceId, WindowId};

fn raw(key: Option<Key>, code: u32, pressed: bool, timestamp: u64) -> RawKeyInputArgs {
    RawKeyInputArgs { window_id: WindowId(1), device_id: DeviceId(2), scan_code: code, pressed, key, timestamp }
}

fn focus() -> Option<InteractionPath> {
    Some(InteractionPath { window_id: WindowId(1), path: vec![(WidgetId(10), Interactivity { bits: 0 })] })
}

#[test]
fn modifiers_flags() {
    let mut m = ModifiersState::from_bits(SHIFT | CTRL);
    assert!(m.shift());
    assert!(m.ctrl());
    assert!(!m.alt());
    assert!(!m.logo());
    assert!(m.take_shift());
    assert!(!m.shift());
    assert!(!m.take_shift());
    assert!(m.ctrl());
    assert!(m.take(ModifiersState::from_bits(CTRL)));
    assert!(m.is_empty());
    assert_eq!(ModifiersState::from_key(Key::LAlt).bits(), 0b0001_0000);
    assert_eq!(ModifiersState::from_key(Key::Other(5)).bits(), 0);
}

#[test]
fn modifier_press_release_restores() {
    let mut k = Keyboard::new();
    let e = k.key_input(raw(Some(Key::LShift), 42, true, 0), focus());
    let changed = e.modifiers_changed.unwrap();
    assert_eq!(changed.prev_modifiers.bits(), 0);
    assert_eq!(changed.modifiers.bits(), 1);
    assert!(k.current_modifiers().shift());
    let e = k.key_input(raw(Some(Key::LShift), 42, false, 10), focus());
    assert_eq!(e.modifiers_changed.unwrap().modifiers.bits(), 0);
    assert!(k.current_modifiers().is_empty());
    assert!(k.codes.is_empty());
    assert!(k.keys.is_empty());
}

#[test]
fn key_input_targets_focused_window_only() {
    let mut k = Keyboard::new();
    let e = k.key_input(raw(Some(Key::Other(65)), 30, true, 0), focus());
    let input = e.key_input.unwrap();
    assert_eq!(input.scan_code, 30);
    assert!(!input.is_repeat);
    assert!(input.is_enabled(WidgetId(10)));
    assert!(e.modifiers_changed.is_none());
    let other = Some(InteractionPath { window_id: WindowId(9), path: vec![] });
    let e = k.key_input(raw(Some(Key::Other(65)), 30, false, 5), other);
    assert!(e.key_input.is_none());
    let e = k.key_input(raw(None, 31, true, 5), None);
    assert!(e.key_input.is_none());
}

#[test]
fn key_repeat_within_twice_the_delay() {
    let mut k = Keyboard::new();
    k.set_repeat_delay(100);
    let _ = k.key_input(raw(Some(Key::Other(65)), 30, true, 1000), focus());
    let e = k.key_input(raw(Some(Key::Other(65)), 30, true, 1150), focus());
    assert!(e.key_input.unwrap().is_repeat);
    let e = k.key_input(raw(Some(Key::Other(65)), 30, true, 1400), focus());
    assert!(!e.key_input.unwrap().is_repeat);
}

#[test]
fn reset_releases_modifiers() {
    let mut k = Keyboard::new();
    let _ = k.key_input(raw(Some(Key::RCtrl), 50, true, 0), None);
    assert!(k.current_modifiers().ctrl());
    assert!(k.reset().is_none());
    assert!(k.current_modifiers().is_empty());
    assert_eq!(k.modifiers.bits(), 0);
    assert!(k.codes.is_empty());
}

#[test]
fn manager_routes_char_input_and_focus() {
    let args = KeyboardManager::char_input(WindowId(1), 'a', focus()).unwrap();
    assert_eq!(args.character, 'a');
    assert!(args.is_enabled(WidgetId(10)));
    assert!(KeyboardManager::char_input(WindowId(2), 'a', focus()).is_none());
    assert!(KeyboardManager::char_input(WindowId(1), 'a', None).is_none());

    let mut k = Keyboard::new();
    let _ = k.key_input(raw(Some(Key::LAlt), 60, true, 0), None);
    KeyboardManager::window_focus_changed(&mut k, Some(WindowId(1)));
    assert!(k.current_modifiers().alt());
    KeyboardManager::window_focus_changed(&mut k, None);
    assert!(k.current_modifiers().is_empty());
    KeyboardManager::view_process_inited(&mut k, 250, false);
    assert_eq!(k.repeat_delay, 250);
    let _ = k.key_input(raw(Some(Key::LAlt), 60, true, 0), None);
    KeyboardManager::view_process_inited(&mut k, 300, true);
    assert!(k.current_modifiers().is_empty());
    assert_eq!(k.repeat_delay, 300);
}

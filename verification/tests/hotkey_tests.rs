use ontext::hotkey::{HotkeyDetector, HotkeyEvent, Key};
use ontext::platform::Platform;

// Ctrl + Shift + Space (Windows and Linux).

#[test]
fn test_hotkey_start_emits_event() {
    let mut det = HotkeyDetector::new(Platform::Other);
    assert_eq!(det.key_down(&Key::ControlLeft), None);
    assert_eq!(det.key_down(&Key::ShiftLeft), None);
    assert_eq!(det.key_down(&Key::Space), Some(HotkeyEvent::Start));
}

#[test]
fn test_hotkey_stop_emits_event() {
    let mut det = HotkeyDetector::new(Platform::Other);
    det.key_down(&Key::ControlLeft);
    det.key_down(&Key::ShiftLeft);
    det.key_down(&Key::Space);
    assert_eq!(det.key_up(&Key::Space), Some(HotkeyEvent::Stop));
}

#[test]
fn test_no_event_without_full_combo() {
    let mut det = HotkeyDetector::new(Platform::Other);
    assert_eq!(det.key_down(&Key::ShiftLeft), None);
    assert_eq!(det.key_down(&Key::Space), None);
}

#[test]
fn test_start_only_emitted_once_while_held() {
    let mut det = HotkeyDetector::new(Platform::Other);
    det.key_down(&Key::ControlLeft);
    det.key_down(&Key::ShiftLeft);
    let first = det.key_down(&Key::Space);
    let second = det.key_down(&Key::Space);
    assert_eq!(first, Some(HotkeyEvent::Start));
    assert_eq!(second, None);
}

#[test]
fn test_stop_only_emitted_once_after_release() {
    let mut det = HotkeyDetector::new(Platform::Other);
    det.key_down(&Key::ControlLeft);
    det.key_down(&Key::ShiftLeft);
    det.key_down(&Key::Space);
    let first = det.key_up(&Key::Space);
    let second = det.key_up(&Key::Space);
    assert_eq!(first, Some(HotkeyEvent::Stop));
    assert_eq!(second, None);
}

#[test]
fn test_right_modifier_keys_work() {
    let mut det = HotkeyDetector::new(Platform::Other);
    det.key_down(&Key::ControlRight);
    det.key_down(&Key::ShiftRight);
    assert_eq!(det.key_down(&Key::Space), Some(HotkeyEvent::Start));
}

// Cmd + Shift + Space (macOS).

#[test]
fn lib_test_hotkey_start_emits_event() {
    let mut det = HotkeyDetector::new(Platform::MacOs);
    assert_eq!(det.key_down(&Key::MetaLeft), None);
    assert_eq!(det.key_down(&Key::ShiftLeft), None);
    assert_eq!(det.key_down(&Key::Space), Some(HotkeyEvent::Start));
}

#[test]
fn lib_test_hotkey_stop_emits_event() {
    let mut det = HotkeyDetector::new(Platform::MacOs);
    det.key_down(&Key::MetaLeft);
    det.key_down(&Key::ShiftLeft);
    det.key_down(&Key::Space);
    assert_eq!(det.key_up(&Key::Space), Some(HotkeyEvent::Stop));
}

#[test]
fn lib_test_no_event_without_full_combo() {
    let mut det = HotkeyDetector::new(Platform::MacOs);
    assert_eq!(det.key_down(&Key::ShiftLeft), None);
    assert_eq!(det.key_down(&Key::Space), None);
}

#[test]
fn lib_test_start_only_emitted_once_while_held() {
    let mut det = HotkeyDetector::new(Platform::MacOs);
    det.key_down(&Key::MetaLeft);
    det.key_down(&Key::ShiftLeft);
    let first = det.key_down(&Key::Space);
    let second = det.key_down(&Key::Space);
    assert_eq!(first, Some(HotkeyEvent::Start));
    assert_eq!(second, None);
}

#[test]
fn lib_test_stop_only_emitted_once_after_release() {
    let mut det = HotkeyDetector::new(Platform::MacOs);
    det.key_down(&Key::MetaLeft);
    det.key_down(&Key::ShiftLeft);
    det.key_down(&Key::Space);
    let first = det.key_up(&Key::Space);
    let second = det.key_up(&Key::Space);
    assert_eq!(first, Some(HotkeyEvent::Stop));
    assert_eq!(second, None);
}

#[test]
fn lib_test_right_modifier_keys_work() {
    let mut det = HotkeyDetector::new(Platform::MacOs);
    det.key_down(&Key::MetaRight);
    det.key_down(&Key::ShiftRight);
    assert_eq!(det.key_down(&Key::Space), Some(HotkeyEvent::Start));
}

// Further cases.

#[test]
fn control_does_not_trigger_on_macos() {
    let mut det = HotkeyDetector::new(Platform::MacOs);
    assert_eq!(det.key_down(&Key::ControlLeft), None);
    assert_eq!(det.key_down(&Key::ShiftLeft), None);
    assert_eq!(det.key_down(&Key::Space), None);
    assert!(!det.combo_held());
}

#[test]
fn meta_does_not_trigger_on_windows() {
    let mut det = HotkeyDetector::new(Platform::Windows);
    det.key_down(&Key::MetaLeft);
    det.key_down(&Key::ShiftLeft);
    assert_eq!(det.key_down(&Key::Space), None);
}

#[test]
fn events_alternate_over_repeated_holds() {
    let mut det = HotkeyDetector::new(Platform::Other);
    let mut events = Vec::new();
    for _ in 0..3 {
        for k in [Key::ControlLeft, Key::ShiftRight, Key::Space] {
            if let Some(e) = det.key_down(&k) {
                events.push(e);
            }
        }
        for k in [Key::ShiftRight, Key::Space, Key::ControlLeft] {
            if let Some(e) = det.key_up(&k) {
                events.push(e);
            }
        }
    }
    assert_eq!(
        events,
        vec![
            HotkeyEvent::Start,
            HotkeyEvent::Stop,
            HotkeyEvent::Start,
            HotkeyEvent::Stop,
            HotkeyEvent::Start,
            HotkeyEvent::Stop
        ]
    );
}

#[test]
fn other_keys_never_cause_events() {
    let mut det = HotkeyDetector::new(Platform::Other);
    det.key_down(&Key::ControlLeft);
    det.key_down(&Key::ShiftLeft);
    assert_eq!(det.key_down(&Key::Space), Some(HotkeyEvent::Start));
    assert_eq!(det.key_down(&Key::Other(65)), None);
    assert_eq!(det.key_up(&Key::Other(65)), None);
    assert_eq!(det.key_up(&Key::Other(66)), None);
    assert!(det.combo_held());
}

#[test]
fn releasing_one_shift_keeps_combo_while_other_held() {
    let mut det = HotkeyDetector::new(Platform::Other);
    det.key_down(&Key::ControlLeft);
    det.key_down(&Key::ShiftLeft);
    det.key_down(&Key::ShiftRight);
    assert_eq!(det.key_down(&Key::Space), Some(HotkeyEvent::Start));
    assert_eq!(det.key_up(&Key::ShiftLeft), None);
    assert_eq!(det.key_up(&Key::ShiftRight), Some(HotkeyEvent::Stop));
}

#[test]
fn release_of_unpressed_key_does_nothing() {
    let mut det = HotkeyDetector::new(Platform::Other);
    assert_eq!(det.key_up(&Key::Space), None);
    assert!(!det.combo_held());
}

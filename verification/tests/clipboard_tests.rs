use ontext::clipboard::{
    keystroke_outcome, paste, paste_modifier, paste_outcome, paste_success, simulate_paste, stage_failure,
    KeySession, PasteKey, PasteResult, PasteStage, TranscriptResult,
};
use ontext::platform::Platform;

#[test]
fn paste_result_success_has_none_error() {
    let r = PasteResult {
        success: true,
        error: None,
    };
    assert!(r.success);
    assert!(r.error.is_none());
}

#[test]
fn paste_result_failure_has_error_string() {
    let r = PasteResult {
        success: false,
        error: Some("clipboard init failed: display not found".to_string()),
    };
    assert!(!r.success);
    assert!(r.error.is_some());
    assert!(!r.error.unwrap().is_empty());
}

#[test]
fn paste_result_failure_error_never_empty_string() {
    let r = PasteResult {
        success: false,
        error: Some("some error".to_string()),
    };
    if let Some(msg) = r.error {
        assert!(!msg.is_empty(), "error must never be an empty string");
    }
}

#[test]
fn stage_failures_name_the_stage() {
    let r = stage_failure(PasteStage::ClipboardInit, "display not found");
    assert!(!r.success);
    assert_eq!(r.error.unwrap(), "clipboard init failed: display not found");
    let r = stage_failure(PasteStage::ClipboardWrite, "x");
    assert_eq!(r.error.unwrap(), "clipboard write failed: x");
    let r = stage_failure(PasteStage::PasteSimulation, "");
    assert_eq!(r.error.unwrap(), "paste simulation failed: ");
}

#[test]
fn success_has_no_error() {
    let r = paste_success();
    assert!(r.success);
    assert!(r.error.is_none());
}

#[test]
fn simulation_refused_on_unsupported_platform() {
    // The input system may not be reachable where the tests run.
    if let Ok(mut input) = KeySession::open() {
        assert_eq!(
            simulate_paste(&mut input, Platform::Other),
            Err("unsupported platform for paste simulation".to_string())
        );
    }
}

#[test]
fn paste_fails_on_unsupported_platform() {
    let r = paste(
        TranscriptResult {
            text: "hello".to_string(),
            language: "en".to_string(),
        },
        Platform::Other,
    );
    assert!(!r.success);
    let msg = r.error.unwrap();
    assert!(!msg.is_empty());
    assert!(
        msg.starts_with("clipboard init failed: ")
            || msg.starts_with("clipboard write failed: ")
            || msg.starts_with("paste simulation failed: ")
    );
}

#[test]
fn paste_modifier_per_platform() {
    assert_eq!(paste_modifier(Platform::MacOs), Some(PasteKey::Meta));
    assert_eq!(paste_modifier(Platform::Windows), Some(PasteKey::Control));
    assert_eq!(paste_modifier(Platform::Other), None);
}

#[test]
fn keystroke_release_failure_reported_first() {
    assert_eq!(keystroke_outcome(Ok(()), Ok(())), Ok(()));
    assert_eq!(
        keystroke_outcome(Err("no v".to_string()), Ok(())),
        Err("key click failed: no v".to_string())
    );
    assert_eq!(
        keystroke_outcome(Err("no v".to_string()), Err("stuck".to_string())),
        Err("key release failed: stuck".to_string())
    );
    assert_eq!(
        keystroke_outcome(Ok(()), Err("stuck".to_string())),
        Err("key release failed: stuck".to_string())
    );
}

#[test]
fn paste_outcome_reports_the_first_failed_step() {
    let r = paste_outcome(Err("no display".to_string()), Err("w".to_string()), Err("s".to_string()));
    assert!(!r.success);
    assert_eq!(r.error.unwrap(), "clipboard init failed: no display");
    let r = paste_outcome(Ok(()), Err("busy".to_string()), Err("s".to_string()));
    assert!(!r.success);
    assert_eq!(r.error.unwrap(), "clipboard write failed: busy");
    let r = paste_outcome(Ok(()), Ok(()), Err("key press failed: denied".to_string()));
    assert!(!r.success);
    assert_eq!(r.error.unwrap(), "paste simulation failed: key press failed: denied");
    let r = paste_outcome(Ok(()), Ok(()), Ok(()));
    assert!(r.success);
    assert!(r.error.is_none());
}

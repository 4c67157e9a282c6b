use ontext::clipboard::PasteResult;
use ontext::focus::FocusTracker;
use ontext::greeting::greet;
use ontext::pipeline::{pipeline_start, PipelineState};

#[test]
fn greeting_text() {
    assert_eq!(greet("Ada"), "Hello, Ada! You've been greeted from Rust!");
    assert_eq!(greet(""), "Hello, ! You've been greeted from Rust!");
}

#[test]
fn session_without_speech_reports_no_speech() {
    let mut s = PipelineState::new();
    assert_eq!(s.on_transcript(Ok(String::new())), None);
    assert_eq!(s.on_transcript(Err("timeout".to_string())), None);
    assert!(!s.any_text());
    let r = s.finish();
    assert!(!r.success);
    assert_eq!(r.error.unwrap(), "no speech detected in recording");
}

#[test]
fn session_reports_last_paste() {
    let mut s = PipelineState::new();
    assert_eq!(s.on_transcript(Ok("hello".to_string())), Some("hello".to_string()));
    s.on_pasted(PasteResult { success: false, error: Some("clipboard write failed: busy".to_string()) });
    assert_eq!(s.on_transcript(Ok("world".to_string())), Some("world".to_string()));
    s.on_pasted(PasteResult { success: true, error: None });
    assert_eq!(s.on_transcript(Ok(String::new())), None);
    assert!(s.any_text());
    let r = s.finish();
    assert!(r.success);
    assert!(r.error.is_none());
}

#[test]
fn session_needs_api_key() {
    assert_eq!(pipeline_start(Some("key".to_string())).ok(), Some("key".to_string()));
    let r = pipeline_start(None).unwrap_err();
    assert!(!r.success);
    assert_eq!(r.error.unwrap(), "VITE_GROQ not set in environment");
}

#[test]
fn focus_tracker_skips_own_app() {
    let mut t = FocusTracker::new(Some("com.ontext.app".to_string()));
    assert_eq!(t.last_focused_app(), None);
    t.observe(Some("com.apple.TextEdit".to_string()));
    assert_eq!(t.last_focused_app(), Some("com.apple.TextEdit".to_string()));
    t.observe(Some("com.ontext.app".to_string()));
    assert_eq!(t.last_focused_app(), Some("com.apple.TextEdit".to_string()));
    t.observe(None);
    assert_eq!(t.last_focused_app(), Some("com.apple.TextEdit".to_string()));
    t.observe(Some("com.apple.Safari".to_string()));
    assert_eq!(t.last_focused_app(), Some("com.apple.Safari".to_string()));
}

#[test]
fn focus_tracker_without_own_id_notes_everything() {
    let mut t = FocusTracker::new(None);
    t.observe(Some("a".to_string()));
    assert_eq!(t.last_focused_app(), Some("a".to_string()));
}

pub mod audio;
pub mod clipboard;
pub mod focus;
pub mod greeting;
pub mod hotkey;
pub mod hotkey_laws;
pub mod pipeline;
pub mod platform;
pub mod session_laws;
pub mod transcribe;
pub mod vad;
pub mod vad_laws;
pub mod wav_laws;

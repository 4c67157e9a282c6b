use vstd::prelude::*;

use crate::clipboard::PasteResult;

verus! {

/// The failure reported when a recording held no usable speech.
pub open spec fn is_no_speech_result(r: PasteResult) -> bool {
    &&& !r.success
    &&& r.error matches Some(m) && m@ == "no speech detected in recording"@
}

/// The failure reported when no API key is configured.
pub open spec fn is_missing_key_result(r: PasteResult) -> bool {
    &&& !r.success
    &&& r.error matches Some(m) && m@ == "VITE_GROQ not set in environment"@
}

/// The decisions of a recording session: the audio is cut into speech
/// segments, each is transcribed, and each non-empty transcript is pasted.
/// The session reports the outcome of the last paste, or that no speech was
/// detected when nothing was pasted.
pub struct PipelineState {
    any_text: bool,
    last_result: PasteResult,
}

impl PipelineState {
    /// Whether some transcript was pasted.
    pub closed spec fn pasted_any(&self) -> bool {
        self.any_text
    }

    /// What the session reports if it ends now.
    pub closed spec fn outcome(&self) -> PasteResult {
        self.last_result
    }

    /// A session in which nothing has been transcribed yet.
    pub fn new() -> (s: Self)
        ensures
            !s.pasted_any(),
            is_no_speech_result(s.outcome()),
    {
        PipelineState {
            any_text: false,
            last_result: PasteResult {
                success: false,
                error: Some("no speech detected in recording".to_owned()),
            },
        }
    }

    /// Decides what to do with the outcome of transcribing one speech
    /// segment: a non-empty transcript is to be pasted (and then reported
    /// with `on_pasted`); an empty transcript or a failed transcription is
    /// dropped.
    pub fn on_transcript(&mut self, transcript: Result<String, String>) -> (to_paste: Option<String>)
        ensures
            to_paste == match transcript {
                Ok(t) => if t@.len() > 0 { Some(t) } else { None },
                Err(_) => None,
            },
            final(self).pasted_any() == (old(self).pasted_any() || to_paste is Some),
            final(self).outcome() == old(self).outcome(),
    {
        match transcript {
            Ok(t) => {
                if !t.as_str().is_empty() {
                    self.any_text = true;
                    Some(t)
                } else {
                    None
                }
            },
            Err(_) => None,
        }
    }

    /// Records the outcome of pasting a transcript.
    pub fn on_pasted(&mut self, result: PasteResult)
        ensures
            final(self).outcome() == result,
            final(self).pasted_any() == old(self).pasted_any(),
    {
        self.last_result = result;
    }

    /// Whether some transcript was pasted so far.
    pub fn any_text(&self) -> (b: bool)
        ensures
            b == self.pasted_any(),
    {
        self.any_text
    }

    /// Ends the session with its report.
    pub fn finish(self) -> (r: PasteResult)
        ensures
            r == self.outcome(),
    {
        self.last_result
    }
}

/// Whether a session can start: it needs the API key, and reports the
/// missing key otherwise.
pub fn pipeline_start(api_key: Option<String>) -> (r: Result<String, PasteResult>)
    ensures
        match api_key {
            Some(k) => r == Ok::<String, PasteResult>(k),
            None => r matches Err(f) && is_missing_key_result(f),
        },
{
    match api_key {
        Some(k) => Ok(k),
        None => Err(PasteResult {
            success: false,
            error: Some("VITE_GROQ not set in environment".to_owned()),
        }),
    }
}

} // verus!

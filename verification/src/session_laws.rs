use vstd::prelude::*;

use crate::clipboard::{
    is_paste_outcome, keystroke_sent, modifier_of, names_stage, stage_prefix, KeyAction, PasteKey, PasteResult, PasteStage,
};
use crate::platform::Platform;
use crate::focus::observed;

verus! {

/// A paste reports an error exactly when it fails, and that error is never
/// an empty string.
pub proof fn lemma_failure_message_nonempty(r: PasteResult)
    requires
        is_paste_outcome(r),
    ensures
        r.success <==> r.error is None,
        r.error matches Some(m) ==> m@.len() > 0,
{
    reveal_strlit("clipboard init failed: ");
    reveal_strlit("clipboard write failed: ");
    reveal_strlit("paste simulation failed: ");
    if !r.success {
        let stage = choose|stage: PasteStage| #[trigger] names_stage(stage, r.error->0@);
        assert(stage_prefix(stage).len() > 0);
    }
}

/// The application remembered for restoring focus is never this program
/// itself, whatever comes to the front.
pub proof fn lemma_never_remembers_self(
    own: Seq<char>,
    last: Option<Seq<char>>,
    frontmost: Option<Seq<char>>,
)
    requires
        last != Some(own),
    ensures
        observed(Some(own), last, frontmost) != Some(own),
{
}

/// The most recent application in front, other than this program, is the
/// one remembered: seeing it again, or seeing nothing or this program, keeps it.
pub proof fn lemma_observation_keeps_latest(
    own: Option<Seq<char>>,
    last: Option<Seq<char>>,
    f: Seq<char>,
)
    requires
        own != Some(f),
    ensures
        observed(own, last, Some(f)) == Some(f),
        observed(own, Some(f), None) == Some(f),
        own matches Some(o) ==> observed(own, Some(f), Some(o)) == Some(f),
{
}

/// A paste keystroke that succeeded handed exactly three actions to the input
/// system after those before it: the platform's modifier down (Cmd on macOS,
/// Ctrl on Windows), V clicked, the modifier up. A failed one handed over the
/// modifier's press first, and nothing else but possibly the V click and the
/// modifier's release after it.
pub proof fn lemma_keystroke_actions(
    platform: Platform,
    before: Seq<(PasteKey, KeyAction)>,
    after: Seq<(PasteKey, KeyAction)>,
    k: PasteKey,
    r: Result<(), String>,
)
    requires
        modifier_of(platform) == Some(k),
        keystroke_sent(before, after, k, r),
    ensures
        platform == Platform::MacOs ==> k == PasteKey::Meta,
        platform == Platform::Windows ==> k == PasteKey::Control,
        after.subrange(0, before.len() as int) == before,
        after[before.len() as int] == (k, KeyAction::Press),
        r is Ok ==> {
            &&& after.len() == before.len() + 3
            &&& after[before.len() as int + 1] == (PasteKey::V, KeyAction::Click)
            &&& after[before.len() as int + 2] == (k, KeyAction::Release)
        },
        after.len() == before.len() + 1 || after.len() == before.len() + 3,
{
    assert(after.subrange(0, before.len() as int) =~= before);
}

} // verus!

use vstd::prelude::*;
use vstd::string::StringExecFns;

use crate::platform::Platform;

verus! {

#[verifier::external_type_specification]
#[verifier::external_body]
pub struct ExClipboard(arboard::Clipboard);

#[verifier::external_type_specification]
#[verifier::external_body]
pub struct ExEnigo(enigo::Enigo);

/// The text to paste, with the language it was spoken in.
#[derive(Debug)]
pub struct TranscriptResult {
    pub text: String,
    pub language: String,
}

/// The outcome of pasting: success, or the reason for the failure.
#[derive(Debug)]
pub struct PasteResult {
    pub success: bool,
    pub error: Option<String>,
}

/// The step of pasting that failed.
#[derive(Clone, Copy, Debug, PartialEq, Eq, Structural)]
pub enum PasteStage {
    ClipboardInit,
    ClipboardWrite,
    PasteSimulation,
}

/// The keys that the paste keystroke is made of.
#[derive(Clone, Copy, Debug, PartialEq, Eq, Structural)]
pub enum PasteKey {
    Meta,
    Control,
    V,
}

/// What a simulated key does.
#[derive(Clone, Copy, Debug, PartialEq, Eq, Structural)]
pub enum KeyAction {
    Press,
    Release,
    Click,
}

/// How the failure of a stage is introduced in the error message.
pub open spec fn stage_prefix(stage: PasteStage) -> Seq<char> {
    match stage {
        PasteStage::ClipboardInit => "clipboard init failed: "@,
        PasteStage::ClipboardWrite => "clipboard write failed: "@,
        PasteStage::PasteSimulation => "paste simulation failed: "@,
    }
}

/// The message `m` starts by naming `stage`.
pub open spec fn names_stage(stage: PasteStage, m: Seq<char>) -> bool {
    stage_prefix(stage).is_prefix_of(m)
}

/// How the failure of a key step is introduced in the error message.
pub open spec fn key_step_prefixes() -> Set<Seq<char>> {
    set!["key press failed: "@, "key release failed: "@, "key click failed: "@]
}

/// The message of a failed key step: one of their prefixes and the cause.
pub open spec fn is_key_failure(m: Seq<char>) -> bool {
    exists|p: Seq<char>| #[trigger] key_step_prefixes().contains(p) && p.is_prefix_of(m)
}

/// How the failure of a keystroke simulation step is introduced in the error
/// message: opening the input system, or a key step.
pub open spec fn simulation_prefixes() -> Set<Seq<char>> {
    key_step_prefixes().insert("input simulation init failed: "@)
}

/// The message of a failed keystroke simulation: one of its prefixes and the
/// cause, or the platform refusal.
pub open spec fn is_simulation_failure(m: Seq<char>) -> bool {
    ||| m == "unsupported platform for paste simulation"@
    ||| exists|p: Seq<char>| #[trigger] simulation_prefixes().contains(p) && p.is_prefix_of(m)
}

/// Opens the system clipboard with `arboard::Clipboard::new`. Whether that
/// works depends on the desktop session, so nothing is claimed; an error is
/// handed on as its message (`Display`).
#[verifier::external_body]
fn clipboard_open() -> Result<arboard::Clipboard, String> {
    arboard::Clipboard::new().map_err(|e| e.to_string())
}

/// Places `text` on the session's clipboard with
/// `arboard::Clipboard::set_text`, and records it among the texts handed to
/// the clipboard, and among those it accepted when the call returns `Ok`.
/// Nothing is claimed of the outcome; an error is handed on as its message.
#[verifier::external_body]
fn clipboard_set_text(session: &mut ClipboardSession, text: &str) -> (r: Result<(), String>)
    ensures
        final(session).attempted@ == old(session).attempted@.push(text@),
        r is Ok ==> final(session).placed@ == old(session).placed@.push(text@),
        r is Err ==> final(session).placed@ == old(session).placed@,
{
    let r = session.clipboard.set_text(text).map_err(|e| e.to_string());
    session.attempted = Ghost(session.attempted@.push(text@));
    if r.is_ok() {
        session.placed = Ghost(session.placed@.push(text@));
    }
    r
}

/// Connects to the input system with `enigo::Enigo::new` and default
/// settings. Nothing is claimed; an error is handed on as its message.
#[verifier::external_body]
fn input_open() -> Result<enigo::Enigo, String> {
    enigo::Enigo::new(&enigo::Settings::default()).map_err(|e| e.to_string())
}

/// Simulates one key action with `enigo::Keyboard::key` on the session's
/// input system, the key and the action converted one for one (`V` is the
/// character 'v'), and records that action as the latest handed over.
/// Nothing is claimed of the outcome; an error is handed on as its message.
#[verifier::external_body]
fn input_key(session: &mut KeySession, key: PasteKey, action: KeyAction) -> (r: Result<(), String>)
    ensures
        final(session).sent@ == old(session).sent@.push((key, action)),
{
    let k = match key {
        PasteKey::Meta => enigo::Key::Meta,
        PasteKey::Control => enigo::Key::Control,
        PasteKey::V => enigo::Key::Unicode('v'),
    };
    let direction = match action {
        KeyAction::Press => enigo::Direction::Press,
        KeyAction::Release => enigo::Direction::Release,
        KeyAction::Click => enigo::Direction::Click,
    };
    let r = enigo::Keyboard::key(&mut session.input, k, direction).map_err(|e| e.to_string());
    session.sent = Ghost(session.sent@.push((key, action)));
    r
}

/// The system clipboard, with the texts placed on it through this value.
pub struct ClipboardSession {
    clipboard: arboard::Clipboard,
    attempted: Ghost<Seq<Seq<char>>>,
    placed: Ghost<Seq<Seq<char>>>,
}

impl ClipboardSession {
    /// The texts handed to the clipboard through this value, oldest first,
    /// whether or not it accepted them.
    pub closed spec fn attempted_texts(&self) -> Seq<Seq<char>> {
        self.attempted@
    }

    /// The texts that the clipboard accepted through this value, oldest first.
    pub closed spec fn placed_texts(&self) -> Seq<Seq<char>> {
        self.placed@
    }

    /// Opens the system clipboard; nothing has been placed on it yet.
    pub fn open() -> (r: Result<ClipboardSession, String>)
        ensures
            r matches Ok(s) ==> s.attempted_texts() == Seq::<Seq<char>>::empty()
                && s.placed_texts() == Seq::<Seq<char>>::empty(),
    {
        match clipboard_open() {
            Ok(clipboard) => Ok(
                ClipboardSession { clipboard, attempted: Ghost(Seq::empty()), placed: Ghost(Seq::empty()) },
            ),
            Err(cause) => Err(cause),
        }
    }

    /// Hands `text` to the clipboard. When the clipboard accepts it, it is the
    /// latest text placed; otherwise nothing was placed.
    pub fn set_text(&mut self, text: &str) -> (r: Result<(), String>)
        ensures
            final(self).attempted_texts() == old(self).attempted_texts().push(text@),
            r is Ok ==> final(self).placed_texts() == old(self).placed_texts().push(text@),
            r is Err ==> final(self).placed_texts() == old(self).placed_texts(),
    {
        clipboard_set_text(self, text)
    }
}

/// The input system, with the key actions sent to it through this value.
pub struct KeySession {
    input: enigo::Enigo,
    sent: Ghost<Seq<(PasteKey, KeyAction)>>,
}

impl KeySession {
    /// The key actions handed to the input system through this value, in
    /// order, whether or not it reported them done.
    pub closed spec fn sent_keys(&self) -> Seq<(PasteKey, KeyAction)> {
        self.sent@
    }

    /// Connects to the input system; no key has been sent yet.
    pub fn open() -> (r: Result<KeySession, String>)
        ensures
            r matches Ok(s) ==> s.sent_keys() == Seq::<(PasteKey, KeyAction)>::empty(),
    {
        match input_open() {
            Ok(input) => Ok(KeySession { input, sent: Ghost(Seq::empty()) }),
            Err(cause) => Err(cause),
        }
    }

    /// Sends one key action, which becomes the latest sent.
    pub fn send(&mut self, key: PasteKey, action: KeyAction) -> (r: Result<(), String>)
        ensures
            final(self).sent_keys() == old(self).sent_keys().push((key, action)),
    {
        input_key(self, key, action)
    }
}

/// `prefix` followed by `cause`.
fn prefixed(prefix: &str, cause: &str) -> (m: String)
    ensures
        m@ == prefix@ + cause@,
{
    prefix.to_owned().concat(cause)
}

/// A successful paste.
pub fn paste_success() -> (r: PasteResult)
    ensures
        r.success,
        r.error is None,
{
    PasteResult { success: true, error: None }
}

/// A failed paste: the stage that failed, and the cause it reported.
pub fn stage_failure(stage: PasteStage, cause: &str) -> (r: PasteResult)
    ensures
        !r.success,
        r.error matches Some(m) && m@ == stage_prefix(stage) + cause@,
        names_stage(stage, r.error->0@),
{
    let prefix = match stage {
        PasteStage::ClipboardInit => "clipboard init failed: ",
        PasteStage::ClipboardWrite => "clipboard write failed: ",
        PasteStage::PasteSimulation => "paste simulation failed: ",
    };
    proof {
        reveal_strlit("clipboard init failed: ");
        reveal_strlit("clipboard write failed: ");
        reveal_strlit("paste simulation failed: ");
    }
    let m = prefixed(prefix, cause);
    assert(stage_prefix(stage).is_prefix_of(m@)) by {
        assert(m@.subrange(0, stage_prefix(stage).len() as int) =~= stage_prefix(stage));
    }
    PasteResult { success: false, error: Some(m) }
}

/// The modifier of the paste keystroke: Cmd on macOS, Ctrl on Windows, and
/// none elsewhere (pasting is not supported there).
pub open spec fn modifier_of(platform: Platform) -> Option<PasteKey> {
    match platform {
        Platform::MacOs => Some(PasteKey::Meta),
        Platform::Windows => Some(PasteKey::Control),
        Platform::Other => None,
    }
}

/// The modifier of the paste keystroke of `platform`.
pub fn paste_modifier(platform: Platform) -> (m: Option<PasteKey>)
    ensures
        m == modifier_of(platform),
{
    match platform {
        Platform::MacOs => Some(PasteKey::Meta),
        Platform::Windows => Some(PasteKey::Control),
        Platform::Other => None,
    }
}

/// The outcome of the keystroke once V was clicked and the modifier
/// released: a failed release is reported first, then a failed click.
pub fn keystroke_outcome(click: Result<(), String>, release: Result<(), String>) -> (r: Result<(), String>)
    ensures
        match (click, release) {
            (_, Err(cause)) => r matches Err(m) && m@ == "key release failed: "@ + cause@,
            (Err(cause), Ok(())) => r matches Err(m) && m@ == "key click failed: "@ + cause@,
            (Ok(()), Ok(())) => r is Ok,
        },
        r matches Err(m) ==> is_key_failure(m@),
{
    match release {
        Ok(()) => {},
        Err(cause) => {
            let m = prefixed("key release failed: ", cause.as_str());
            proof { lemma_prefix_of_concat("key release failed: "@, cause@); }
            assert(key_step_prefixes().contains("key release failed: "@));
            return Err(m);
        },
    }
    match click {
        Ok(()) => Ok(()),
        Err(cause) => {
            let m = prefixed("key click failed: ", cause.as_str());
            proof { lemma_prefix_of_concat("key click failed: "@, cause@); }
            assert(key_step_prefixes().contains("key click failed: "@));
            Err(m)
        },
    }
}

/// `p` starts `p + c`, and what follows it there is `c`.
proof fn lemma_prefix_of_concat(p: Seq<char>, c: Seq<char>)
    ensures
        p.is_prefix_of(p + c),
        (p + c).subrange(p.len() as int, (p + c).len() as int) == c,
{
    assert((p + c).subrange(0, p.len() as int) =~= p);
    assert((p + c).subrange(p.len() as int, (p + c).len() as int) =~= c);
}

/// The key actions that the paste keystroke with `modifier` sends after
/// `before`, giving `after` and the result `r`: the modifier down; if that
/// failed, nothing more and the press failure; otherwise V clicked and the
/// modifier up, whatever the click gave.
pub open spec fn keystroke_sent(
    before: Seq<(PasteKey, KeyAction)>,
    after: Seq<(PasteKey, KeyAction)>,
    modifier: PasteKey,
    r: Result<(), String>,
) -> bool {
    ||| after == before.push((modifier, KeyAction::Press))
        && (r matches Err(m) && "key press failed: "@.is_prefix_of(m@))
    ||| after == before + seq![
            (modifier, KeyAction::Press),
            (PasteKey::V, KeyAction::Click),
            (modifier, KeyAction::Release),
        ]
}

/// Sends the paste keystroke with `modifier`: the modifier down, V clicked,
/// the modifier up (even when the click failed).
pub fn paste_keystroke(session: &mut KeySession, modifier: PasteKey) -> (r: Result<(), String>)
    ensures
        keystroke_sent(old(session).sent_keys(), final(session).sent_keys(), modifier, r),
        r matches Err(m) ==> is_key_failure(m@),
{
    match session.send(modifier, KeyAction::Press) {
        Ok(()) => {},
        Err(cause) => {
            let m = prefixed("key press failed: ", cause.as_str());
            proof { lemma_prefix_of_concat("key press failed: "@, cause@); }
            assert(key_step_prefixes().contains("key press failed: "@));
            return Err(m);
        },
    }
    let click = session.send(PasteKey::V, KeyAction::Click);
    let release = session.send(modifier, KeyAction::Release);
    assert(session.sent_keys() =~= old(session).sent_keys() + seq![
        (modifier, KeyAction::Press),
        (PasteKey::V, KeyAction::Click),
        (modifier, KeyAction::Release),
    ]);
    keystroke_outcome(click, release)
}

/// Simulates the paste keystroke of `platform` on the input system: its
/// modifier down, V clicked, the modifier up (even when the click failed). A
/// platform without a paste modifier is refused, and no key is sent.
pub fn simulate_paste(input: &mut KeySession, platform: Platform) -> (r: Result<(), String>)
    ensures
        modifier_of(platform) is None ==> final(input).sent_keys() == old(input).sent_keys()
            && (r matches Err(m) && m@ == "unsupported platform for paste simulation"@),
        modifier_of(platform) matches Some(k)
            ==> keystroke_sent(old(input).sent_keys(), final(input).sent_keys(), k, r)
            && (r matches Err(m) ==> is_key_failure(m@)),
        r matches Err(m) ==> is_simulation_failure(m@),
        r matches Err(m) && m@ == "unsupported platform for paste simulation"@ ==> modifier_of(platform) is None,
{
    match paste_modifier(platform) {
        Some(modifier) => {
            let r = paste_keystroke(input, modifier);
            proof {
                if let Err(ref m) = r {
                    lemma_key_failure_is_simulation_failure(m@);
                }
            }
            r
        },
        None => {
            let m = "unsupported platform for paste simulation".to_owned();
            assert(is_simulation_failure(m@));
            Err(m)
        },
    }
}

/// A key failure is a failure of the simulation, and no platform refusal.
proof fn lemma_key_failure_is_simulation_failure(m: Seq<char>)
    requires
        is_key_failure(m),
    ensures
        is_simulation_failure(m),
        m != "unsupported platform for paste simulation"@,
{
    reveal_strlit("key press failed: ");
    reveal_strlit("key release failed: ");
    reveal_strlit("key click failed: ");
    reveal_strlit("unsupported platform for paste simulation");
    let p = choose|p: Seq<char>| #[trigger] key_step_prefixes().contains(p) && p.is_prefix_of(m);
    assert(simulation_prefixes().contains(p));
    assert(p[0] == 'k');
    assert(m[0] == p[0]);
}

/// The error when the input system could not be opened for the keystroke.
fn input_init_failure(cause: String) -> (m: String)
    ensures
        m@ == "input simulation init failed: "@ + cause@,
        is_simulation_failure(m@),
{
    let m = prefixed("input simulation init failed: ", cause.as_str());
    proof { lemma_prefix_of_concat("input simulation init failed: "@, cause@); }
    assert(simulation_prefixes().contains("input simulation init failed: "@));
    m
}

/// The result is a success without error, or a failure whose error starts
/// by naming the stage that failed.
pub open spec fn is_paste_outcome(r: PasteResult) -> bool {
    ||| r.success && r.error is None
    ||| !r.success && r.error is Some && exists|stage: PasteStage| #[trigger] names_stage(stage, r.error->0@)
}

/// `r` is the failure of `stage` with `cause`.
pub open spec fn is_stage_failure(r: PasteResult, stage: PasteStage, cause: Seq<char>) -> bool {
    !r.success && (r.error matches Some(m) && m@ == stage_prefix(stage) + cause)
}

/// What follows the stage's prefix in the message of a failed simulation.
pub open spec fn simulation_cause(m: Seq<char>) -> Seq<char> {
    m.subrange(stage_prefix(PasteStage::PasteSimulation).len() as int, m.len() as int)
}

/// The outcome of a paste whose steps (opening the clipboard, placing the
/// text, simulating the keystroke) gave these results: the first failed step
/// is reported with its cause, and the steps after it are not looked at.
pub fn paste_outcome(init: Result<(), String>, write: Result<(), String>, simulation: Result<(), String>) -> (r: PasteResult)
    ensures
        match (init, write, simulation) {
            (Err(cause), _, _) => is_stage_failure(r, PasteStage::ClipboardInit, cause@),
            (Ok(()), Err(cause), _) => is_stage_failure(r, PasteStage::ClipboardWrite, cause@),
            (Ok(()), Ok(()), Err(cause)) => is_stage_failure(r, PasteStage::PasteSimulation, cause@),
            (Ok(()), Ok(()), Ok(())) => r.success && r.error is None,
        },
{
    match init {
        Err(cause) => return stage_failure(PasteStage::ClipboardInit, cause.as_str()),
        Ok(()) => {},
    }
    match write {
        Err(cause) => return stage_failure(PasteStage::ClipboardWrite, cause.as_str()),
        Ok(()) => {},
    }
    match simulation {
        Err(cause) => stage_failure(PasteStage::PasteSimulation, cause.as_str()),
        Ok(()) => paste_success(),
    }
}

/// Pastes the transcript's text through the opened clipboard: the text is
/// handed to the clipboard, and once the clipboard holds it the paste
/// keystroke of `platform` is simulated on a newly opened input system. The
/// first step that fails is reported; the language is not used.
pub fn paste_with(clipboard: &mut ClipboardSession, result: TranscriptResult, platform: Platform) -> (r: PasteResult)
    ensures
        final(clipboard).attempted_texts() == old(clipboard).attempted_texts().push(result.text@),
        ({
            ||| final(clipboard).placed_texts() == old(clipboard).placed_texts()
                && !r.success && (r.error matches Some(m) && names_stage(PasteStage::ClipboardWrite, m@))
            ||| final(clipboard).placed_texts() == old(clipboard).placed_texts().push(result.text@) && {
                ||| r.success && r.error is None
                ||| !r.success && (r.error matches Some(m) && names_stage(PasteStage::PasteSimulation, m@)
                    && is_simulation_failure(simulation_cause(m@)))
            }
        }),
        platform == Platform::Other ==> !r.success,
{
    match clipboard.set_text(result.text.as_str()) {
        Err(cause) => {
            let r = paste_outcome(Ok(()), Err(cause), Ok(()));
            proof { lemma_prefix_of_concat(stage_prefix(PasteStage::ClipboardWrite), cause@); }
            r
        },
        Ok(()) => {
            let simulation = match KeySession::open() {
                Ok(mut input) => simulate_paste(&mut input, platform),
                Err(cause) => Err(input_init_failure(cause)),
            };
            proof {
                if let Err(ref cause) = simulation {
                    lemma_prefix_of_concat(stage_prefix(PasteStage::PasteSimulation), cause@);
                }
            }
            paste_outcome(Ok(()), Ok(()), simulation)
        },
    }
}

/// Puts the transcript's text on the system clipboard and simulates the
/// paste keystroke of `platform`, reporting the first step that fails: a
/// clipboard that cannot be opened, a text it does not accept, or a failed
/// keystroke.
pub fn paste(result: TranscriptResult, platform: Platform) -> (r: PasteResult)
    ensures
        is_paste_outcome(r),
        platform == Platform::Other ==> !r.success,
{
    match ClipboardSession::open() {
        Err(cause) => {
            let r = paste_outcome(Err(cause), Ok(()), Ok(()));
            proof {
                lemma_prefix_of_concat(stage_prefix(PasteStage::ClipboardInit), cause@);
                assert(names_stage(PasteStage::ClipboardInit, r.error->0@));
            }
            r
        },
        Ok(mut clipboard) => {
            let r = paste_with(&mut clipboard, result, platform);
            proof {
                if !r.success {
                    if names_stage(PasteStage::ClipboardWrite, r.error->0@) {
                        assert(names_stage(PasteStage::ClipboardWrite, r.error->0@));
                    } else {
                        assert(names_stage(PasteStage::PasteSimulation, r.error->0@));
                    }
                }
            }
            r
        },
    }
}

} // verus!

use vstd::prelude::*;

verus! {

/// The desktop platform the program runs on. The hotkey combination and the
/// keystroke that pastes both depend on it.
#[derive(Clone, Copy, Debug, PartialEq, Eq, Structural)]
pub enum Platform {
    MacOs,
    Windows,
    Other,
}

} // verus!

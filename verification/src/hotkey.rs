use vstd::prelude::*;

use crate::platform::Platform;

verus! {

/// A keyboard key, as far as hotkey detection tells keys apart.
///
/// The keys that make up the hotkey have variants of their own; every other
/// key is `Other`, identified by a code that the caller chooses, so that
/// pressing and releasing it is tracked like any other key.
#[derive(Clone, Copy, Debug, PartialEq, Eq, Structural)]
pub enum Key {
    ShiftLeft,
    ShiftRight,
    ControlLeft,
    ControlRight,
    MetaLeft,
    MetaRight,
    Space,
    Other(u32),
}

/// What the hotkey reports: the combination was pressed, or released.
#[derive(Clone, Copy, Debug, PartialEq, Eq, Structural)]
pub enum HotkeyEvent {
    Start,
    Stop,
}

/// The global key listener could not be started.
#[derive(Debug)]
pub enum HotkeyError {
    ListenError(String),
}

/// The combination is held in the set of pressed keys `s`:
/// the platform's primary modifier (Cmd on macOS, Ctrl elsewhere),
/// either Shift, and Space.
pub open spec fn combo_held_in(platform: Platform, s: Set<Key>) -> bool {
    let modifier = match platform {
        Platform::MacOs => s.contains(Key::MetaLeft) || s.contains(Key::MetaRight),
        _ => s.contains(Key::ControlLeft) || s.contains(Key::ControlRight),
    };
    let shift = s.contains(Key::ShiftLeft) || s.contains(Key::ShiftRight);
    modifier && shift && s.contains(Key::Space)
}

/// The event that pressing `k` reports when the keys in `s` are held.
pub open spec fn press_event(platform: Platform, s: Set<Key>, k: Key) -> Option<HotkeyEvent> {
    if !combo_held_in(platform, s) && combo_held_in(platform, s.insert(k)) {
        Some(HotkeyEvent::Start)
    } else {
        None
    }
}

/// The event that releasing `k` reports when the keys in `s` are held.
pub open spec fn release_event(platform: Platform, s: Set<Key>, k: Key) -> Option<HotkeyEvent> {
    if combo_held_in(platform, s) && !combo_held_in(platform, s.remove(k)) {
        Some(HotkeyEvent::Stop)
    } else {
        None
    }
}

/// Index of `key` in `keys`, if it occurs there.
fn position_of(keys: &Vec<Key>, key: &Key) -> (pos: Option<usize>)
    ensures
        match pos {
            Some(i) => i < keys@.len() && keys@[i as int] == *key,
            None => !keys@.contains(*key),
        },
{
    let mut i: usize = 0;
    while i < keys.len()
        invariant
            i <= keys@.len(),
            forall|j: int| 0 <= j < i ==> keys@[j] != *key,
        decreases keys@.len() - i,
    {
        if keys[i] == *key {
            return Some(i);
        }
        i = i + 1;
    }
    None
}

/// Whether the combination for `platform` is held when `keys` are down.
fn combo_held_of(platform: Platform, keys: &Vec<Key>) -> (held: bool)
    ensures
        held == combo_held_in(platform, keys@.to_set()),
{
    let modifier = match platform {
        Platform::MacOs => position_of(keys, &Key::MetaLeft).is_some()
            || position_of(keys, &Key::MetaRight).is_some(),
        _ => position_of(keys, &Key::ControlLeft).is_some()
            || position_of(keys, &Key::ControlRight).is_some(),
    };
    let shift = position_of(keys, &Key::ShiftLeft).is_some()
        || position_of(keys, &Key::ShiftRight).is_some();
    let space = position_of(keys, &Key::Space).is_some();
    modifier && shift && space
}

/// Tracks which keys are down and detects the hotkey combination:
/// Cmd + Shift + Space on macOS, Ctrl + Shift + Space elsewhere.
pub struct HotkeyDetector {
    pressed: Vec<Key>,
    combo_active: bool,
    platform: Platform,
}

impl HotkeyDetector {
    /// The keys currently held down.
    pub closed spec fn pressed_keys(&self) -> Set<Key> {
        self.pressed@.to_set()
    }

    /// The platform whose combination this detector looks for.
    pub closed spec fn platform_spec(&self) -> Platform {
        self.platform
    }

    /// No key is recorded twice, and the combination counts as active
    /// exactly while it is held.
    pub closed spec fn wf(&self) -> bool {
        &&& self.pressed@.no_duplicates()
        &&& self.combo_active == combo_held_in(self.platform, self.pressed@.to_set())
    }

    /// A detector with no key held, for the given platform.
    pub fn new(platform: Platform) -> (det: Self)
        ensures
            det.wf(),
            det.pressed_keys() == Set::<Key>::empty(),
            det.platform_spec() == platform,
    {
        let det = HotkeyDetector { pressed: Vec::new(), combo_active: false, platform };
        assert(det.pressed@.to_set() =~= Set::<Key>::empty());
        det
    }

    /// Whether the combination is held right now.
    pub fn combo_held(&self) -> (held: bool)
        ensures
            held == combo_held_in(self.platform_spec(), self.pressed_keys()),
    {
        combo_held_of(self.platform, &self.pressed)
    }

    /// Records that `key` went down. Reports `Start` when this completes the
    /// combination, and nothing otherwise.
    pub fn key_down(&mut self, key: &Key) -> (ev: Option<HotkeyEvent>)
        requires
            old(self).wf(),
        ensures
            final(self).wf(),
            final(self).pressed_keys() == old(self).pressed_keys().insert(*key),
            final(self).platform_spec() == old(self).platform_spec(),
            ev == press_event(old(self).platform_spec(), old(self).pressed_keys(), *key),
    {
        let ghost before = self.pressed@;
        if position_of(&self.pressed, key).is_none() {
            self.pressed.push(*key);
            proof {
                assert forall|j: int, k: int| 0 <= j < k < self.pressed@.len() implies
                    self.pressed@[j] != self.pressed@[k] by {
                    if k == before.len() {
                        assert(before.contains(before[j]));
                    }
                }
            }
        }
        assert forall|x: Key| self.pressed@.contains(x) <==> (before.contains(x) || x == *key) by {
            if x == *key && !before.contains(x) {
                assert(self.pressed@[before.len() as int] == x);
            }
            if before.contains(x) {
                let j = choose|j: int| 0 <= j < before.len() && before[j] == x;
                assert(self.pressed@[j] == x);
            }
        }
        assert(self.pressed@.to_set() =~= before.to_set().insert(*key));
        let held = combo_held_of(self.platform, &self.pressed);
        if !self.combo_active && held {
            self.combo_active = true;
            Some(HotkeyEvent::Start)
        } else {
            self.combo_active = held;
            None
        }
    }

    /// Records that `key` went up. Reports `Stop` when this breaks an active
    /// combination, and nothing otherwise.
    pub fn key_up(&mut self, key: &Key) -> (ev: Option<HotkeyEvent>)
        requires
            old(self).wf(),
        ensures
            final(self).wf(),
            final(self).pressed_keys() == old(self).pressed_keys().remove(*key),
            final(self).platform_spec() == old(self).platform_spec(),
            ev == release_event(old(self).platform_spec(), old(self).pressed_keys(), *key),
    {
        let ghost before = self.pressed@;
        let was_active = self.combo_active;
        match position_of(&self.pressed, key) {
            Some(i) => {
                self.pressed.remove(i);
                proof {
                    assert forall|x: Key| self.pressed@.contains(x) <==> (before.contains(x) && x != *key) by {
                        if before.contains(x) && x != *key {
                            let j = choose|j: int| 0 <= j < before.len() && before[j] == x;
                            if j < i {
                                assert(self.pressed@[j] == x);
                            } else {
                                assert(j != i);
                                assert(self.pressed@[j - 1] == x);
                            }
                        }
                        if self.pressed@.contains(x) {
                            let j = choose|j: int| 0 <= j < self.pressed@.len() && self.pressed@[j] == x;
                            if j < i {
                                assert(before[j] == x);
                            } else {
                                assert(before[j + 1] == x);
                            }
                        }
                    }
                }
            },
            None => {},
        }
        assert(self.pressed@.to_set() =~= before.to_set().remove(*key));
        let held = combo_held_of(self.platform, &self.pressed);
        if was_active && !held {
            self.combo_active = false;
            Some(HotkeyEvent::Stop)
        } else {
            self.combo_active = held;
            None
        }
    }
}

} // verus!

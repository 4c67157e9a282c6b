use vstd::prelude::*;

use crate::hotkey::{combo_held_in, press_event, release_event, HotkeyEvent, Key};
use crate::platform::Platform;

verus! {

/// The keys held, and the events reported, after the detector has seen
/// `steps` starting from the held keys `s`. Each step is a key together
/// with `true` for going down and `false` for coming up.
pub open spec fn replay(platform: Platform, s: Set<Key>, steps: Seq<(bool, Key)>) -> (Set<Key>, Seq<HotkeyEvent>)
    decreases steps.len(),
{
    if steps.len() == 0 {
        (s, Seq::empty())
    } else {
        let (held, events) = replay(platform, s, steps.drop_last());
        let (down, k) = steps.last();
        if down {
            let ev = press_event(platform, held, k);
            (held.insert(k), if ev is Some { events.push(ev->0) } else { events })
        } else {
            let ev = release_event(platform, held, k);
            (held.remove(k), if ev is Some { events.push(ev->0) } else { events })
        }
    }
}

/// Whether a key is one of those that can make up the combination on `platform`.
pub open spec fn is_combo_key(platform: Platform, k: Key) -> bool {
    ||| k == Key::ShiftLeft
    ||| k == Key::ShiftRight
    ||| k == Key::Space
    ||| (platform == Platform::MacOs && (k == Key::MetaLeft || k == Key::MetaRight))
    ||| (platform != Platform::MacOs && (k == Key::ControlLeft || k == Key::ControlRight))
}

/// Pressing a key never breaks a held combination, and releasing one never
/// completes it.
pub proof fn lemma_combo_monotone(platform: Platform, s: Set<Key>, k: Key)
    ensures
        combo_held_in(platform, s) ==> combo_held_in(platform, s.insert(k)),
        !combo_held_in(platform, s) ==> !combo_held_in(platform, s.remove(k)),
{
}

/// Start and Stop alternate: from a detector with no key held, whatever the
/// keys pressed and released, the events reported are Start, Stop, Start, ...
/// and the combination is held exactly when the last event was a Start.
pub proof fn lemma_events_alternate(platform: Platform, steps: Seq<(bool, Key)>)
    ensures
        forall|i: int| 0 <= i < replay(platform, Set::empty(), steps).1.len() ==>
            #[trigger] replay(platform, Set::empty(), steps).1[i]
                == if i % 2 == 0 { HotkeyEvent::Start } else { HotkeyEvent::Stop },
        combo_held_in(platform, replay(platform, Set::empty(), steps).0)
            == (replay(platform, Set::empty(), steps).1.len() % 2 == 1),
    decreases steps.len(),
{
    if steps.len() > 0 {
        let prefix = steps.drop_last();
        lemma_events_alternate(platform, prefix);
        let (held, events) = replay(platform, Set::empty(), prefix);
        let (down, k) = steps.last();
        lemma_combo_monotone(platform, held, k);
    } else {
        assert(!combo_held_in(platform, Set::<Key>::empty()));
    }
}

/// While the combination is held, pressing any key (again) reports nothing:
/// Start is reported once per hold.
pub proof fn lemma_start_once_while_held(platform: Platform, s: Set<Key>, k: Key)
    requires
        combo_held_in(platform, s),
    ensures
        press_event(platform, s, k) is None,
{
}

/// While the combination is not held, releasing any key reports nothing:
/// Stop is reported once per release.
pub proof fn lemma_stop_once_after_release(platform: Platform, s: Set<Key>, k: Key)
    requires
        !combo_held_in(platform, s),
    ensures
        release_event(platform, s, k) is None,
{
    lemma_combo_monotone(platform, s, k);
}

/// Keys that are not part of the combination never cause an event.
pub proof fn lemma_other_keys_silent(platform: Platform, s: Set<Key>, k: Key)
    requires
        !is_combo_key(platform, k),
    ensures
        press_event(platform, s, k) is None,
        release_event(platform, s, k) is None,
{
    assert(combo_held_in(platform, s.insert(k)) == combo_held_in(platform, s));
    assert(combo_held_in(platform, s.remove(k)) == combo_held_in(platform, s));
}

/// Releasing a key that was just pressed (and was not held before) restores
/// the held keys, and a Start reported by the press is answered by a Stop.
pub proof fn lemma_release_undoes_press(platform: Platform, s: Set<Key>, k: Key)
    requires
        !s.contains(k),
    ensures
        s.insert(k).remove(k) == s,
        press_event(platform, s, k) == Some(HotkeyEvent::Start)
            ==> release_event(platform, s.insert(k), k) == Some(HotkeyEvent::Stop),
        press_event(platform, s, k) is None ==> release_event(platform, s.insert(k), k) is None,
{
    assert(s.insert(k).remove(k) =~= s);
}

/// The combination on macOS is Cmd (either), Shift (either) and Space; on
/// every other platform it is Ctrl (either), Shift (either) and Space. It is
/// held exactly when the held keys contain those.
pub proof fn lemma_combination_keys(platform: Platform, s: Set<Key>)
    ensures
        platform == Platform::MacOs ==> (combo_held_in(platform, s) <==> {
            &&& s.contains(Key::MetaLeft) || s.contains(Key::MetaRight)
            &&& s.contains(Key::ShiftLeft) || s.contains(Key::ShiftRight)
            &&& s.contains(Key::Space)
        }),
        platform != Platform::MacOs ==> (combo_held_in(platform, s) <==> {
            &&& s.contains(Key::ControlLeft) || s.contains(Key::ControlRight)
            &&& s.contains(Key::ShiftLeft) || s.contains(Key::ShiftRight)
            &&& s.contains(Key::Space)
        }),
{
}

/// With the platform's modifier and Shift held, pressing Space starts a
/// recording and releasing it again stops it, on every platform.
pub proof fn lemma_space_starts_and_stops(platform: Platform, s: Set<Key>)
    requires
        platform == Platform::MacOs ==> s.contains(Key::MetaLeft),
        platform != Platform::MacOs ==> s.contains(Key::ControlLeft),
        s.contains(Key::ShiftLeft),
        !s.contains(Key::Space),
    ensures
        press_event(platform, s, Key::Space) == Some(HotkeyEvent::Start),
        release_event(platform, s.insert(Key::Space), Key::Space) == Some(HotkeyEvent::Stop),
{
    lemma_combination_keys(platform, s);
    lemma_combination_keys(platform, s.insert(Key::Space));
    assert(s.insert(Key::Space).remove(Key::Space) =~= s);
    lemma_combination_keys(platform, s.insert(Key::Space).remove(Key::Space));
}

} // verus!

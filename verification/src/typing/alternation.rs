//! Typing presses a key only while it is up and releases it only while it is down.
//!
//! This holds when the modifiers the typed keys need have three different keys and no key the
//! text presses for a character is one of them. It fails otherwise: a key that is the first to
//! activate both Ctrl and Shift is pressed twice by the Ctrl+Shift+U prefix.
use vstd::prelude::*;

use crate::typing::held_keys::{
    held_after, key_set, lemma_held_after_concat, lemma_held_after_one, lemma_no_key_events,
    modifier_keys,
};
use crate::typing::{
    key_of, no_modifiers, press, release, spec_last_chunk_pause, spec_release_all_modifiers,
    spec_run, spec_send_char_keys, spec_send_mapped_key, spec_start, spec_step, spec_tap,
    spec_transition_modifier, spec_transition_modifiers, spec_type_char,
    spec_type_char_with_unicode_fallback, spec_typing_actions, ActiveModifiers, KeyState,
    TypingAction, TypingProgress,
};
use crate::xkb::keycode::PlatformKeycode;
use crate::xkb::mapping::{spec_key_for_char, MappedKey};
use crate::xkb::modifier::{AvailableModifiers, ModifierMapping, Modifiers};
use crate::xkb::unicode_fallback::{spec_lower_hex, UnicodeFallbackKeys};
use crate::xkb::Xkb;
use crate::{KwtyprConfig, UnicodeFallback};

verus! {

/// A step is allowed on the keys held: a press of a key that is up, a release of a key that is
/// down, or no key event.
pub open spec fn action_fits(held: Set<PlatformKeycode>, action: TypingAction) -> bool {
    match action {
        TypingAction::Key { keycode, state: KeyState::Pressed } => !held.contains(keycode),
        TypingAction::Key { keycode, state: KeyState::Released } => held.contains(keycode),
        _ => true,
    }
}

/// Every step of `actions`, taken from `held`, is allowed: each key's presses and releases
/// alternate.
pub open spec fn alternates(held: Set<PlatformKeycode>, actions: Seq<TypingAction>) -> bool
    decreases actions.len(),
{
    if actions.len() == 0 {
        true
    } else {
        alternates(held, actions.drop_last()) && action_fits(
            held_after(held, actions.drop_last()),
            actions.last(),
        )
    }
}

/// `k` is the key of one of the available modifiers.
pub open spec fn is_modifier_key(available: AvailableModifiers, k: PlatformKeycode) -> bool {
    key_of(available.0.ctrl) == Some(k) || key_of(available.0.shift) == Some(k) || key_of(
        available.0.altgr,
    ) == Some(k)
}

pub open spec fn apart(a: Option<ModifierMapping>, b: Option<ModifierMapping>) -> bool {
    (key_of(a) is Some && key_of(b) is Some) ==> key_of(a) != key_of(b)
}

/// The available Ctrl, Shift and AltGr modifiers have three different keys.
pub open spec fn distinct_modifier_keys(available: AvailableModifiers) -> bool {
    &&& apart(available.0.ctrl, available.0.shift)
    &&& apart(available.0.ctrl, available.0.altgr)
    &&& apart(available.0.shift, available.0.altgr)
}

/// The key needs no modifiers but those of `used`, with their keys, and is not itself one of
/// those keys.
pub open spec fn key_fits(used: AvailableModifiers, key: MappedKey) -> bool {
    modifiers_of(used, key.modifiers) && !is_modifier_key(used, key.keycode)
}

/// The key of a character, if it has one, fits `used`.
pub open spec fn char_key_fits(xkb: Xkb, used: AvailableModifiers, character: char) -> bool {
    spec_key_for_char(xkb.keymap(), xkb.available(), character) matches Ok(key) ==> key_fits(used, key)
}

/// Every key typing `character` presses fits `used`: its own key, or, when it has none and the
/// fallback is on, the prefix key, the keys of its hexadecimal digits and the confirmation key.
pub open spec fn char_fits(xkb: Xkb, fallback: UnicodeFallback, used: AvailableModifiers, character: char) -> bool {
    match spec_key_for_char(xkb.keymap(), xkb.available(), character) {
        Ok(key) => key_fits(used, key),
        Err(_) => match fallback {
            UnicodeFallback::Disabled => true,
            UnicodeFallback::Enabled(keys) => {
                let hex = spec_lower_hex((character as u32) as nat);
                &&& key_fits(used, keys.prefix)
                &&& key_fits(used, keys.confirm)
                &&& forall|i: int| 0 <= i < hex.len() ==> char_key_fits(xkb, used, #[trigger] hex[i])
            },
        },
    }
}

pub open spec fn slot_of(slot: Option<PlatformKeycode>, mapping: Option<ModifierMapping>) -> bool {
    slot is None || slot == key_of(mapping)
}

/// Each held modifier is held with the key of that available modifier.
pub open spec fn active_of(available: AvailableModifiers, active: ActiveModifiers) -> bool {
    &&& slot_of(active.ctrl, available.0.ctrl)
    &&& slot_of(active.shift, available.0.shift)
    &&& slot_of(active.altgr, available.0.altgr)
}

/// Each chosen modifier is the available one.
pub open spec fn modifiers_of(available: AvailableModifiers, modifiers: Modifiers) -> bool {
    &&& slot_of(key_of(modifiers.ctrl), available.0.ctrl)
    &&& slot_of(key_of(modifiers.shift), available.0.shift)
    &&& slot_of(key_of(modifiers.altgr), available.0.altgr)
}

/// Where typing may stand: exactly the keys of the held modifiers are down.
pub open spec fn consistent(available: AvailableModifiers, held: Set<PlatformKeycode>, active: ActiveModifiers) -> bool {
    held == modifier_keys(active) && active_of(available, active)
}

/// Steps one list after another alternate when the first does and the second does from where
/// the first leaves the keys.
pub proof fn lemma_alternates_concat(held: Set<PlatformKeycode>, a: Seq<TypingAction>, b: Seq<TypingAction>)
    ensures
        alternates(held, a + b) == (alternates(held, a) && alternates(held_after(held, a), b)),
    decreases b.len(),
{
    if b.len() == 0 {
        assert(a + b =~= a);
    } else {
        assert((a + b).drop_last() =~= a + b.drop_last());
        assert((a + b).last() == b.last());
        lemma_alternates_concat(held, a, b.drop_last());
        lemma_held_after_concat(held, a, b.drop_last());
    }
}

proof fn lemma_alternates_one(held: Set<PlatformKeycode>, x: TypingAction)
    ensures
        alternates(held, seq![x]) == action_fits(held, x),
{
    assert(seq![x].drop_last() =~= Seq::<TypingAction>::empty());
    assert(alternates(held, Seq::<TypingAction>::empty()));
    assert(held_after(held, Seq::<TypingAction>::empty()) == held);
}

proof fn lemma_no_key_events_alternate(held: Set<PlatformKeycode>, actions: Seq<TypingAction>)
    requires
        forall|k: int| 0 <= k < actions.len() ==> !(#[trigger] actions[k] is Key),
    ensures
        alternates(held, actions),
    decreases actions.len(),
{
    if actions.len() > 0 {
        lemma_no_key_events_alternate(held, actions.drop_last());
        lemma_no_key_events(held, actions.drop_last());
    }
}

/// One modifier moves between up and the key of its available modifier.
proof fn lemma_slot(
    held: Set<PlatformKeycode>,
    others: Set<PlatformKeycode>,
    previous: Option<PlatformKeycode>,
    next: Option<PlatformKeycode>,
    target: Option<PlatformKeycode>,
)
    requires
        held == others + key_set(previous),
        previous is None || previous == target,
        next is None || next == target,
        target matches Some(t) ==> !others.contains(t),
    ensures
        alternates(held, spec_transition_modifier(previous, next).0),
        held_after(held, spec_transition_modifier(previous, next).0) == others + key_set(next),
        spec_transition_modifier(previous, next).1 == next,
{
    match (previous, next) {
        (None, None) => {
            assert(held_after(held, Seq::<TypingAction>::empty()) == held);
            assert(held =~= others + key_set(next));
        },
        (None, Some(n)) => {
            lemma_held_after_one(held, press(n));
            lemma_alternates_one(held, press(n));
            assert(held =~= others);
            assert(held.insert(n) =~= others + key_set(next));
        },
        (Some(p), None) => {
            lemma_held_after_one(held, release(p));
            lemma_alternates_one(held, release(p));
            assert(held.remove(p) =~= others + key_set(next));
        },
        (Some(p), Some(n)) => {
            assert(p == n);
            assert(held_after(held, Seq::<TypingAction>::empty()) == held);
        },
    }
}

proof fn lemma_transition_modifiers(
    available: AvailableModifiers,
    held: Set<PlatformKeycode>,
    active: ActiveModifiers,
    modifiers: Modifiers,
)
    requires
        distinct_modifier_keys(available),
        consistent(available, held, active),
        modifiers_of(available, modifiers),
    ensures
        alternates(held, spec_transition_modifiers(active, modifiers).0),
        consistent(
            available,
            held_after(held, spec_transition_modifiers(active, modifiers).0),
            spec_transition_modifiers(active, modifiers).1,
        ),
{
    let c = spec_transition_modifier(active.ctrl, key_of(modifiers.ctrl));
    let g = spec_transition_modifier(active.altgr, key_of(modifiers.altgr));
    let s = spec_transition_modifier(active.shift, key_of(modifiers.shift));
    let others1 = key_set(active.shift) + key_set(active.altgr);
    assert(held =~= others1 + key_set(active.ctrl));
    lemma_slot(held, others1, active.ctrl, key_of(modifiers.ctrl), key_of(available.0.ctrl));
    let h1 = held_after(held, c.0);
    let others2 = key_set(c.1) + key_set(active.shift);
    assert(h1 =~= others2 + key_set(active.altgr));
    lemma_slot(h1, others2, active.altgr, key_of(modifiers.altgr), key_of(available.0.altgr));
    let h2 = held_after(h1, g.0);
    let others3 = key_set(c.1) + key_set(g.1);
    assert(h2 =~= others3 + key_set(active.shift));
    lemma_slot(h2, others3, active.shift, key_of(modifiers.shift), key_of(available.0.shift));
    lemma_held_after_concat(held, c.0, g.0);
    lemma_held_after_concat(held, c.0 + g.0, s.0);
    lemma_alternates_concat(held, c.0, g.0);
    lemma_alternates_concat(held, c.0 + g.0, s.0);
    let t = spec_transition_modifiers(active, modifiers);
    assert(held_after(held, t.0) =~= modifier_keys(t.1));
}

proof fn lemma_tap(held: Set<PlatformKeycode>, keycode: PlatformKeycode, key_hold: u64)
    requires
        !held.contains(keycode),
    ensures
        alternates(held, spec_tap(keycode, key_hold)),
        held_after(held, spec_tap(keycode, key_hold)) == held,
{
    let h1 = held.insert(keycode);
    lemma_held_after_one(held, press(keycode));
    lemma_alternates_one(held, press(keycode));
    lemma_held_after_one(h1, release(keycode));
    lemma_alternates_one(h1, release(keycode));
    assert(h1.remove(keycode) =~= held);
    if key_hold == 0 {
        assert(spec_tap(keycode, key_hold) =~= seq![press(keycode)] + seq![release(keycode)]);
        lemma_held_after_concat(held, seq![press(keycode)], seq![release(keycode)]);
        lemma_alternates_concat(held, seq![press(keycode)], seq![release(keycode)]);
    } else {
        let pause = seq![TypingAction::Flush, TypingAction::Sleep { millis: key_hold }];
        let a = seq![press(keycode)];
        let b = seq![release(keycode)];
        let f = seq![TypingAction::Flush];
        assert(spec_tap(keycode, key_hold) =~= a + pause + b + f);
        lemma_no_key_events(h1, pause);
        lemma_no_key_events_alternate(h1, pause);
        lemma_held_after_concat(held, a, pause);
        lemma_alternates_concat(held, a, pause);
        lemma_held_after_concat(held, a + pause, b);
        lemma_alternates_concat(held, a + pause, b);
        lemma_no_key_events(held, f);
        lemma_no_key_events_alternate(held, f);
        lemma_held_after_concat(held, a + pause + b, f);
        lemma_alternates_concat(held, a + pause + b, f);
    }
}

/// The keys down are modifier keys.
proof fn lemma_held_are_modifier_keys(
    available: AvailableModifiers,
    held: Set<PlatformKeycode>,
    active: ActiveModifiers,
    k: PlatformKeycode,
)
    requires
        consistent(available, held, active),
        held.contains(k),
    ensures
        is_modifier_key(available, k),
{
}

proof fn lemma_send_mapped_key(
    available: AvailableModifiers,
    held: Set<PlatformKeycode>,
    active: ActiveModifiers,
    key: MappedKey,
    key_hold: u64,
)
    requires
        distinct_modifier_keys(available),
        consistent(available, held, active),
        modifiers_of(available, key.modifiers),
        !is_modifier_key(available, key.keycode),
    ensures
        alternates(held, spec_send_mapped_key(active, key, key_hold).0),
        consistent(
            available,
            held_after(held, spec_send_mapped_key(active, key, key_hold).0),
            spec_send_mapped_key(active, key, key_hold).1,
        ),
{
    let t = spec_transition_modifiers(active, key.modifiers);
    lemma_transition_modifiers(available, held, active, key.modifiers);
    let h1 = held_after(held, t.0);
    if h1.contains(key.keycode) {
        lemma_held_are_modifier_keys(available, h1, t.1, key.keycode);
    }
    lemma_tap(h1, key.keycode, key_hold);
    lemma_held_after_concat(held, t.0, spec_tap(key.keycode, key_hold));
    lemma_alternates_concat(held, t.0, spec_tap(key.keycode, key_hold));
}

proof fn lemma_send_char_keys(
    xkb: Xkb,
    used: AvailableModifiers,
    held: Set<PlatformKeycode>,
    active: ActiveModifiers,
    characters: Seq<char>,
    key_hold: u64,
)
    requires
        distinct_modifier_keys(used),
        consistent(used, held, active),
        forall|i: int| 0 <= i < characters.len() ==> char_key_fits(xkb, used, #[trigger] characters[i]),
    ensures
        alternates(held, spec_send_char_keys(xkb, active, characters, key_hold).0),
        consistent(
            used,
            held_after(held, spec_send_char_keys(xkb, active, characters, key_hold).0),
            spec_send_char_keys(xkb, active, characters, key_hold).1,
        ),
    decreases characters.len(),
{
    if characters.len() == 0 {
        assert(held_after(held, Seq::<TypingAction>::empty()) == held);
    } else {
        assert(char_key_fits(xkb, used, characters[0]));
        match spec_key_for_char(xkb.keymap(), xkb.available(), characters[0]) {
            Err(_) => {
                assert(held_after(held, Seq::<TypingAction>::empty()) == held);
            },
            Ok(key) => {
                let first = spec_send_mapped_key(active, key, key_hold);
                lemma_send_mapped_key(used, held, active, key, key_hold);
                let h1 = held_after(held, first.0);
                let tail = characters.drop_first();
                assert forall|i: int| 0 <= i < tail.len() implies char_key_fits(xkb, used, #[trigger] tail[i]) by {
                    assert(tail[i] == characters[i + 1]);
                }
                lemma_send_char_keys(xkb, used, h1, first.1, tail, key_hold);
                let rest = spec_send_char_keys(xkb, first.1, tail, key_hold);
                lemma_held_after_concat(held, first.0, rest.0);
                lemma_alternates_concat(held, first.0, rest.0);
            },
        }
    }
}

proof fn lemma_fallback(
    xkb: Xkb,
    used: AvailableModifiers,
    keys: UnicodeFallbackKeys,
    held: Set<PlatformKeycode>,
    active: ActiveModifiers,
    character: char,
    key_hold: u64,
)
    requires
        distinct_modifier_keys(used),
        consistent(used, held, active),
        key_fits(used, keys.prefix),
        key_fits(used, keys.confirm),
        forall|i: int|
            0 <= i < spec_lower_hex((character as u32) as nat).len() ==> char_key_fits(
                xkb,
                used,
                #[trigger] spec_lower_hex((character as u32) as nat)[i],
            ),
    ensures
        alternates(held, spec_type_char_with_unicode_fallback(xkb, keys, active, character, key_hold).0),
        consistent(
            used,
            held_after(held, spec_type_char_with_unicode_fallback(xkb, keys, active, character, key_hold).0),
            spec_type_char_with_unicode_fallback(xkb, keys, active, character, key_hold).1,
        ),
{
    let prefix = spec_send_mapped_key(active, keys.prefix, key_hold);
    lemma_send_mapped_key(used, held, active, keys.prefix, key_hold);
    let h1 = held_after(held, prefix.0);
    let hex = spec_lower_hex((character as u32) as nat);
    let digits = spec_send_char_keys(xkb, prefix.1, hex, key_hold);
    lemma_send_char_keys(xkb, used, h1, prefix.1, hex, key_hold);
    lemma_held_after_concat(held, prefix.0, digits.0);
    lemma_alternates_concat(held, prefix.0, digits.0);
    let h2 = held_after(h1, digits.0);
    match digits.2 {
        Some(_) => {},
        None => {
            let confirm = spec_send_mapped_key(digits.1, keys.confirm, key_hold);
            lemma_send_mapped_key(used, h2, digits.1, keys.confirm, key_hold);
            lemma_held_after_concat(held, prefix.0 + digits.0, confirm.0);
            lemma_alternates_concat(held, prefix.0 + digits.0, confirm.0);
        },
    }
}

proof fn lemma_type_char(
    xkb: Xkb,
    fallback: UnicodeFallback,
    used: AvailableModifiers,
    held: Set<PlatformKeycode>,
    active: ActiveModifiers,
    character: char,
    key_hold: u64,
)
    requires
        distinct_modifier_keys(used),
        consistent(used, held, active),
        char_fits(xkb, fallback, used, character),
    ensures
        alternates(held, spec_type_char(xkb, fallback, active, character, key_hold).0),
        consistent(
            used,
            held_after(held, spec_type_char(xkb, fallback, active, character, key_hold).0),
            spec_type_char(xkb, fallback, active, character, key_hold).1,
        ),
{
    match spec_key_for_char(xkb.keymap(), xkb.available(), character) {
        Ok(key) => {
            lemma_send_mapped_key(used, held, active, key, key_hold);
        },
        Err(_) => match fallback {
            UnicodeFallback::Disabled => {
                assert(held_after(held, Seq::<TypingAction>::empty()) == held);
            },
            UnicodeFallback::Enabled(keys) => {
                lemma_fallback(xkb, used, keys, held, active, character, key_hold);
            },
        },
    }
}

proof fn lemma_step(
    xkb: Xkb,
    fallback: UnicodeFallback,
    config: KwtyprConfig,
    used: AvailableModifiers,
    progress: TypingProgress,
    character: char,
)
    requires
        distinct_modifier_keys(used),
        char_fits(xkb, fallback, used, character),
        alternates(Set::empty(), progress.actions),
        consistent(used, held_after(Set::empty(), progress.actions), progress.active),
    ensures
        alternates(Set::empty(), spec_step(xkb, fallback, config, progress, character).actions),
        consistent(
            used,
            held_after(Set::empty(), spec_step(xkb, fallback, config, progress, character).actions),
            spec_step(xkb, fallback, config, progress, character).active,
        ),
{
    reveal(spec_step);
    let e = Set::<PlatformKeycode>::empty();
    let typed = spec_type_char(xkb, fallback, progress.active, character, config.key_hold);
    let h0 = held_after(e, progress.actions);
    lemma_type_char(xkb, fallback, used, h0, progress.active, character, config.key_hold);
    lemma_held_after_concat(e, progress.actions, typed.0);
    lemma_alternates_concat(e, progress.actions, typed.0);
    let report = match typed.2 {
        Some(error) => seq![TypingAction::ReportUntypable { character, error }],
        None => seq![],
    };
    let h1 = held_after(e, progress.actions + typed.0);
    lemma_no_key_events(h1, report);
    lemma_no_key_events_alternate(h1, report);
    lemma_held_after_concat(e, progress.actions + typed.0, report);
    lemma_alternates_concat(e, progress.actions + typed.0, report);
    match config.chunk_pacing {
        None => {},
        Some(pacing) => {
            let pause = seq![TypingAction::Flush, TypingAction::Sleep { millis: pacing.delay }];
            let h2 = held_after(e, progress.actions + typed.0 + report);
            lemma_no_key_events(h2, pause);
            lemma_no_key_events_alternate(h2, pause);
            lemma_held_after_concat(e, progress.actions + typed.0 + report, pause);
            lemma_alternates_concat(e, progress.actions + typed.0 + report, pause);
        },
    }
}

proof fn lemma_run(
    xkb: Xkb,
    fallback: UnicodeFallback,
    config: KwtyprConfig,
    used: AvailableModifiers,
    characters: Seq<char>,
)
    requires
        distinct_modifier_keys(used),
        forall|i: int| 0 <= i < characters.len() ==> char_fits(xkb, fallback, used, #[trigger] characters[i]),
    ensures
        alternates(Set::empty(), spec_run(xkb, fallback, config, no_modifiers(), characters).actions),
        consistent(
            used,
            held_after(Set::empty(), spec_run(xkb, fallback, config, no_modifiers(), characters).actions),
            spec_run(xkb, fallback, config, no_modifiers(), characters).active,
        ),
    decreases characters.len(),
{
    if characters.len() == 0 {
        let start = spec_start(config, no_modifiers());
        lemma_no_key_events(Set::empty(), start.actions);
        lemma_no_key_events_alternate(Set::empty(), start.actions);
        assert(modifier_keys(no_modifiers()) =~= Set::<PlatformKeycode>::empty());
    } else {
        let prefix = characters.drop_last();
        assert forall|i: int| 0 <= i < prefix.len() implies char_fits(xkb, fallback, used, #[trigger] prefix[i]) by {
            assert(prefix[i] == characters[i]);
        }
        lemma_run(xkb, fallback, config, used, prefix);
        assert(char_fits(xkb, fallback, used, characters[characters.len() - 1]));
        lemma_step(
            xkb,
            fallback,
            config,
            used,
            spec_run(xkb, fallback, config, no_modifiers(), prefix),
            characters.last(),
        );
    }
}

/// Typing a text from a keyboard with no key held presses each key only while it is up and
/// releases it only while it is down, so every key's events alternate press, release, and
/// typing ends with no key held. This holds whenever the modifiers the text's keys need can be
/// given keys `used` (each needed modifier with the key the keymap gives it) that are three
/// different keys, none of which is a key the text presses for a character: its own key, or
/// under the fallback the prefix, digit and confirmation keys. Only characters of the text
/// count; keys the text never presses are free to coincide.
pub proof fn lemma_typing_alternates(
    xkb: Xkb,
    fallback: UnicodeFallback,
    config: KwtyprConfig,
    characters: Seq<char>,
    used: AvailableModifiers,
)
    requires
        distinct_modifier_keys(used),
        forall|i: int| 0 <= i < characters.len() ==> char_fits(xkb, fallback, used, #[trigger] characters[i]),
    ensures
        alternates(Set::empty(), spec_typing_actions(xkb, fallback, config, no_modifiers(), characters)),
        held_after(Set::empty(), spec_typing_actions(xkb, fallback, config, no_modifiers(), characters))
            == Set::<PlatformKeycode>::empty(),
{
    let e = Set::<PlatformKeycode>::empty();
    let run = spec_run(xkb, fallback, config, no_modifiers(), characters);
    lemma_run(xkb, fallback, config, used, characters);
    let pause = spec_last_chunk_pause(config, run.in_chunk);
    let h = held_after(e, run.actions);
    lemma_no_key_events(h, pause);
    lemma_no_key_events_alternate(h, pause);
    lemma_held_after_concat(e, run.actions, pause);
    lemma_alternates_concat(e, run.actions, pause);
    let none = Modifiers { ctrl: None, shift: None, altgr: None };
    assert(spec_transition_modifiers(run.active, none).0 == spec_release_all_modifiers(run.active));
    lemma_transition_modifiers(used, h, run.active, none);
    let release = spec_release_all_modifiers(run.active);
    lemma_held_after_concat(e, run.actions + pause, release);
    lemma_alternates_concat(e, run.actions + pause, release);
    let released = held_after(e, run.actions + pause + release);
    assert(released =~= e);
    let last = if config.chunk_pacing is Some {
        seq![TypingAction::Flush]
    } else {
        seq![]
    };
    lemma_no_key_events(released, last);
    lemma_no_key_events_alternate(released, last);
    lemma_held_after_concat(e, run.actions + pause + release, last);
    lemma_alternates_concat(e, run.actions + pause + release, last);
}

} // verus!

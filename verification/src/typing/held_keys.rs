//! Which keys are held down after a list of typing steps, and why typing leaves none held.
use vstd::prelude::*;

use crate::typing::{
    key_of, no_modifiers, press, release, spec_release_all_modifiers, spec_run, spec_send_char_keys,
    spec_last_chunk_pause, spec_send_mapped_key, spec_start, spec_step, spec_tap, spec_transition_modifier,
    spec_transition_modifiers, spec_type_char, spec_type_char_with_unicode_fallback,
    spec_typing_actions, ActiveModifiers, KeyState, TypingAction, TypingProgress,
};
use crate::xkb::keycode::PlatformKeycode;
use crate::xkb::mapping::{spec_key_for_char, MappedKey};
use crate::xkb::modifier::Modifiers;
use crate::xkb::unicode_fallback::UnicodeFallbackKeys;
use crate::xkb::Xkb;
use crate::{KwtyprConfig, UnicodeFallback};

verus! {

/// The keys held down after one step.
pub open spec fn apply_action(held: Set<PlatformKeycode>, action: TypingAction) -> Set<PlatformKeycode> {
    match action {
        TypingAction::Key { keycode, state: KeyState::Pressed } => held.insert(keycode),
        TypingAction::Key { keycode, state: KeyState::Released } => held.remove(keycode),
        _ => held,
    }
}

/// The keys held down after the steps `actions`, starting with `held`.
pub open spec fn held_after(held: Set<PlatformKeycode>, actions: Seq<TypingAction>) -> Set<PlatformKeycode>
    decreases actions.len(),
{
    if actions.len() == 0 {
        held
    } else {
        apply_action(held_after(held, actions.drop_last()), actions.last())
    }
}

pub open spec fn key_set(key: Option<PlatformKeycode>) -> Set<PlatformKeycode> {
    match key {
        Some(k) => set![k],
        None => Set::empty(),
    }
}

/// The keys held for the active modifiers.
pub open spec fn modifier_keys(active: ActiveModifiers) -> Set<PlatformKeycode> {
    key_set(active.ctrl) + key_set(active.shift) + key_set(active.altgr)
}

/// Steps taken one list after another hold what the second list leaves from the first.
pub proof fn lemma_held_after_concat(held: Set<PlatformKeycode>, a: Seq<TypingAction>, b: Seq<TypingAction>)
    ensures
        held_after(held, a + b) == held_after(held_after(held, a), b),
    decreases b.len(),
{
    if b.len() == 0 {
        assert(a + b =~= a);
    } else {
        assert((a + b).drop_last() =~= a + b.drop_last());
        assert((a + b).last() == b.last());
        lemma_held_after_concat(held, a, b.drop_last());
    }
}

pub proof fn lemma_held_after_one(held: Set<PlatformKeycode>, x: TypingAction)
    ensures
        held_after(held, seq![x]) == apply_action(held, x),
{
    assert(seq![x].drop_last() =~= Seq::<TypingAction>::empty());
    assert(held_after(held, Seq::<TypingAction>::empty()) == held);
    assert(held_after(held, seq![x]) == apply_action(held_after(held, seq![x].drop_last()), seq![x].last()));
}

proof fn lemma_held_after_two(held: Set<PlatformKeycode>, x: TypingAction, y: TypingAction)
    ensures
        held_after(held, seq![x, y]) == apply_action(apply_action(held, x), y),
{
    assert(seq![x, y] =~= seq![x] + seq![y]);
    lemma_held_after_concat(held, seq![x], seq![y]);
    lemma_held_after_one(held, x);
    lemma_held_after_one(apply_action(held, x), y);
}

/// Moving one modifier keeps the held keys among the other modifiers' keys and the new key.
proof fn lemma_transition_modifier_held(
    held: Set<PlatformKeycode>,
    others: Set<PlatformKeycode>,
    previous: Option<PlatformKeycode>,
    next: Option<PlatformKeycode>,
)
    requires
        held.subset_of(others + key_set(previous)),
    ensures
        held_after(held, spec_transition_modifier(previous, next).0).subset_of(others + key_set(next)),
        spec_transition_modifier(previous, next).1 == next,
{
    let t = spec_transition_modifier(previous, next);
    match (previous, next) {
        (None, None) => {
            assert(held_after(held, t.0) == held);
        },
        (None, Some(n)) => {
            lemma_held_after_one(held, press(n));
        },
        (Some(p), None) => {
            lemma_held_after_one(held, release(p));
        },
        (Some(p), Some(n)) => {
            if p == n {
                assert(held_after(held, t.0) == held);
            } else {
                lemma_held_after_two(held, release(p), press(n));
            }
        },
    }
}

/// Moving all modifiers keeps the held keys among the keys of the modifiers held afterwards.
proof fn lemma_transition_modifiers_held(held: Set<PlatformKeycode>, active: ActiveModifiers, modifiers: Modifiers)
    requires
        held.subset_of(modifier_keys(active)),
    ensures
        held_after(held, spec_transition_modifiers(active, modifiers).0).subset_of(
            modifier_keys(spec_transition_modifiers(active, modifiers).1),
        ),
{
    let c = spec_transition_modifier(active.ctrl, key_of(modifiers.ctrl));
    let g = spec_transition_modifier(active.altgr, key_of(modifiers.altgr));
    let s = spec_transition_modifier(active.shift, key_of(modifiers.shift));
    lemma_transition_modifier_held(held, key_set(active.shift) + key_set(active.altgr), active.ctrl, key_of(modifiers.ctrl));
    let h1 = held_after(held, c.0);
    lemma_transition_modifier_held(h1, key_set(c.1) + key_set(active.shift), active.altgr, key_of(modifiers.altgr));
    let h2 = held_after(h1, g.0);
    lemma_transition_modifier_held(h2, key_set(c.1) + key_set(g.1), active.shift, key_of(modifiers.shift));
    lemma_held_after_concat(held, c.0, g.0);
    lemma_held_after_concat(held, c.0 + g.0, s.0);
}

/// Pressing and releasing a key holds nothing new.
proof fn lemma_tap_held(held: Set<PlatformKeycode>, keycode: PlatformKeycode, key_hold: u64)
    ensures
        held_after(held, spec_tap(keycode, key_hold)).subset_of(held),
{
    if key_hold == 0 {
        lemma_held_after_two(held, press(keycode), release(keycode));
    } else {
        let t = spec_tap(keycode, key_hold);
        let pause = seq![TypingAction::Flush, TypingAction::Sleep { millis: key_hold }];
        assert(t =~= seq![press(keycode)] + pause + seq![release(keycode)] + seq![TypingAction::Flush]);
        let h1 = apply_action(held, press(keycode));
        lemma_held_after_one(held, press(keycode));
        lemma_no_key_events(h1, pause);
        lemma_held_after_concat(held, seq![press(keycode)], pause);
        lemma_held_after_one(h1, release(keycode));
        lemma_held_after_concat(held, seq![press(keycode)] + pause, seq![release(keycode)]);
        let h2 = apply_action(h1, release(keycode));
        lemma_no_key_events(h2, seq![TypingAction::Flush]);
        lemma_held_after_concat(held, seq![press(keycode)] + pause + seq![release(keycode)], seq![TypingAction::Flush]);
    }
}

proof fn lemma_send_mapped_key_held(held: Set<PlatformKeycode>, active: ActiveModifiers, key: MappedKey, key_hold: u64)
    requires
        held.subset_of(modifier_keys(active)),
    ensures
        held_after(held, spec_send_mapped_key(active, key, key_hold).0).subset_of(
            modifier_keys(spec_send_mapped_key(active, key, key_hold).1),
        ),
{
    let t = spec_transition_modifiers(active, key.modifiers);
    lemma_transition_modifiers_held(held, active, key.modifiers);
    lemma_tap_held(held_after(held, t.0), key.keycode, key_hold);
    lemma_held_after_concat(held, t.0, spec_tap(key.keycode, key_hold));
}

proof fn lemma_send_char_keys_held(
    held: Set<PlatformKeycode>,
    xkb: Xkb,
    active: ActiveModifiers,
    characters: Seq<char>,
    key_hold: u64,
)
    requires
        held.subset_of(modifier_keys(active)),
    ensures
        held_after(held, spec_send_char_keys(xkb, active, characters, key_hold).0).subset_of(
            modifier_keys(spec_send_char_keys(xkb, active, characters, key_hold).1),
        ),
    decreases characters.len(),
{
    if characters.len() > 0 {
        match spec_key_for_char(xkb.keymap(), xkb.available(), characters[0]) {
            Err(_) => {},
            Ok(key) => {
                let first = spec_send_mapped_key(active, key, key_hold);
                lemma_send_mapped_key_held(held, active, key, key_hold);
                let h1 = held_after(held, first.0);
                lemma_send_char_keys_held(h1, xkb, first.1, characters.drop_first(), key_hold);
                let rest = spec_send_char_keys(xkb, first.1, characters.drop_first(), key_hold);
                lemma_held_after_concat(held, first.0, rest.0);
            },
        }
    }
}

proof fn lemma_type_char_held(
    held: Set<PlatformKeycode>,
    xkb: Xkb,
    fallback: UnicodeFallback,
    active: ActiveModifiers,
    character: char,
    key_hold: u64,
)
    requires
        held.subset_of(modifier_keys(active)),
    ensures
        held_after(held, spec_type_char(xkb, fallback, active, character, key_hold).0).subset_of(
            modifier_keys(spec_type_char(xkb, fallback, active, character, key_hold).1),
        ),
{
    match spec_key_for_char(xkb.keymap(), xkb.available(), character) {
        Ok(key) => {
            lemma_send_mapped_key_held(held, active, key, key_hold);
        },
        Err(_) => match fallback {
            UnicodeFallback::Disabled => {},
            UnicodeFallback::Enabled(keys) => {
                lemma_fallback_held(held, xkb, keys, active, character, key_hold);
            },
        },
    }
}

proof fn lemma_fallback_held(
    held: Set<PlatformKeycode>,
    xkb: Xkb,
    keys: UnicodeFallbackKeys,
    active: ActiveModifiers,
    character: char,
    key_hold: u64,
)
    requires
        held.subset_of(modifier_keys(active)),
    ensures
        held_after(held, spec_type_char_with_unicode_fallback(xkb, keys, active, character, key_hold).0).subset_of(
            modifier_keys(spec_type_char_with_unicode_fallback(xkb, keys, active, character, key_hold).1),
        ),
{
    let prefix = spec_send_mapped_key(active, keys.prefix, key_hold);
    lemma_send_mapped_key_held(held, active, keys.prefix, key_hold);
    let h1 = held_after(held, prefix.0);
    let hex = crate::xkb::unicode_fallback::spec_lower_hex((character as u32) as nat);
    let digits = spec_send_char_keys(xkb, prefix.1, hex, key_hold);
    lemma_send_char_keys_held(h1, xkb, prefix.1, hex, key_hold);
    lemma_held_after_concat(held, prefix.0, digits.0);
    let h2 = held_after(h1, digits.0);
    match digits.2 {
        Some(_) => {},
        None => {
            let confirm = spec_send_mapped_key(digits.1, keys.confirm, key_hold);
            lemma_send_mapped_key_held(h2, digits.1, keys.confirm, key_hold);
            lemma_held_after_concat(held, prefix.0 + digits.0, confirm.0);
        },
    }
}

/// Steps that are not key events hold nothing new.
pub proof fn lemma_no_key_events(held: Set<PlatformKeycode>, actions: Seq<TypingAction>)
    requires
        forall|k: int| 0 <= k < actions.len() ==> !(#[trigger] actions[k] is Key),
    ensures
        held_after(held, actions) == held,
    decreases actions.len(),
{
    if actions.len() > 0 {
        lemma_no_key_events(held, actions.drop_last());
    }
}

proof fn lemma_step_held(
    held: Set<PlatformKeycode>,
    xkb: Xkb,
    fallback: UnicodeFallback,
    config: KwtyprConfig,
    progress: TypingProgress,
    character: char,
)
    requires
        held_after(held, progress.actions).subset_of(modifier_keys(progress.active)),
    ensures
        held_after(held, spec_step(xkb, fallback, config, progress, character).actions).subset_of(
            modifier_keys(spec_step(xkb, fallback, config, progress, character).active),
        ),
{
    reveal(spec_step);
    let typed = spec_type_char(xkb, fallback, progress.active, character, config.key_hold);
    let h0 = held_after(held, progress.actions);
    lemma_type_char_held(h0, xkb, fallback, progress.active, character, config.key_hold);
    lemma_held_after_concat(held, progress.actions, typed.0);
    let report = match typed.2 {
        Some(error) => seq![TypingAction::ReportUntypable { character, error }],
        None => seq![],
    };
    let h1 = held_after(held, progress.actions + typed.0);
    lemma_no_key_events(h1, report);
    lemma_held_after_concat(held, progress.actions + typed.0, report);
    match config.chunk_pacing {
        None => {},
        Some(pacing) => {
            let pause = seq![TypingAction::Flush, TypingAction::Sleep { millis: pacing.delay }];
            let h2 = held_after(held, progress.actions + typed.0 + report);
            lemma_no_key_events(h2, pause);
            lemma_held_after_concat(held, progress.actions + typed.0 + report, pause);
        },
    }
}

proof fn lemma_run_held(
    xkb: Xkb,
    fallback: UnicodeFallback,
    config: KwtyprConfig,
    characters: Seq<char>,
)
    ensures
        held_after(Set::empty(), spec_run(xkb, fallback, config, no_modifiers(), characters).actions).subset_of(
            modifier_keys(spec_run(xkb, fallback, config, no_modifiers(), characters).active),
        ),
    decreases characters.len(),
{
    if characters.len() == 0 {
        let start = spec_start(config, no_modifiers());
        lemma_no_key_events(Set::empty(), start.actions);
    } else {
        lemma_run_held(xkb, fallback, config, characters.drop_last());
        lemma_step_held(
            Set::empty(),
            xkb,
            fallback,
            config,
            spec_run(xkb, fallback, config, no_modifiers(), characters.drop_last()),
            characters.last(),
        );
    }
}

proof fn lemma_release_all_held(held: Set<PlatformKeycode>, active: ActiveModifiers)
    requires
        held.subset_of(modifier_keys(active)),
    ensures
        held_after(held, spec_release_all_modifiers(active)) == Set::<PlatformKeycode>::empty(),
{
    let none = Modifiers { ctrl: None, shift: None, altgr: None };
    assert(spec_transition_modifiers(active, none).0 == spec_release_all_modifiers(active));
    lemma_transition_modifiers_held(held, active, none);
    assert(modifier_keys(spec_transition_modifiers(active, none).1) =~= Set::<PlatformKeycode>::empty());
    assert(held_after(held, spec_release_all_modifiers(active)) =~= Set::<PlatformKeycode>::empty());
}

/// Typing a text from a keyboard with no key held leaves no key held: every key that typing
/// presses, a modifier or not, it releases again.
pub proof fn lemma_typing_leaves_no_key_held(
    xkb: Xkb,
    fallback: UnicodeFallback,
    config: KwtyprConfig,
    characters: Seq<char>,
)
    ensures
        held_after(Set::empty(), spec_typing_actions(xkb, fallback, config, no_modifiers(), characters))
            == Set::<PlatformKeycode>::empty(),
{
    let run = spec_run(xkb, fallback, config, no_modifiers(), characters);
    lemma_run_held(xkb, fallback, config, characters);
    let pause = spec_last_chunk_pause(config, run.in_chunk);
    lemma_no_key_events(held_after(Set::empty(), run.actions), pause);
    lemma_held_after_concat(Set::empty(), run.actions, pause);
    let h = held_after(Set::empty(), run.actions + pause);
    lemma_release_all_held(h, run.active);
    lemma_held_after_concat(Set::empty(), run.actions + pause, spec_release_all_modifiers(run.active));
    let last = if config.chunk_pacing is Some {
        seq![TypingAction::Flush]
    } else {
        seq![]
    };
    lemma_no_key_events(Set::empty(), last);
    lemma_held_after_concat(
        Set::empty(),
        run.actions + pause + spec_release_all_modifiers(run.active),
        last,
    );
}

} // verus!

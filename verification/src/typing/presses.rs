//! Which keys typing presses, leaving the modifier keys aside.
use vstd::prelude::*;

use crate::typing::alternation::{char_key_fits, is_modifier_key, key_fits, slot_of};
use crate::typing::{
    key_of, spec_send_char_keys, spec_send_mapped_key, spec_tap, spec_transition_modifier,
    spec_transition_modifiers, spec_type_char_with_unicode_fallback, ActiveModifiers, KeyState,
    TypingAction,
};
use crate::xkb::keycode::PlatformKeycode;
use crate::xkb::mapping::{spec_key_for_char, MappedKey};
use crate::xkb::modifier::{AvailableModifiers, ModifierMapping};
use crate::xkb::unicode_fallback::{hex_value, lemma_lower_hex_roundtrip, spec_lower_hex, UnicodeFallbackKeys};
use crate::xkb::Xkb;

verus! {

/// The keys that `actions` press, in order, leaving out the keys of the modifiers of `used`.
pub open spec fn key_presses(used: AvailableModifiers, actions: Seq<TypingAction>) -> Seq<PlatformKeycode>
    decreases actions.len(),
{
    if actions.len() == 0 {
        seq![]
    } else {
        let before = key_presses(used, actions.drop_last());
        match actions.last() {
            TypingAction::Key { keycode, state: KeyState::Pressed } => if is_modifier_key(used, keycode) {
                before
            } else {
                before.push(keycode)
            },
            _ => before,
        }
    }
}

/// The keycodes of the keys that type `characters`, one for each.
pub open spec fn char_keycodes(xkb: Xkb, characters: Seq<char>) -> Seq<PlatformKeycode> {
    characters.map_values(|c: char| spec_key_for_char(xkb.keymap(), xkb.available(), c)->Ok_0.keycode)
}

proof fn lemma_key_presses_concat(used: AvailableModifiers, a: Seq<TypingAction>, b: Seq<TypingAction>)
    ensures
        key_presses(used, a + b) == key_presses(used, a) + key_presses(used, b),
    decreases b.len(),
{
    if b.len() == 0 {
        assert(a + b =~= a);
        assert(key_presses(used, a) + key_presses(used, b) =~= key_presses(used, a));
    } else {
        assert((a + b).drop_last() =~= a + b.drop_last());
        assert((a + b).last() == b.last());
        lemma_key_presses_concat(used, a, b.drop_last());
        let pa = key_presses(used, a);
        let pb = key_presses(used, b.drop_last());
        match b.last() {
            TypingAction::Key { keycode, state: KeyState::Pressed } => {
                assert((pa + pb).push(keycode) =~= pa + pb.push(keycode));
            },
            _ => {},
        }
    }
}

proof fn lemma_key_presses_one(used: AvailableModifiers, action: TypingAction)
    ensures
        key_presses(used, seq![action]) == match action {
            TypingAction::Key { keycode, state: KeyState::Pressed } => if is_modifier_key(used, keycode) {
                Seq::<PlatformKeycode>::empty()
            } else {
                seq![keycode]
            },
            _ => Seq::<PlatformKeycode>::empty(),
        },
{
    let one = seq![action];
    assert(one.drop_last() =~= Seq::<TypingAction>::empty());
    assert(one.last() == action);
    assert(key_presses(used, one.drop_last()) == Seq::<PlatformKeycode>::empty());
    if let TypingAction::Key { keycode, state: KeyState::Pressed } = action {
        assert(Seq::<PlatformKeycode>::empty().push(keycode) =~= seq![keycode]);
    }
}

/// Moving a modifier to a key of `used` presses nothing but modifier keys.
proof fn lemma_transition_modifier_presses(
    used: AvailableModifiers,
    mapping: Option<ModifierMapping>,
    previous: Option<PlatformKeycode>,
    next: Option<ModifierMapping>,
)
    requires
        slot_of(key_of(next), mapping),
        key_of(mapping) == key_of(used.0.ctrl) || key_of(mapping) == key_of(used.0.shift) || key_of(
            mapping,
        ) == key_of(used.0.altgr),
    ensures
        key_presses(used, spec_transition_modifier(previous, key_of(next)).0) =~= Seq::<
            PlatformKeycode,
        >::empty(),
{
    let t = spec_transition_modifier(previous, key_of(next));
    match (previous, key_of(next)) {
        (None, None) => {},
        (None, Some(n)) => {
            lemma_key_presses_one(used, TypingAction::Key { keycode: n, state: KeyState::Pressed });
        },
        (Some(p), None) => {
            lemma_key_presses_one(used, TypingAction::Key { keycode: p, state: KeyState::Released });
        },
        (Some(p), Some(n)) => {
            if p != n {
                let r = TypingAction::Key { keycode: p, state: KeyState::Released };
                let q = TypingAction::Key { keycode: n, state: KeyState::Pressed };
                assert(t.0 =~= seq![r] + seq![q]);
                lemma_key_presses_concat(used, seq![r], seq![q]);
                lemma_key_presses_one(used, r);
                lemma_key_presses_one(used, q);
            }
        },
    }
}

/// Typing a key that fits `used` presses, besides modifier keys, that key alone.
proof fn lemma_send_mapped_key_presses(
    used: AvailableModifiers,
    active: ActiveModifiers,
    key: MappedKey,
    key_hold: u64,
)
    requires
        key_fits(used, key),
    ensures
        key_presses(used, spec_send_mapped_key(active, key, key_hold).0) == seq![key.keycode],
{
    let m = key.modifiers;
    let c = spec_transition_modifier(active.ctrl, key_of(m.ctrl));
    let g = spec_transition_modifier(active.altgr, key_of(m.altgr));
    let s = spec_transition_modifier(active.shift, key_of(m.shift));
    lemma_transition_modifier_presses(used, used.0.ctrl, active.ctrl, m.ctrl);
    lemma_transition_modifier_presses(used, used.0.altgr, active.altgr, m.altgr);
    lemma_transition_modifier_presses(used, used.0.shift, active.shift, m.shift);
    lemma_key_presses_concat(used, c.0, g.0);
    lemma_key_presses_concat(used, c.0 + g.0, s.0);
    let t = spec_transition_modifiers(active, m);
    let k = key.keycode;
    let down = TypingAction::Key { keycode: k, state: KeyState::Pressed };
    let up = TypingAction::Key { keycode: k, state: KeyState::Released };
    lemma_key_presses_one(used, down);
    lemma_key_presses_one(used, up);
    lemma_key_presses_one(used, TypingAction::Flush);
    lemma_key_presses_one(used, TypingAction::Sleep { millis: key_hold });
    let tap = spec_tap(k, key_hold);
    if key_hold == 0 {
        assert(tap =~= seq![down] + seq![up]);
        lemma_key_presses_concat(used, seq![down], seq![up]);
    } else {
        let sl = TypingAction::Sleep { millis: key_hold };
        let f = TypingAction::Flush;
        assert(tap =~= seq![down] + seq![f] + seq![sl] + seq![up] + seq![f]);
        lemma_key_presses_concat(used, seq![down], seq![f]);
        lemma_key_presses_concat(used, seq![down] + seq![f], seq![sl]);
        lemma_key_presses_concat(used, seq![down] + seq![f] + seq![sl], seq![up]);
        lemma_key_presses_concat(used, seq![down] + seq![f] + seq![sl] + seq![up], seq![f]);
    }
    lemma_key_presses_concat(used, t.0, tap);
    assert(key_presses(used, t.0 + tap) =~= seq![k]);
}

/// Typing characters with their own keys stops at the first character without one; when none
/// lacks a key, it presses, besides modifier keys, the key of each character in turn.
proof fn lemma_send_char_keys_presses(
    xkb: Xkb,
    used: AvailableModifiers,
    active: ActiveModifiers,
    characters: Seq<char>,
    key_hold: u64,
)
    requires
        forall|i: int| 0 <= i < characters.len() ==> char_key_fits(xkb, used, #[trigger] characters[i]),
    ensures
        spec_send_char_keys(xkb, active, characters, key_hold).2 is None <==> forall|i: int|
            0 <= i < characters.len() ==> spec_key_for_char(xkb.keymap(), xkb.available(), #[trigger] characters[i]) is Ok,
        spec_send_char_keys(xkb, active, characters, key_hold).2 is None ==> key_presses(
            used,
            spec_send_char_keys(xkb, active, characters, key_hold).0,
        ) == char_keycodes(xkb, characters),
    decreases characters.len(),
{
    if characters.len() == 0 {
        assert(char_keycodes(xkb, characters) =~= Seq::<PlatformKeycode>::empty());
    } else {
        let rest = characters.drop_first();
        assert forall|i: int| 0 <= i < rest.len() implies char_key_fits(xkb, used, #[trigger] rest[i]) by {
            assert(rest[i] == characters[i + 1]);
        }
        match spec_key_for_char(xkb.keymap(), xkb.available(), characters[0]) {
            Err(e) => {},
            Ok(key) => {
                assert(char_key_fits(xkb, used, characters[0]));
                let first = spec_send_mapped_key(active, key, key_hold);
                lemma_send_char_keys_presses(xkb, used, first.1, rest, key_hold);
                lemma_send_mapped_key_presses(used, active, key, key_hold);
                let whole = spec_send_char_keys(xkb, active, characters, key_hold);
                if whole.2 is None {
                    let after = spec_send_char_keys(xkb, first.1, rest, key_hold);
                    lemma_key_presses_concat(used, first.0, after.0);
                    assert(char_keycodes(xkb, characters) =~= seq![key.keycode] + char_keycodes(xkb, rest));
                }
                if forall|i: int|
                    0 <= i < rest.len() ==> spec_key_for_char(xkb.keymap(), xkb.available(), #[trigger] rest[i]) is Ok {
                    assert forall|i: int| 0 <= i < characters.len() implies spec_key_for_char(
                        xkb.keymap(),
                        xkb.available(),
                        #[trigger] characters[i],
                    ) is Ok by {
                        if i > 0 {
                            assert(characters[i] == rest[i - 1]);
                        }
                    }
                } else {
                    let j = choose|j: int|
                        0 <= j < rest.len() && !(spec_key_for_char(xkb.keymap(), xkb.available(), #[trigger] rest[j]) is Ok);
                    assert(characters[j + 1] == rest[j]);
                }
            },
        }
    }
}

/// Typing a character through the fallback: it goes through exactly when every hexadecimal digit
/// of the character's code point has a key, and then presses, leaving the modifier keys aside,
/// the prefix key, the keys of all the lowercase hexadecimal digits of the code point, which read
/// back to the whole code point, and the confirmation key.
pub proof fn lemma_fallback_enters_code_point(
    xkb: Xkb,
    keys: UnicodeFallbackKeys,
    used: AvailableModifiers,
    active: ActiveModifiers,
    character: char,
    key_hold: u64,
)
    requires
        key_fits(used, keys.prefix),
        key_fits(used, keys.confirm),
        forall|i: int|
            0 <= i < spec_lower_hex((character as u32) as nat).len() ==> char_key_fits(
                xkb,
                used,
                #[trigger] spec_lower_hex((character as u32) as nat)[i],
            ),
    ensures
        ({
            let typed = spec_type_char_with_unicode_fallback(xkb, keys, active, character, key_hold);
            let digits = spec_lower_hex((character as u32) as nat);
            &&& hex_value(digits) == character as u32
            &&& typed.2 is None <==> forall|i: int|
                0 <= i < digits.len() ==> spec_key_for_char(xkb.keymap(), xkb.available(), #[trigger] digits[i]) is Ok
            &&& typed.2 is None ==> key_presses(used, typed.0) == seq![keys.prefix.keycode] + char_keycodes(
                xkb,
                digits,
            ) + seq![keys.confirm.keycode]
        }),
{
    let digits = spec_lower_hex((character as u32) as nat);
    lemma_lower_hex_roundtrip((character as u32) as nat);
    let prefix = spec_send_mapped_key(active, keys.prefix, key_hold);
    lemma_send_mapped_key_presses(used, active, keys.prefix, key_hold);
    lemma_send_char_keys_presses(xkb, used, prefix.1, digits, key_hold);
    let sent = spec_send_char_keys(xkb, prefix.1, digits, key_hold);
    if sent.2 is None {
        let confirm = spec_send_mapped_key(sent.1, keys.confirm, key_hold);
        lemma_send_mapped_key_presses(used, sent.1, keys.confirm, key_hold);
        lemma_key_presses_concat(used, prefix.0, sent.0);
        lemma_key_presses_concat(used, prefix.0 + sent.0, confirm.0);
    }
}

} // verus!

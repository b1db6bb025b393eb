//! Which characters count as failed, and how modifiers carry over between keys.
use vstd::prelude::*;

use crate::typing::{
    key_of, spec_failed_characters, spec_run, spec_step, spec_transition_modifiers, spec_type_char,
    spec_typing_actions, ActiveModifiers, TypingAction,
};
use crate::xkb::mapping::spec_key_for_char;
use crate::xkb::modifier::Modifiers;
use crate::xkb::Xkb;
use crate::{KwtyprConfig, UnicodeFallback};

verus! {

/// How many of `characters` have no key of their own in the keymap.
pub open spec fn untypable_count(xkb: Xkb, characters: Seq<char>) -> nat
    decreases characters.len(),
{
    if characters.len() == 0 {
        0
    } else {
        untypable_count(xkb, characters.drop_last()) + if spec_key_for_char(
            xkb.keymap(),
            xkb.available(),
            characters.last(),
        ) is Err {
            1nat
        } else {
            0nat
        }
    }
}

/// Without the Unicode fallback, the characters that fail are exactly those without a key of
/// their own.
pub proof fn lemma_failed_without_fallback(
    xkb: Xkb,
    config: KwtyprConfig,
    active: ActiveModifiers,
    characters: Seq<char>,
)
    ensures
        spec_failed_characters(xkb, UnicodeFallback::Disabled, config, active, characters)
            == untypable_count(xkb, characters),
    decreases characters.len(),
{
    reveal(spec_step);
    if characters.len() > 0 {
        lemma_failed_without_fallback(xkb, config, active, characters.drop_last());
    }
}

/// When every character has a key of its own, every character is typed, with or without the
/// fallback.
pub proof fn lemma_all_mapped_complete(
    xkb: Xkb,
    fallback: UnicodeFallback,
    config: KwtyprConfig,
    active: ActiveModifiers,
    characters: Seq<char>,
)
    requires
        forall|i: int|
            0 <= i < characters.len() ==> spec_key_for_char(xkb.keymap(), xkb.available(), #[trigger] characters[i])
                is Ok,
    ensures
        spec_failed_characters(xkb, fallback, config, active, characters) == 0,
    decreases characters.len(),
{
    reveal(spec_step);
    if characters.len() > 0 {
        let prefix = characters.drop_last();
        assert forall|i: int| 0 <= i < prefix.len() implies spec_key_for_char(
            xkb.keymap(),
            xkb.available(),
            #[trigger] prefix[i],
        ) is Ok by {
            assert(prefix[i] == characters[i]);
        }
        lemma_all_mapped_complete(xkb, fallback, config, active, prefix);
        assert(spec_key_for_char(xkb.keymap(), xkb.available(), characters[characters.len() - 1]) is Ok);
    }
}

/// The modifier keys held for a choice of modifiers.
pub open spec fn held_for(modifiers: Modifiers) -> ActiveModifiers {
    ActiveModifiers {
        ctrl: key_of(modifiers.ctrl),
        shift: key_of(modifiers.shift),
        altgr: key_of(modifiers.altgr),
    }
}

/// After the modifiers move for a key, exactly the modifier keys that key needs are held.
pub proof fn lemma_transition_holds_needed(active: ActiveModifiers, modifiers: Modifiers)
    ensures
        spec_transition_modifiers(active, modifiers).1 == held_for(modifiers),
{
}

/// Modifiers already held as a key needs them are not pressed again: consecutive keys that need
/// the same modifiers send no modifier events between them.
pub proof fn lemma_held_modifiers_not_repeated(modifiers: Modifiers)
    ensures
        spec_transition_modifiers(held_for(modifiers), modifiers).0 == Seq::<TypingAction>::empty(),
{
    assert(spec_transition_modifiers(held_for(modifiers), modifiers).0 =~= Seq::<TypingAction>::empty());
}

/// After any number of characters, the steps so far still begin with the initial wait.
proof fn lemma_run_starts_with_initial_delay(
    xkb: Xkb,
    fallback: UnicodeFallback,
    config: KwtyprConfig,
    active: ActiveModifiers,
    characters: Seq<char>,
)
    requires
        config.initial_delay > 0,
    ensures
        spec_run(xkb, fallback, config, active, characters).actions.len() > 0,
        spec_run(xkb, fallback, config, active, characters).actions[0] == (TypingAction::Sleep {
            millis: config.initial_delay,
        }),
    decreases characters.len(),
{
    if characters.len() > 0 {
        lemma_run_starts_with_initial_delay(xkb, fallback, config, active, characters.drop_last());
        reveal(spec_step);
    }
}

/// With an initial delay, typing any text, whatever the pacing, starts by waiting that long,
/// before any key event.
pub proof fn lemma_initial_delay_comes_first(
    xkb: Xkb,
    fallback: UnicodeFallback,
    config: KwtyprConfig,
    active: ActiveModifiers,
    characters: Seq<char>,
)
    requires
        config.initial_delay > 0,
    ensures
        spec_typing_actions(xkb, fallback, config, active, characters).len() > 0,
        spec_typing_actions(xkb, fallback, config, active, characters)[0] == (TypingAction::Sleep {
            millis: config.initial_delay,
        }),
{
    lemma_run_starts_with_initial_delay(xkb, fallback, config, active, characters);
}

} // verus!

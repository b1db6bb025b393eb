//! The key events, flushes and waits that type a text.
//!
//! A `Typer` does not talk to the compositor itself: it lists, in order, what to send and when
//! to wait. Whoever runs the list sends each key event, sends the queued events at each flush,
//! sleeps at each wait, reports each character that could not be typed, and stops at the first
//! flush that fails.
use vstd::prelude::*;

pub mod alternation;
pub mod held_keys;
pub mod outcome;
pub mod presses;

use crate::xkb::keycode::PlatformKeycode;
use crate::xkb::mapping::{spec_key_for_char, MappedKey, XkbMappingError};
use crate::xkb::modifier::{ModifierMapping, Modifiers};
use crate::xkb::unicode_fallback::{lower_hex_digits, spec_lower_hex, UnicodeFallbackKeys};
use crate::xkb::Xkb;
use crate::{KwtyprConfig, Ready, UnicodeFallback};
use vstd::std_specs::iter::IteratorSpec;
use vstd::string::StrSliceExecFns;

verus! {

broadcast use vstd::string::group_string_axioms;

/// Whether a key goes down or comes up.
#[derive(Debug, Clone, Copy, PartialEq, Eq)]
pub enum KeyState {
    Released,
    Pressed,
}

/// One step of typing.
#[derive(Debug, Clone, Copy, PartialEq, Eq)]
pub enum TypingAction {
    /// Queue a key event.
    Key { keycode: PlatformKeycode, state: KeyState },
    /// Send the queued key events to the compositor.
    Flush,
    /// Wait this many milliseconds.
    Sleep { millis: u64 },
    /// Report that a character could not be typed with the current layout.
    ReportUntypable { character: char, error: XkbMappingError },
}

/// The modifier keys currently held down, by modifier.
#[derive(Debug, Clone, Copy, PartialEq, Eq)]
pub struct ActiveModifiers {
    pub ctrl: Option<PlatformKeycode>,
    pub shift: Option<PlatformKeycode>,
    pub altgr: Option<PlatformKeycode>,
}

/// Whether every character was typed.
#[derive(Debug, Clone, Copy, PartialEq, Eq)]
pub enum TypingOutcome {
    Complete,
    Partial { failed_characters: usize },
}

pub open spec fn no_modifiers() -> ActiveModifiers {
    ActiveModifiers { ctrl: None, shift: None, altgr: None }
}

pub open spec fn press(keycode: PlatformKeycode) -> TypingAction {
    TypingAction::Key { keycode, state: KeyState::Pressed }
}

pub open spec fn release(keycode: PlatformKeycode) -> TypingAction {
    TypingAction::Key { keycode, state: KeyState::Released }
}

/// Moving one modifier from the key held for it (if any) to the key wanted for it (if any).
pub open spec fn spec_transition_modifier(
    previous: Option<PlatformKeycode>,
    next: Option<PlatformKeycode>,
) -> (Seq<TypingAction>, Option<PlatformKeycode>) {
    match (previous, next) {
        (None, None) => (seq![], None),
        (None, Some(n)) => (seq![press(n)], Some(n)),
        (Some(p), None) => (seq![release(p)], None),
        (Some(p), Some(n)) => if p == n {
            (seq![], Some(n))
        } else {
            (seq![release(p), press(n)], Some(n))
        },
    }
}

pub open spec fn key_of(m: Option<ModifierMapping>) -> Option<PlatformKeycode> {
    match m {
        Some(mapping) => Some(mapping.keycode),
        None => None,
    }
}

/// Moving all modifiers to those a key needs: Ctrl first, then AltGr, then Shift.
pub open spec fn spec_transition_modifiers(active: ActiveModifiers, modifiers: Modifiers) -> (Seq<TypingAction>, ActiveModifiers) {
    let c = spec_transition_modifier(active.ctrl, key_of(modifiers.ctrl));
    let g = spec_transition_modifier(active.altgr, key_of(modifiers.altgr));
    let s = spec_transition_modifier(active.shift, key_of(modifiers.shift));
    (c.0 + g.0 + s.0, ActiveModifiers { ctrl: c.1, shift: s.1, altgr: g.1 })
}

/// Releasing every held modifier: Ctrl first, then AltGr, then Shift.
pub open spec fn spec_release_all_modifiers(active: ActiveModifiers) -> Seq<TypingAction> {
    spec_transition_modifier(active.ctrl, None).0 + spec_transition_modifier(active.altgr, None).0
        + spec_transition_modifier(active.shift, None).0
}

/// Pressing and releasing a key; with a hold time the press is sent and held before the release,
/// and the release is sent at once.
pub open spec fn spec_tap(keycode: PlatformKeycode, key_hold: u64) -> Seq<TypingAction> {
    if key_hold == 0 {
        seq![press(keycode), release(keycode)]
    } else {
        seq![
            press(keycode),
            TypingAction::Flush,
            TypingAction::Sleep { millis: key_hold },
            release(keycode),
            TypingAction::Flush,
        ]
    }
}

/// Typing a mapped key: the modifiers it needs, then the key itself.
pub open spec fn spec_send_mapped_key(active: ActiveModifiers, key: MappedKey, key_hold: u64) -> (Seq<TypingAction>, ActiveModifiers) {
    let t = spec_transition_modifiers(active, key.modifiers);
    (t.0 + spec_tap(key.keycode, key_hold), t.1)
}

/// Typing characters one after another with their own keys, up to the first that has no key.
pub open spec fn spec_send_char_keys(
    xkb: Xkb,
    active: ActiveModifiers,
    characters: Seq<char>,
    key_hold: u64,
) -> (Seq<TypingAction>, ActiveModifiers, Option<XkbMappingError>)
    decreases characters.len(),
{
    if characters.len() == 0 {
        (seq![], active, None)
    } else {
        match spec_key_for_char(xkb.keymap(), xkb.available(), characters[0]) {
            Err(e) => (seq![], active, Some(e)),
            Ok(key) => {
                let first = spec_send_mapped_key(active, key, key_hold);
                let rest = spec_send_char_keys(xkb, first.1, characters.drop_first(), key_hold);
                (first.0 + rest.0, rest.1, rest.2)
            },
        }
    }
}

/// Typing a character with Ctrl+Shift+U, its lowercase hexadecimal code point and Space.
pub open spec fn spec_type_char_with_unicode_fallback(
    xkb: Xkb,
    keys: UnicodeFallbackKeys,
    active: ActiveModifiers,
    character: char,
    key_hold: u64,
) -> (Seq<TypingAction>, ActiveModifiers, Option<XkbMappingError>) {
    let prefix = spec_send_mapped_key(active, keys.prefix, key_hold);
    let digits = spec_send_char_keys(xkb, prefix.1, spec_lower_hex((character as u32) as nat), key_hold);
    match digits.2 {
        Some(e) => (prefix.0 + digits.0, digits.1, Some(e)),
        None => {
            let confirm = spec_send_mapped_key(digits.1, keys.confirm, key_hold);
            (prefix.0 + digits.0 + confirm.0, confirm.1, None)
        },
    }
}

/// Typing one character: with its own key, or else with the fallback when it is enabled.
pub open spec fn spec_type_char(
    xkb: Xkb,
    fallback: UnicodeFallback,
    active: ActiveModifiers,
    character: char,
    key_hold: u64,
) -> (Seq<TypingAction>, ActiveModifiers, Option<XkbMappingError>) {
    match spec_key_for_char(xkb.keymap(), xkb.available(), character) {
        Ok(key) => {
            let sent = spec_send_mapped_key(active, key, key_hold);
            (sent.0, sent.1, None)
        },
        Err(e) => match fallback {
            UnicodeFallback::Disabled => (seq![], active, Some(e)),
            UnicodeFallback::Enabled(keys) => spec_type_char_with_unicode_fallback(
                xkb,
                keys,
                active,
                character,
                key_hold,
            ),
        },
    }
}

/// Where typing stands after some characters.
pub ghost struct TypingProgress {
    pub actions: Seq<TypingAction>,
    pub active: ActiveModifiers,
    pub failed: nat,
    pub in_chunk: nat,
}

/// Before the first character: the initial wait, if any.
pub open spec fn spec_start(config: KwtyprConfig, active: ActiveModifiers) -> TypingProgress {
    TypingProgress {
        actions: if config.initial_delay == 0 {
            seq![]
        } else {
            seq![TypingAction::Sleep { millis: config.initial_delay }]
        },
        active,
        failed: 0,
        in_chunk: 0,
    }
}

/// One more character: its keys, a report if it could not be typed, and at the end of a chunk a
/// flush and the chunk's wait.
#[verifier::opaque]
pub open spec fn spec_step(
    xkb: Xkb,
    fallback: UnicodeFallback,
    config: KwtyprConfig,
    progress: TypingProgress,
    character: char,
) -> TypingProgress {
    let typed = spec_type_char(xkb, fallback, progress.active, character, config.key_hold);
    let report = match typed.2 {
        Some(error) => seq![TypingAction::ReportUntypable { character, error }],
        None => seq![],
    };
    let failed = if typed.2 is Some {
        progress.failed + 1
    } else {
        progress.failed
    };
    let actions = progress.actions + typed.0 + report;
    match config.chunk_pacing {
        None => TypingProgress { actions, active: typed.1, failed, in_chunk: 0 },
        Some(pacing) => if progress.in_chunk + 1 >= pacing.size {
            TypingProgress {
                actions: actions + seq![TypingAction::Flush, TypingAction::Sleep { millis: pacing.delay }],
                active: typed.1,
                failed,
                in_chunk: 0,
            }
        } else {
            TypingProgress { actions, active: typed.1, failed, in_chunk: progress.in_chunk + 1 }
        },
    }
}

/// Where typing stands after the characters `characters`.
pub open spec fn spec_run(
    xkb: Xkb,
    fallback: UnicodeFallback,
    config: KwtyprConfig,
    active: ActiveModifiers,
    characters: Seq<char>,
) -> TypingProgress
    decreases characters.len(),
{
    if characters.len() == 0 {
        spec_start(config, active)
    } else {
        spec_step(
            xkb,
            fallback,
            config,
            spec_run(xkb, fallback, config, active, characters.drop_last()),
            characters.last(),
        )
    }
}

/// The flush and wait after a last chunk shorter than the chunk size.
pub open spec fn spec_last_chunk_pause(config: KwtyprConfig, in_chunk: nat) -> Seq<TypingAction> {
    match config.chunk_pacing {
        Some(pacing) => if in_chunk > 0 {
            seq![TypingAction::Flush, TypingAction::Sleep { millis: pacing.delay }]
        } else {
            seq![]
        },
        None => seq![],
    }
}

/// All steps of typing `characters`: the characters, the wait after a last, shorter chunk, then
/// releasing the modifiers, then (when typing in chunks) a last flush.
pub open spec fn spec_typing_actions(
    xkb: Xkb,
    fallback: UnicodeFallback,
    config: KwtyprConfig,
    active: ActiveModifiers,
    characters: Seq<char>,
) -> Seq<TypingAction> {
    let run = spec_run(xkb, fallback, config, active, characters);
    run.actions + spec_last_chunk_pause(config, run.in_chunk) + spec_release_all_modifiers(run.active)
        + if config.chunk_pacing is Some {
        seq![TypingAction::Flush]
    } else {
        seq![]
    }
}

/// How many of `characters` could not be typed.
pub open spec fn spec_failed_characters(
    xkb: Xkb,
    fallback: UnicodeFallback,
    config: KwtyprConfig,
    active: ActiveModifiers,
    characters: Seq<char>,
) -> nat {
    spec_run(xkb, fallback, config, active, characters).failed
}

/// Turns text into the steps that type it.
pub struct Typer<'a> {
    xkb: &'a Xkb,
    config: &'a KwtyprConfig,
    unicode_fallback: &'a UnicodeFallback,
    active_modifiers: ActiveModifiers,
    actions: Vec<TypingAction>,
}

impl<'a> Typer<'a> {
    pub closed spec fn spec_xkb(&self) -> Xkb {
        *self.xkb
    }

    pub closed spec fn spec_config(&self) -> KwtyprConfig {
        *self.config
    }

    pub closed spec fn spec_fallback(&self) -> UnicodeFallback {
        *self.unicode_fallback
    }

    /// The modifier keys held down after the steps so far.
    pub closed spec fn spec_active(&self) -> ActiveModifiers {
        self.active_modifiers
    }

    /// The steps so far.
    pub closed spec fn spec_actions(&self) -> Seq<TypingAction> {
        self.actions@
    }

    /// The keymap, configuration and fallback are those of `other`.
    pub open spec fn same_setup(&self, other: &Typer) -> bool {
        &&& self.spec_xkb() == other.spec_xkb()
        &&& self.spec_config() == other.spec_config()
        &&& self.spec_fallback() == other.spec_fallback()
    }

    /// A typer with no modifier held and no steps yet.
    pub fn new(state: &'a Ready, config: &'a KwtyprConfig) -> (typer: Typer<'a>)
        ensures
            typer.spec_xkb() == state.xkb,
            typer.spec_config() == *config,
            typer.spec_fallback() == state.unicode_fallback,
            typer.spec_active() == no_modifiers(),
            typer.spec_actions() == Seq::<TypingAction>::empty(),
    {
        Typer {
            xkb: &state.xkb,
            config,
            unicode_fallback: &state.unicode_fallback,
            active_modifiers: ActiveModifiers { ctrl: None, shift: None, altgr: None },
            actions: Vec::new(),
        }
    }

    /// The steps so far.
    pub fn actions(&self) -> (actions: &Vec<TypingAction>)
        ensures
            actions@ == self.spec_actions(),
    {
        &self.actions
    }

    /// The steps so far, handed over.
    pub fn into_actions(self) -> (actions: Vec<TypingAction>)
        ensures
            actions@ == self.spec_actions(),
    {
        self.actions
    }

    /// Types `text`, and tells whether every character could be typed.
    pub fn type_text(&mut self, text: &str) -> (outcome: TypingOutcome)
        ensures
            final(self).same_setup(old(self)),
            final(self).spec_actions() == old(self).spec_actions() + spec_typing_actions(
                old(self).spec_xkb(),
                old(self).spec_fallback(),
                old(self).spec_config(),
                old(self).spec_active(),
                text@,
            ),
            final(self).spec_active() == no_modifiers(),
            spec_failed_characters(
                old(self).spec_xkb(),
                old(self).spec_fallback(),
                old(self).spec_config(),
                old(self).spec_active(),
                text@,
            ) <= text@.len(),
            outcome == if spec_failed_characters(
                old(self).spec_xkb(),
                old(self).spec_fallback(),
                old(self).spec_config(),
                old(self).spec_active(),
                text@,
            ) == 0 {
                TypingOutcome::Complete
            } else {
                TypingOutcome::Partial {
                    failed_characters: spec_failed_characters(
                        old(self).spec_xkb(),
                        old(self).spec_fallback(),
                        old(self).spec_config(),
                        old(self).spec_active(),
                        text@,
                    ) as usize,
                }
            },
    {
        let ghost xkb = *self.xkb;
        let ghost fallback = *self.unicode_fallback;
        let ghost config = *self.config;
        let ghost start_active = self.active_modifiers;
        let ghost start_actions = self.actions@;
        if self.config.initial_delay != 0 {
            self.actions.push(TypingAction::Sleep { millis: self.config.initial_delay });
        }
        proof {
            assert(text@.take(0) =~= Seq::<char>::empty());
            assert(self.actions@ =~= start_actions + spec_start(config, start_active).actions);
        }
        let n = text.unicode_len();
        let mut chars = text.chars();
        let mut failed_characters: usize = 0;
        let mut in_chunk: u32 = 0;
        let mut i: usize = 0;
        while i < n
            invariant
                n == text@.len(),
                0 <= i <= n,
                chars.obeys_prophetic_iter_laws(),
                chars.remaining() == text@.skip(i as int),
                *self.xkb == xkb,
                *self.unicode_fallback == fallback,
                *self.config == config,
                ({
                    let run = spec_run(xkb, fallback, config, start_active, text@.take(i as int));
                    &&& self.actions@ == start_actions + run.actions
                    &&& self.active_modifiers == run.active
                    &&& failed_characters == run.failed
                    &&& in_chunk == run.in_chunk
                }),
                failed_characters <= i,
                config.chunk_pacing is None ==> in_chunk == 0,
                config.chunk_pacing matches Some(p) ==> (in_chunk == 0 || in_chunk < p.size),
            decreases n - i,
        {
            let next = chars.next();
            let character = next.unwrap();
            let ghost progress = spec_run(xkb, fallback, config, start_active, text@.take(i as int));
            proof {
                assert(text@.skip(i as int)[0] == text@[i as int]);
                assert(text@.skip(i as int).drop_first() =~= text@.skip(i + 1));
                assert(text@.take(i + 1).drop_last() =~= text@.take(i as int));
                assert(text@.take(i + 1).last() == text@[i as int]);
            }
            let counts = self.type_next_character(
                character,
                failed_characters,
                in_chunk,
                Ghost(progress),
                Ghost(start_actions),
            );
            failed_characters = counts.0;
            in_chunk = counts.1;
            i = i + 1;
        }
        proof {
            assert(text@.take(n as int) =~= text@);
        }
        match self.config.chunk_pacing {
            Some(pacing) => {
                if in_chunk > 0 {
                    self.actions.push(TypingAction::Flush);
                    self.actions.push(TypingAction::Sleep { millis: pacing.delay });
                }
            },
            None => {},
        }
        self.release_all_modifiers();
        if self.config.chunk_pacing.is_some() {
            self.actions.push(TypingAction::Flush);
        }
        proof {
            assert(self.actions@ =~= start_actions + spec_typing_actions(xkb, fallback, config, start_active, text@));
        }
        if failed_characters == 0 {
            TypingOutcome::Complete
        } else {
            TypingOutcome::Partial { failed_characters }
        }
    }

    /// Types the next character of a text and, at the end of a chunk, flushes and waits;
    /// returns the updated count of failed characters and of characters in the current chunk.
    fn type_next_character(
        &mut self,
        character: char,
        failed: usize,
        in_chunk: u32,
        Ghost(progress): Ghost<TypingProgress>,
        Ghost(start): Ghost<Seq<TypingAction>>,
    ) -> (counts: (usize, u32))
        requires
            old(self).spec_actions() == start + progress.actions,
            old(self).spec_active() == progress.active,
            failed == progress.failed,
            in_chunk == progress.in_chunk,
            failed < usize::MAX,
            old(self).spec_config().chunk_pacing is None ==> in_chunk == 0,
            old(self).spec_config().chunk_pacing matches Some(p) ==> (in_chunk == 0 || in_chunk < p.size),
        ensures
            final(self).same_setup(old(self)),
            ({
                let next = spec_step(
                    old(self).spec_xkb(),
                    old(self).spec_fallback(),
                    old(self).spec_config(),
                    progress,
                    character,
                );
                &&& final(self).spec_actions() == start + next.actions
                &&& final(self).spec_active() == next.active
                &&& counts.0 == next.failed
                &&& counts.1 == next.in_chunk
            }),
            counts.0 <= failed + 1,
            old(self).spec_config().chunk_pacing is None ==> counts.1 == 0,
            old(self).spec_config().chunk_pacing matches Some(p) ==> (counts.1 == 0 || counts.1 < p.size),
    {
        proof {
            reveal(spec_step);
        }
        let mut failed = failed;
        let mut in_chunk = in_chunk;
        let typed = self.type_char(character);
        match typed {
            Ok(()) => {},
            Err(error) => {
                self.actions.push(TypingAction::ReportUntypable { character, error });
                failed = failed + 1;
            },
        }
        let ghost after_char = self.actions@;
        match self.config.chunk_pacing {
            None => {},
            Some(pacing) => {
                if self.should_flush_after_character(in_chunk + 1) {
                    self.actions.push(TypingAction::Flush);
                    self.actions.push(TypingAction::Sleep { millis: pacing.delay });
                    in_chunk = 0;
                } else {
                    in_chunk = in_chunk + 1;
                }
            },
        }
        proof {
            let next = spec_step(*self.xkb, *self.unicode_fallback, *self.config, progress, character);
            let typed_spec = spec_type_char(*self.xkb, *self.unicode_fallback, progress.active, character, self.config.key_hold);
            let report = match typed_spec.2 {
                Some(error) => seq![TypingAction::ReportUntypable { character, error }],
                None => seq![],
            };
            assert(after_char =~= start + (progress.actions + typed_spec.0 + report));
            assert(self.actions@ =~= start + next.actions);
        }
        (failed, in_chunk)
    }

    /// Types one character, with its own key or with the fallback when that is enabled.
    fn type_char(&mut self, character: char) -> (result: Result<(), XkbMappingError>)
        ensures
            final(self).same_setup(old(self)),
            ({
                let typed = spec_type_char(
                    old(self).spec_xkb(),
                    old(self).spec_fallback(),
                    old(self).spec_active(),
                    character,
                    old(self).spec_config().key_hold,
                );
                &&& final(self).spec_actions() == old(self).spec_actions() + typed.0
                &&& final(self).spec_active() == typed.1
                &&& result == match typed.2 {
                    Some(e) => Err::<(), XkbMappingError>(e),
                    None => Ok(()),
                }
            }),
    {
        let xkb = self.xkb;
        match xkb.key_for_char(character) {
            Ok(mapped_key) => {
                self.send_mapped_key(&mapped_key);
                Ok(())
            },
            Err(error) => {
                let fallback = self.unicode_fallback;
                match fallback {
                    UnicodeFallback::Disabled => Err(error),
                    UnicodeFallback::Enabled(unicode_fallback_keys) => {
                        self.type_char_with_unicode_fallback(character, unicode_fallback_keys)
                    },
                }
            },
        }
    }

    /// Types a key with the modifiers it needs.
    fn send_mapped_key(&mut self, mapped_key: &MappedKey)
        ensures
            final(self).same_setup(old(self)),
            ({
                let sent = spec_send_mapped_key(old(self).spec_active(), *mapped_key, old(self).spec_config().key_hold);
                &&& final(self).spec_actions() == old(self).spec_actions() + sent.0
                &&& final(self).spec_active() == sent.1
            }),
    {
        self.transition_modifiers(mapped_key.modifiers);
        let ghost after_modifiers = self.actions@;
        self.send_key(mapped_key.keycode, KeyState::Pressed);
        if self.config.key_hold != 0 {
            self.actions.push(TypingAction::Flush);
            self.actions.push(TypingAction::Sleep { millis: self.config.key_hold });
        }
        self.send_key(mapped_key.keycode, KeyState::Released);
        if self.config.key_hold != 0 {
            self.actions.push(TypingAction::Flush);
        }
        proof {
            assert(self.actions@ =~= after_modifiers + spec_tap(mapped_key.keycode, self.config.key_hold));
        }
    }

    /// Types a character with Ctrl+Shift+U, its lowercase hexadecimal code point and Space.
    fn type_char_with_unicode_fallback(
        &mut self,
        character: char,
        unicode_fallback_keys: &UnicodeFallbackKeys,
    ) -> (result: Result<(), XkbMappingError>)
        ensures
            final(self).same_setup(old(self)),
            ({
                let typed = spec_type_char_with_unicode_fallback(
                    old(self).spec_xkb(),
                    *unicode_fallback_keys,
                    old(self).spec_active(),
                    character,
                    old(self).spec_config().key_hold,
                );
                &&& final(self).spec_actions() == old(self).spec_actions() + typed.0
                &&& final(self).spec_active() == typed.1
                &&& result == match typed.2 {
                    Some(e) => Err::<(), XkbMappingError>(e),
                    None => Ok(()),
                }
            }),
    {
        let ghost start_actions = self.actions@;
        let ghost key_hold = self.config.key_hold;
        let ghost xkb = *self.xkb;
        let ghost prefix_spec = spec_send_mapped_key(self.active_modifiers, unicode_fallback_keys.prefix, key_hold);
        self.send_mapped_key(&unicode_fallback_keys.prefix);
        let ghost after_prefix = self.actions@;
        let ghost after_prefix_active = self.active_modifiers;
        let digits = lower_hex_digits(character as u32);
        let n = digits.len();
        let ghost whole = spec_send_char_keys(xkb, after_prefix_active, digits@, key_hold);
        let mut i: usize = 0;
        proof {
            assert(digits@.skip(0) =~= digits@);
        }
        while i < n
            invariant
                n == digits@.len(),
                0 <= i <= n,
                *self.xkb == xkb,
                self.config.key_hold == key_hold,
                old(self).same_setup(self),
                whole == spec_send_char_keys(xkb, after_prefix_active, digits@, key_hold),
                after_prefix == start_actions + prefix_spec.0,
                start_actions == old(self).spec_actions(),
                after_prefix_active == prefix_spec.1,
                prefix_spec == spec_send_mapped_key(old(self).spec_active(), unicode_fallback_keys.prefix, key_hold),
                key_hold == old(self).spec_config().key_hold,
                xkb == old(self).spec_xkb(),
                digits@ == spec_lower_hex((character as u32) as nat),
                ({
                    let rest = spec_send_char_keys(xkb, self.active_modifiers, digits@.skip(i as int), key_hold);
                    &&& self.actions@.len() >= after_prefix.len()
                    &&& self.actions@.subrange(0, after_prefix.len() as int) == after_prefix
                    &&& whole == (
                        self.actions@.subrange(after_prefix.len() as int, self.actions@.len() as int) + rest.0,
                        rest.1,
                        rest.2,
                    )
                }),
            decreases n - i,
        {
            let ghost before = self.actions@;
            proof {
                assert(digits@.skip(i as int)[0] == digits@[i as int]);
                assert(digits@.skip(i as int).drop_first() =~= digits@.skip(i + 1));
            }
            let mapped_key = match self.xkb.key_for_char(digits[i]) {
                Ok(key) => key,
                Err(error) => {
                    proof {
                        let sub = self.actions@.subrange(after_prefix.len() as int, self.actions@.len() as int);
                        assert(self.actions@ =~= after_prefix + sub);
                        assert(whole.0 =~= sub);
                        assert(self.actions@ =~= start_actions + (prefix_spec.0 + whole.0));

                    }
                    return Err(error);
                },
            };
            self.send_mapped_key(&mapped_key);
            proof {
                let added = self.actions@.subrange(before.len() as int, self.actions@.len() as int);
                assert(self.actions@ =~= before + added);
                assert(self.actions@.subrange(0, after_prefix.len() as int) =~= after_prefix);
                assert(self.actions@.subrange(after_prefix.len() as int, self.actions@.len() as int)
                    =~= before.subrange(after_prefix.len() as int, before.len() as int) + added);
            }
            i = i + 1;
        }
        proof {
            assert(digits@.skip(n as int) =~= Seq::<char>::empty());
        }
        let ghost after_digits = self.actions@;
        self.send_mapped_key(&unicode_fallback_keys.confirm);
        proof {
            assert(after_digits =~= after_prefix + after_digits.subrange(
                after_prefix.len() as int,
                after_digits.len() as int,
            ));
        }
        Ok(())
    }

    /// Moves every modifier to what a key needs: Ctrl first, then AltGr, then Shift.
    fn transition_modifiers(&mut self, modifiers: Modifiers)
        ensures
            final(self).same_setup(old(self)),
            ({
                let t = spec_transition_modifiers(old(self).spec_active(), modifiers);
                &&& final(self).spec_actions() == old(self).spec_actions() + t.0
                &&& final(self).spec_active() == t.1
            }),
    {
        let target_ctrl = match modifiers.ctrl {
            Some(ctrl) => Some(ctrl.keycode),
            None => None,
        };
        let target_shift = match modifiers.shift {
            Some(shift) => Some(shift.keycode),
            None => None,
        };
        let target_altgr = match modifiers.altgr {
            Some(altgr) => Some(altgr.keycode),
            None => None,
        };
        let ctrl = self.transition_modifier(self.active_modifiers.ctrl, target_ctrl);
        self.active_modifiers.ctrl = ctrl;
        let altgr = self.transition_modifier(self.active_modifiers.altgr, target_altgr);
        self.active_modifiers.altgr = altgr;
        let shift = self.transition_modifier(self.active_modifiers.shift, target_shift);
        self.active_modifiers.shift = shift;
        proof {
            let t = spec_transition_modifiers(old(self).active_modifiers, modifiers);
            assert(self.actions@ =~= old(self).actions@ + t.0);
        }
    }

    /// Moves one modifier from the key held for it to the key wanted for it, and returns the
    /// key held for it afterwards.
    fn transition_modifier(
        &mut self,
        previous: Option<PlatformKeycode>,
        next: Option<PlatformKeycode>,
    ) -> (held: Option<PlatformKeycode>)
        ensures
            final(self).same_setup(old(self)),
            final(self).spec_active() == old(self).spec_active(),
            final(self).spec_actions() == old(self).spec_actions() + spec_transition_modifier(previous, next).0,
            held == spec_transition_modifier(previous, next).1,
    {
        match (previous, next) {
            (None, None) => None,
            (None, Some(next)) => {
                self.send_key(next, KeyState::Pressed);
                Some(next)
            },
            (Some(previous), None) => {
                self.send_key(previous, KeyState::Released);
                None
            },
            (Some(previous), Some(next)) => {
                if previous == next {
                    Some(next)
                } else {
                    self.send_key(previous, KeyState::Released);
                    self.send_key(next, KeyState::Pressed);
                    Some(next)
                }
            },
        }
    }

    /// Releases every held modifier: Ctrl first, then AltGr, then Shift.
    fn release_all_modifiers(&mut self)
        ensures
            final(self).same_setup(old(self)),
            final(self).spec_actions() == old(self).spec_actions() + spec_release_all_modifiers(old(self).spec_active()),
            final(self).spec_active() == no_modifiers(),
    {
        let ctrl = self.transition_modifier(self.active_modifiers.ctrl, None);
        self.active_modifiers.ctrl = ctrl;
        let altgr = self.transition_modifier(self.active_modifiers.altgr, None);
        self.active_modifiers.altgr = altgr;
        let shift = self.transition_modifier(self.active_modifiers.shift, None);
        self.active_modifiers.shift = shift;
        proof {
            assert(self.actions@ =~= old(self).actions@ + spec_release_all_modifiers(old(self).active_modifiers));
        }
    }

    /// Queues a key event.
    fn send_key(&mut self, keycode: PlatformKeycode, state: KeyState)
        ensures
            final(self).same_setup(old(self)),
            final(self).spec_active() == old(self).spec_active(),
            final(self).spec_actions() == old(self).spec_actions().push(TypingAction::Key { keycode, state }),
    {
        self.actions.push(TypingAction::Key { keycode, state });
    }

    /// Whether a chunk is complete after `queued_characters` characters of it.
    fn should_flush_after_character(&self, queued_characters: u32) -> (flush: bool)
        ensures
            flush == (self.spec_config().chunk_pacing matches Some(p) && queued_characters >= p.size),
    {
        match self.config.chunk_pacing {
            Some(pacing) => queued_characters >= pacing.size,
            None => false,
        }
    }
}

} // verus!

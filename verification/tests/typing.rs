use std::collections::HashSet;

use kwtypr::typing::{KeyState, TypingAction, TypingOutcome, Typer};
use kwtypr::xkb::keycode::PlatformKeycode;
use kwtypr::xkb::keymap::{KeyEntry, KeymapModel, LevelEntry, MOD_INVALID};
use kwtypr::xkb::mapping::XkbMappingError;
use kwtypr::xkb::unicode_fallback::UnicodeFallbackInitError;
use kwtypr::xkb::Xkb;
use kwtypr::{ChunkPacing, KwtyprConfig, Ready, UnicodeFallback};

fn level(syms: &[u32], masks: &[u32]) -> LevelEntry {
    LevelEntry { syms: syms.to_vec(), mod_masks: masks.to_vec() }
}

fn key(levels: Vec<LevelEntry>, pressed_mods: u32) -> KeyEntry {
    KeyEntry { levels, pressed_mods }
}

/// Shift is keycode 9 (platform 1), Control 10 (2), AltGr 11 (3), a/A 12 (4), u 13 (5),
/// space 14 (6), e/E/€ 15 (7); then the digits 0 to 8 from 16 (8..16) and b, c, d, f from 25
/// (17..20). There is no key for 9.
fn sample_keymap() -> KeymapModel {
    let mut keys = vec![
        key(vec![level(&[0xffe1], &[0])], 0x01),
        key(vec![level(&[0xffe3], &[0])], 0x04),
        key(vec![level(&[0xfe03], &[0])], 0x80),
        key(vec![level(&[0x61], &[0]), level(&[0x41], &[0x01])], 0),
        key(vec![level(&[0x75], &[0]), level(&[0x55], &[0x01])], 0),
        key(vec![level(&[0x20], &[0])], 0),
        key(vec![level(&[0x65], &[0]), level(&[0x45], &[0x01]), level(&[0x20ac], &[0x80])], 0),
    ];
    for sym in [0x30u32, 0x31, 0x32, 0x33, 0x34, 0x35, 0x36, 0x37, 0x38, 0x62, 0x63, 0x64, 0x66] {
        keys.push(key(vec![level(&[sym], &[0])], 0));
    }
    KeymapModel { min_keycode: 9, keys, ctrl_index: 2, shift_index: 0, iso_level3_shift_index: 7 }
}

fn config() -> KwtyprConfig {
    KwtyprConfig {
        ready_timeout: Some(5000),
        initial_delay: 0,
        key_hold: 0,
        chunk_pacing: None,
        unicode_fallback: false,
    }
}

fn press(k: u32) -> TypingAction {
    TypingAction::Key { keycode: PlatformKeycode(k), state: KeyState::Pressed }
}

fn release(k: u32) -> TypingAction {
    TypingAction::Key { keycode: PlatformKeycode(k), state: KeyState::Released }
}

fn type_with(config: &KwtyprConfig, text: &str) -> (Vec<TypingAction>, TypingOutcome) {
    let ready = Ready::new(Xkb::from_keymap(sample_keymap()), config).unwrap();
    let mut typer = Typer::new(&ready, config);
    let outcome = typer.type_text(text);
    (typer.into_actions(), outcome)
}

fn held_after(actions: &[TypingAction]) -> HashSet<u32> {
    let mut held = HashSet::new();
    for action in actions {
        if let TypingAction::Key { keycode, state } = action {
            match state {
                KeyState::Pressed => {
                    held.insert(keycode.raw());
                },
                KeyState::Released => {
                    held.remove(&keycode.raw());
                },
            }
        }
    }
    held
}

#[test]
fn letters_are_typed_with_shift_where_needed() {
    let (actions, outcome) = type_with(&config(), "aA");
    assert_eq!(actions, vec![press(4), release(4), press(1), press(4), release(4), release(1)]);
    assert_eq!(outcome, TypingOutcome::Complete);
}

#[test]
fn held_modifier_is_not_pressed_again() {
    let (actions, outcome) = type_with(&config(), "AEa");
    assert_eq!(
        actions,
        vec![press(1), press(4), release(4), press(7), release(7), release(1), press(4), release(4)]
    );
    assert_eq!(outcome, TypingOutcome::Complete);
}

#[test]
fn modifiers_move_from_shift_to_altgr() {
    let (actions, _) = type_with(&config(), "E€");
    assert_eq!(
        actions,
        vec![press(1), press(7), release(7), press(3), release(1), press(7), release(7), release(3)]
    );
}

#[test]
fn empty_text_types_nothing() {
    let (actions, outcome) = type_with(&config(), "");
    assert!(actions.is_empty());
    assert_eq!(outcome, TypingOutcome::Complete);
}

#[test]
fn initial_delay_and_key_hold_add_waits_and_flushes() {
    let mut config = config();
    config.initial_delay = 5;
    config.key_hold = 3;
    let (actions, _) = type_with(&config, "a");
    assert_eq!(
        actions,
        vec![
            TypingAction::Sleep { millis: 5 },
            press(4),
            TypingAction::Flush,
            TypingAction::Sleep { millis: 3 },
            release(4),
            TypingAction::Flush,
        ]
    );
}

#[test]
fn chunks_end_with_a_flush_and_a_wait() {
    let mut config = config();
    config.chunk_pacing = Some(ChunkPacing { size: 2, delay: 7 });
    let (actions, _) = type_with(&config, "aaa");
    assert_eq!(
        actions,
        vec![
            press(4),
            release(4),
            press(4),
            release(4),
            TypingAction::Flush,
            TypingAction::Sleep { millis: 7 },
            press(4),
            release(4),
            TypingAction::Flush,
            TypingAction::Sleep { millis: 7 },
            TypingAction::Flush,
        ]
    );
}

#[test]
fn full_last_chunk_gets_one_wait() {
    let mut config = config();
    config.chunk_pacing = Some(ChunkPacing { size: 2, delay: 7 });
    let (actions, _) = type_with(&config, "aaaa");
    let waits = actions.iter().filter(|a| **a == TypingAction::Sleep { millis: 7 }).count();
    assert_eq!(waits, 2);
    assert_eq!(
        &actions[actions.len() - 3..],
        &[TypingAction::Flush, TypingAction::Sleep { millis: 7 }, TypingAction::Flush]
    );
}

#[test]
fn character_delay_waits_after_every_character() {
    let mut config = config();
    config.chunk_pacing = Some(ChunkPacing { size: 1, delay: 2 });
    let (actions, outcome) = type_with(&config, "az");
    assert_eq!(
        actions,
        vec![
            press(4),
            release(4),
            TypingAction::Flush,
            TypingAction::Sleep { millis: 2 },
            TypingAction::ReportUntypable {
                character: 'z',
                error: XkbMappingError::NoKeyMatch { character: 'z' },
            },
            TypingAction::Flush,
            TypingAction::Sleep { millis: 2 },
            TypingAction::Flush,
        ]
    );
    assert_eq!(outcome, TypingOutcome::Partial { failed_characters: 1 });
}

#[test]
fn untypable_characters_are_reported_and_counted() {
    let (actions, outcome) = type_with(&config(), "zaq");
    assert_eq!(
        actions,
        vec![
            TypingAction::ReportUntypable {
                character: 'z',
                error: XkbMappingError::NoKeyMatch { character: 'z' },
            },
            press(4),
            release(4),
            TypingAction::ReportUntypable {
                character: 'q',
                error: XkbMappingError::NoKeyMatch { character: 'q' },
            },
        ]
    );
    assert_eq!(outcome, TypingOutcome::Partial { failed_characters: 2 });
}

#[test]
fn unicode_fallback_types_the_code_point() {
    let mut config = config();
    config.unicode_fallback = true;
    let (actions, outcome) = type_with(&config, "z");
    // 'z' is U+007A: Ctrl+Shift+U, then 7 and a, then Space.
    assert_eq!(
        actions,
        vec![
            press(2),
            press(1),
            press(5),
            release(5),
            release(2),
            release(1),
            press(15),
            release(15),
            press(4),
            release(4),
            press(6),
            release(6),
        ]
    );
    assert_eq!(outcome, TypingOutcome::Complete);
}

#[test]
fn unicode_fallback_fails_on_a_digit_without_key() {
    let mut config = config();
    config.unicode_fallback = true;
    let (actions, outcome) = type_with(&config, "\u{199}");
    assert_eq!(
        actions,
        vec![
            press(2),
            press(1),
            press(5),
            release(5),
            release(2),
            release(1),
            press(9),
            release(9),
            TypingAction::ReportUntypable {
                character: '\u{199}',
                error: XkbMappingError::NoKeyMatch { character: '9' },
            },
        ]
    );
    assert_eq!(outcome, TypingOutcome::Partial { failed_characters: 1 });
}

#[test]
fn unicode_fallback_needs_its_keys() {
    let mut keymap = sample_keymap();
    keymap.ctrl_index = MOD_INVALID;
    let mut config = config();
    config.unicode_fallback = true;
    assert_eq!(
        Ready::new(Xkb::from_keymap(keymap), &config).err(),
        Some(UnicodeFallbackInitError::MissingModifiers)
    );
    config.unicode_fallback = false;
    let ready = Ready::new(Xkb::from_keymap(sample_keymap()), &config).unwrap();
    assert_eq!(ready.unicode_fallback, UnicodeFallback::Disabled);
}

#[test]
fn typing_leaves_no_key_held() {
    let mut config = config();
    config.unicode_fallback = true;
    config.key_hold = 1;
    config.chunk_pacing = Some(ChunkPacing { size: 3, delay: 1 });
    let (actions, _) = type_with(&config, "aA€E😀z\u{199}eU a");
    assert!(!actions.is_empty());
    assert!(held_after(&actions).is_empty());
}

#[test]
fn text_with_a_key_for_every_character_is_complete() {
    let (_, outcome) = type_with(&config(), "a Ee€ 0123 bcdf");
    assert_eq!(outcome, TypingOutcome::Complete);
}

#[test]
fn typer_starts_empty() {
    let config = config();
    let ready = Ready::new(Xkb::from_keymap(sample_keymap()), &config).unwrap();
    let typer = Typer::new(&ready, &config);
    assert!(typer.actions().is_empty());
}

fn presses_and_releases_alternate(actions: &[TypingAction]) -> bool {
    let mut held = HashSet::new();
    for action in actions {
        if let TypingAction::Key { keycode, state } = action {
            let fits = match state {
                KeyState::Pressed => held.insert(keycode.raw()),
                KeyState::Released => held.remove(&keycode.raw()),
            };
            if !fits {
                return false;
            }
        }
    }
    true
}

#[test]
fn each_key_alternates_press_and_release() {
    let mut config = config();
    config.unicode_fallback = true;
    config.chunk_pacing = Some(ChunkPacing { size: 2, delay: 1 });
    let (actions, _) = type_with(&config, "aA€E😀z\u{199}eU aAA€");
    assert!(presses_and_releases_alternate(&actions));
    assert!(held_after(&actions).is_empty());
}

#[test]
fn one_key_for_ctrl_and_shift_is_pressed_twice_by_the_prefix() {
    let mut keymap = sample_keymap();
    keymap.keys[0].pressed_mods = 0x05;
    let mut config = config();
    config.unicode_fallback = true;
    let ready = Ready::new(Xkb::from_keymap(keymap), &config).unwrap();
    let mut typer = Typer::new(&ready, &config);
    typer.type_text("z");
    let actions = typer.into_actions();
    assert_eq!(&actions[..2], &[press(1), press(1)]);
    assert!(!presses_and_releases_alternate(&actions));
}

#[test]
fn shared_modifier_key_unused_by_the_text_does_not_break_alternation() {
    let mut keymap = sample_keymap();
    keymap.keys[0].pressed_mods = 0x05;
    let ready = Ready::new(Xkb::from_keymap(keymap), &config()).unwrap();
    let config = config();
    let mut typer = Typer::new(&ready, &config);
    typer.type_text("aAEa");
    let actions = typer.into_actions();
    assert!(presses_and_releases_alternate(&actions));
    assert!(held_after(&actions).is_empty());
}

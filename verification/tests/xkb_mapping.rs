use kwtypr::keysym::keysym_for_char;
use kwtypr::xkb::keycode::{PlatformKeycode, PlatformKeycodeFromXkbError};
use kwtypr::xkb::keymap::{KeyEntry, KeymapModel, LevelEntry, ModifierName, MOD_INVALID};
use kwtypr::xkb::mapping::{KeyMappingError, MappedKey, XkbMappingError};
use kwtypr::xkb::modifier::{
    find_keycode_for_modifier_mask, modifier_mask, AvailableModifiers, ModifierMapping, Modifiers,
};
use kwtypr::xkb::unicode_fallback::{lower_hex_digits, UnicodeFallbackInitError};
use kwtypr::xkb::Xkb;

fn level(syms: &[u32], masks: &[u32]) -> LevelEntry {
    LevelEntry { syms: syms.to_vec(), mod_masks: masks.to_vec() }
}

fn key(levels: Vec<LevelEntry>, pressed_mods: u32) -> KeyEntry {
    KeyEntry { levels, pressed_mods }
}

/// Keycodes from 9: Shift (9), Control (10), AltGr (11), a (12), u (13), space (14), e/E/€ (15),
/// x needing Mod1 (16), a two-keysym level (17), another a (18), then digits 0-8 and b, c, d, f.
fn sample_keymap() -> KeymapModel {
    let mut keys = vec![
        key(vec![level(&[0xffe1], &[0])], 0x01),
        key(vec![level(&[0xffe3], &[0])], 0x04),
        key(vec![level(&[0xfe03], &[0])], 0x80),
        key(vec![level(&[0x61], &[0, 0x02]), level(&[0x41], &[0x01, 0x03])], 0),
        key(vec![level(&[0x75], &[0]), level(&[0x55], &[0x01])], 0),
        key(vec![level(&[0x20], &[0])], 0),
        key(vec![level(&[0x65], &[0]), level(&[0x45], &[0x01]), level(&[0x20ac], &[0x80])], 0),
        key(vec![level(&[0x78], &[0x08])], 0),
        key(vec![level(&[0x62, 0x63], &[0])], 0),
        key(vec![level(&[0x61], &[0])], 0),
    ];
    for sym in [0x30u32, 0x31, 0x32, 0x33, 0x34, 0x35, 0x36, 0x37, 0x38, 0x62, 0x63, 0x64, 0x66] {
        keys.push(key(vec![level(&[sym], &[0])], 0));
    }
    KeymapModel {
        min_keycode: 9,
        keys,
        ctrl_index: 2,
        shift_index: 0,
        iso_level3_shift_index: 7,
    }
}

fn ctrl() -> ModifierMapping {
    ModifierMapping { mod_mask: 0x04, keycode: PlatformKeycode(2) }
}

fn shift() -> ModifierMapping {
    ModifierMapping { mod_mask: 0x01, keycode: PlatformKeycode(1) }
}

fn altgr() -> ModifierMapping {
    ModifierMapping { mod_mask: 0x80, keycode: PlatformKeycode(3) }
}

fn no_modifiers() -> Modifiers {
    Modifiers { ctrl: None, shift: None, altgr: None }
}

#[test]
fn lowercase_letter_needs_no_modifier() {
    let xkb = Xkb::from_keymap(sample_keymap());
    assert_eq!(
        xkb.key_for_char('a'),
        Ok(MappedKey { keycode: PlatformKeycode(4), modifiers: no_modifiers() })
    );
}

#[test]
fn uppercase_letter_needs_shift() {
    let xkb = Xkb::from_keymap(sample_keymap());
    assert_eq!(
        xkb.key_for_char('A'),
        Ok(MappedKey {
            keycode: PlatformKeycode(4),
            modifiers: Modifiers { ctrl: None, shift: Some(shift()), altgr: None },
        })
    );
}

#[test]
fn third_level_needs_altgr() {
    let xkb = Xkb::from_keymap(sample_keymap());
    assert_eq!(
        xkb.key_for_char('€'),
        Ok(MappedKey {
            keycode: PlatformKeycode(7),
            modifiers: Modifiers { ctrl: None, shift: None, altgr: Some(altgr()) },
        })
    );
}

#[test]
fn level_needing_other_modifiers_is_unsupported() {
    let xkb = Xkb::from_keymap(sample_keymap());
    assert_eq!(
        xkb.key_for_char('x'),
        Err(XkbMappingError::UnsupportedModifiers { character: 'x', keycode: 16, level: 0 })
    );
}

#[test]
fn character_without_key_has_no_match() {
    let xkb = Xkb::from_keymap(sample_keymap());
    assert_eq!(xkb.key_for_char('z'), Err(XkbMappingError::NoKeyMatch { character: 'z' }));
    assert_eq!(xkb.key_for_keysym(0x7a), Err(KeyMappingError::NoKeyMatch { keysym: 0x7a }));
}

#[test]
fn level_with_two_keysyms_does_not_match_one() {
    let xkb = Xkb::from_keymap(sample_keymap());
    let b = xkb.key_for_char('b').unwrap();
    assert_eq!(b.keycode, PlatformKeycode(28 - 8));
}

#[test]
fn first_key_by_keycode_wins() {
    let xkb = Xkb::from_keymap(sample_keymap());
    assert_eq!(xkb.key_for_keysym(0x61).unwrap().keycode.raw(), 4);
}

#[test]
fn noncharacter_has_no_symbol() {
    let xkb = Xkb::from_keymap(sample_keymap());
    assert_eq!(
        xkb.key_for_char('\u{fdd0}'),
        Err(XkbMappingError::NoSymbol { character: '\u{fdd0}' })
    );
}

#[test]
fn keycode_below_offset_is_invalid() {
    let keymap = KeymapModel {
        min_keycode: 0,
        keys: vec![key(vec![level(&[0x71], &[0])], 0)],
        ctrl_index: MOD_INVALID,
        shift_index: MOD_INVALID,
        iso_level3_shift_index: MOD_INVALID,
    };
    let xkb = Xkb::from_keymap(keymap);
    assert_eq!(
        xkb.key_for_char('q'),
        Err(XkbMappingError::InvalidPlatformKeycode {
            character: 'q',
            source: PlatformKeycodeFromXkbError(0),
        })
    );
}

#[test]
fn available_modifiers_are_found_by_their_keys() {
    let keymap = sample_keymap();
    let available = AvailableModifiers::from_keymap(&keymap);
    assert_eq!(
        available,
        AvailableModifiers(Modifiers { ctrl: Some(ctrl()), shift: Some(shift()), altgr: Some(altgr()) })
    );
    assert_eq!(available.mask(), 0x85);
    assert!(available.can_represent(0x81));
    assert!(!available.can_represent(0x02));
}

#[test]
fn representable_mask_is_reproduced_by_its_modifiers() {
    let available = AvailableModifiers::from_keymap(&sample_keymap());
    let chosen = available.modifiers_for_mask(0x81);
    assert_eq!(chosen, Modifiers { ctrl: None, shift: Some(shift()), altgr: Some(altgr()) });
    assert_eq!(chosen.mask(), 0x81);
}

#[test]
fn modifier_without_index_or_key_is_missing() {
    let mut keymap = sample_keymap();
    keymap.ctrl_index = MOD_INVALID;
    keymap.iso_level3_shift_index = 40;
    keymap.shift_index = 5;
    assert_eq!(modifier_mask(&keymap, ModifierName::Ctrl), None);
    assert_eq!(modifier_mask(&keymap, ModifierName::IsoLevel3Shift), None);
    assert_eq!(modifier_mask(&keymap, ModifierName::Shift), Some(0x20));
    assert_eq!(ModifierMapping::from_name(&keymap, ModifierName::Shift), None);
    assert_eq!(find_keycode_for_modifier_mask(&keymap, 0), None);
    assert_eq!(find_keycode_for_modifier_mask(&keymap, 0x04), Some(PlatformKeycode(2)));
}

#[test]
fn unicode_fallback_keys_hold_ctrl_and_shift() {
    let xkb = Xkb::from_keymap(sample_keymap());
    let keys = xkb.unicode_fallback_keys().unwrap();
    assert_eq!(
        keys.prefix,
        MappedKey {
            keycode: PlatformKeycode(5),
            modifiers: Modifiers { ctrl: Some(ctrl()), shift: Some(shift()), altgr: None },
        }
    );
    assert_eq!(keys.confirm, MappedKey { keycode: PlatformKeycode(6), modifiers: no_modifiers() });
}

#[test]
fn unicode_fallback_needs_ctrl_and_shift() {
    let mut keymap = sample_keymap();
    keymap.ctrl_index = MOD_INVALID;
    let xkb = Xkb::from_keymap(keymap);
    assert_eq!(xkb.unicode_fallback_keys(), Err(UnicodeFallbackInitError::MissingModifiers));
}

#[test]
fn unicode_fallback_needs_u_and_space() {
    let mut without_u = sample_keymap();
    without_u.keys[4] = key(vec![level(&[0x76], &[0])], 0);
    assert_eq!(
        Xkb::from_keymap(without_u).unicode_fallback_keys(),
        Err(UnicodeFallbackInitError::PrefixKey(KeyMappingError::NoKeyMatch { keysym: 0x75 }))
    );
    let mut without_space = sample_keymap();
    without_space.keys[5] = key(vec![level(&[0x20], &[0x08])], 0);
    assert_eq!(
        Xkb::from_keymap(without_space).unicode_fallback_keys(),
        Err(UnicodeFallbackInitError::ConfirmKey(KeyMappingError::UnsupportedModifiers {
            keycode: 14,
            level: 0,
        }))
    );
}

#[test]
fn platform_keycode_is_xkb_keycode_minus_eight() {
    assert_eq!(PlatformKeycode::try_from(8u32), Ok(PlatformKeycode(0)));
    assert_eq!(PlatformKeycode::try_from(38u32), Ok(PlatformKeycode(30)));
    assert_eq!(PlatformKeycode::try_from(7u32), Err(PlatformKeycodeFromXkbError(7)));
    assert_eq!(PlatformKeycode::from_xkb(u32::MAX), Ok(PlatformKeycode(u32::MAX - 8)));
    assert_eq!(u32::from(PlatformKeycode(30)), 30);
    assert_eq!(PlatformKeycode(30).raw(), 30);
}

#[test]
fn hex_digits_are_lowercase_without_leading_zeros() {
    assert_eq!(lower_hex_digits(0), vec!['0']);
    assert_eq!(lower_hex_digits(0xe9), vec!['e', '9']);
    assert_eq!(lower_hex_digits(0x1f600), vec!['1', 'f', '6', '0', '0']);
    assert_eq!(lower_hex_digits(u32::MAX), vec!['f'; 8]);
    for value in [0u32, 7, 16, 0xabc, 0x10ffff] {
        assert_eq!(lower_hex_digits(value).into_iter().collect::<String>(), format!("{:x}", value));
    }
}

#[test]
fn keysyms_of_characters() {
    assert_eq!(keysym_for_char('u'), Some(0x75));
    assert_eq!(keysym_for_char(' '), Some(0x20));
    assert_eq!(keysym_for_char('é'), Some(0xe9));
    assert_eq!(keysym_for_char('€'), Some(0x20ac));
    assert_eq!(keysym_for_char('😀'), Some(0x0101_f600));
    assert_eq!(keysym_for_char('\u{fdd0}'), None);
    assert_eq!(keysym_for_char('\u{fffe}'), None);
}

#[test]
fn hex_digits_read_back_to_the_value() {
    for value in [0u32, 9, 0x7a, 0x199, 0x20ac, 0x1f600, 0x10ffff] {
        let digits: String = lower_hex_digits(value).into_iter().collect();
        assert_eq!(u32::from_str_radix(&digits, 16), Ok(value));
        assert!(value == 0 || !digits.starts_with('0'));
    }
}

#[test]
fn found_key_and_modifiers_select_a_level_with_the_keysym() {
    let keymap = sample_keymap();
    let xkb = Xkb::from_keymap(sample_keymap());
    for keysym in [0x61u32, 0x41, 0x20ac, 0x45, 0x75, 0x20] {
        let key = xkb.key_for_keysym(keysym).unwrap();
        let index = (key.keycode.raw() + 8 - keymap.min_keycode) as usize;
        let level = keymap.keys[index]
            .levels
            .iter()
            .find(|level| level.syms == vec![keysym])
            .unwrap();
        assert!(level.mod_masks.contains(&key.modifiers.mask()));
    }
}

#[test]
fn character_is_looked_up_by_the_given_keysym() {
    let xkb = Xkb::from_keymap(sample_keymap());
    assert_eq!(
        xkb.key_for_char_with_keysym('q', None),
        Err(XkbMappingError::NoSymbol { character: 'q' })
    );
    assert_eq!(
        xkb.key_for_char_with_keysym('q', Some(0x61)),
        Ok(MappedKey { keycode: PlatformKeycode(4), modifiers: no_modifiers() })
    );
    assert_eq!(
        xkb.key_for_char_with_keysym('q', Some(0x78)),
        Err(XkbMappingError::UnsupportedModifiers { character: 'q', keycode: 16, level: 0 })
    );
}

#[test]
fn keymap_and_modifiers_are_kept() {
    let xkb = Xkb::from_keymap(sample_keymap());
    assert_eq!(xkb.keymap_model().min_keycode, 9);
    assert!(xkb.keymap_model().is_valid());
    assert_eq!(
        *xkb.available_modifiers(),
        AvailableModifiers(Modifiers { ctrl: Some(ctrl()), shift: Some(shift()), altgr: Some(altgr()) })
    );
}

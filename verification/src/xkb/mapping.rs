//! Finding the key, shift level and modifiers that type a keysym or a character.
use vstd::prelude::*;

use crate::keysym::{keysym_for_char, spec_keysym_for_char, utf32_keysym, KEY_NO_SYMBOL};
use crate::xkb::keycode::{spec_platform_keycode, PlatformKeycode, PlatformKeycodeFromXkbError};
use crate::xkb::keymap::KeymapModel;
use crate::xkb::modifier::{lemma_available_single_bits, lemma_representable_mask_reproduced, AvailableModifiers, Modifiers};
use crate::xkb::is_first_representable;
use crate::xkb::{spec_modifiers_for_masks, Xkb};

verus! {

/// A key to press, with the modifiers to hold while pressing it.
#[derive(Debug, Clone, Copy, PartialEq, Eq)]
pub struct MappedKey {
    pub keycode: PlatformKeycode,
    pub modifiers: Modifiers,
}

/// Why no key types a keysym.
#[derive(Debug, Clone, Copy, PartialEq, Eq)]
pub enum KeyMappingError {
    /// No shift level of any key produces exactly this keysym.
    NoKeyMatch { keysym: u32 },
    /// The first key and level that produce the keysym need modifiers other than Ctrl, Shift and AltGr.
    UnsupportedModifiers { keycode: u32, level: u32 },
    /// The XKB keycode of the key has no platform keycode.
    InvalidPlatformKeycode { source: PlatformKeycodeFromXkbError },
}

/// Why a character cannot be typed with the keymap.
#[derive(Debug, Clone, Copy, PartialEq, Eq)]
pub enum XkbMappingError {
    /// The character has no XKB keysym.
    NoSymbol { character: char },
    /// No key in the active layout produces the character's keysym.
    NoKeyMatch { character: char },
    /// The key and level for the character require unsupported modifiers.
    UnsupportedModifiers { character: char, keycode: u32, level: u32 },
    /// The XKB keycode for the character cannot be converted to a platform keycode.
    InvalidPlatformKeycode { character: char, source: PlatformKeycodeFromXkbError },
}

/// A key (by XKB keycode) and one of its shift levels.
#[derive(Debug, Clone, Copy, PartialEq, Eq)]
pub struct KeycodeMatch {
    pub keycode: u32,
    pub level: u32,
}

/// Level `j` of key `i` produces exactly the one keysym `keysym`.
pub open spec fn level_produces(km: KeymapModel, i: int, j: int, keysym: u32) -> bool {
    &&& 0 <= i < km.num_keys()
    &&& 0 <= j < km.num_levels(i)
    &&& km.level_syms(i, j) == seq![keysym]
}

/// Level `j` of key `i` is the first, by keycode and then by level, that produces `keysym`.
pub open spec fn is_first_match(km: KeymapModel, keysym: u32, i: int, j: int) -> bool {
    &&& level_produces(km, i, j, keysym)
    &&& forall|i2: int, j2: int|
        (i2 < i || (i2 == i && j2 < j)) ==> !#[trigger] level_produces(km, i2, j2, keysym)
}

/// The first key and level, by keycode and then by level, that produce exactly `keysym`.
pub open spec fn spec_find_keycode_match(km: KeymapModel, keysym: u32) -> Option<KeycodeMatch> {
    if exists|p: (int, int)| is_first_match(km, keysym, p.0, p.1) {
        let p = choose|p: (int, int)| is_first_match(km, keysym, p.0, p.1);
        Some(KeycodeMatch { keycode: (km.min_keycode + p.0) as u32, level: p.1 as u32 })
    } else {
        None
    }
}

/// The key and modifiers that type `keysym`: the first key and level that produce it, the
/// modifiers of that level, and the key's platform keycode.
pub open spec fn spec_key_for_keysym(km: KeymapModel, available: AvailableModifiers, keysym: u32) -> Result<MappedKey, KeyMappingError> {
    match spec_find_keycode_match(km, keysym) {
        None => Err(KeyMappingError::NoKeyMatch { keysym }),
        Some(m) => match spec_modifiers_for_masks(
            available,
            km.level_masks(m.keycode - km.min_keycode, m.level as int),
        ) {
            None => Err(KeyMappingError::UnsupportedModifiers { keycode: m.keycode, level: m.level }),
            Some(modifiers) => match spec_platform_keycode(m.keycode) {
                Ok(keycode) => Ok(MappedKey { keycode, modifiers }),
                Err(source) => Err(KeyMappingError::InvalidPlatformKeycode { source }),
            },
        },
    }
}

/// The key and modifiers that type `character`, given its keysym (`None`: it has none).
pub open spec fn spec_key_for_char_with_keysym(
    km: KeymapModel,
    available: AvailableModifiers,
    character: char,
    keysym: Option<u32>,
) -> Result<MappedKey, XkbMappingError> {
    match keysym {
        None => Err(XkbMappingError::NoSymbol { character }),
        Some(keysym) => match spec_key_for_keysym(km, available, keysym) {
            Ok(key) => Ok(key),
            Err(e) => Err(spec_character_error(character, e)),
        },
    }
}

/// The key and modifiers that type `character`.
pub open spec fn spec_key_for_char(km: KeymapModel, available: AvailableModifiers, character: char) -> Result<MappedKey, XkbMappingError> {
    spec_key_for_char_with_keysym(km, available, character, spec_keysym_for_char(character))
}

/// The error about `character` that stands for an error about its keysym.
pub open spec fn spec_character_error(character: char, error: KeyMappingError) -> XkbMappingError {
    match error {
        KeyMappingError::NoKeyMatch { .. } => XkbMappingError::NoKeyMatch { character },
        KeyMappingError::UnsupportedModifiers { keycode, level } => XkbMappingError::UnsupportedModifiers {
            character,
            keycode,
            level,
        },
        KeyMappingError::InvalidPlatformKeycode { source } => XkbMappingError::InvalidPlatformKeycode {
            character,
            source,
        },
    }
}

fn character_error(character: char, error: KeyMappingError) -> (e: XkbMappingError)
    ensures
        e == spec_character_error(character, error),
{
    match error {
        KeyMappingError::NoKeyMatch { .. } => XkbMappingError::NoKeyMatch { character },
        KeyMappingError::UnsupportedModifiers { keycode, level } => XkbMappingError::UnsupportedModifiers {
            character,
            keycode,
            level,
        },
        KeyMappingError::InvalidPlatformKeycode { source } => XkbMappingError::InvalidPlatformKeycode {
            character,
            source,
        },
    }
}

proof fn lemma_first_match_unique(km: KeymapModel, keysym: u32, i: int, j: int)
    requires
        is_first_match(km, keysym, i, j),
    ensures
        forall|p: (int, int)| is_first_match(km, keysym, p.0, p.1) ==> p.0 == i && p.1 == j,
{
    assert forall|p: (int, int)| is_first_match(km, keysym, p.0, p.1) implies p.0 == i && p.1 == j by {
        if p.0 < i || (p.0 == i && p.1 < j) {
            assert(!level_produces(km, p.0, p.1, keysym));
        } else if i < p.0 || (i == p.0 && j < p.1) {
            assert(!level_produces(km, i, j, keysym));
        }
    }
}

/// The key found for a keysym types it: one of its levels produces exactly the keysym, its XKB
/// keycode is the platform keycode plus 8, and the chosen modifiers combine to one of the masks
/// that select that level.
pub proof fn lemma_key_for_keysym_sound(km: KeymapModel, keysym: u32)
    requires
        km.wf(),
        spec_key_for_keysym(km, AvailableModifiers::spec_from_keymap(km), keysym) is Ok,
    ensures
        ({
            let key = spec_key_for_keysym(km, AvailableModifiers::spec_from_keymap(km), keysym)->Ok_0;
            exists|i: int, j: int|
                #![trigger level_produces(km, i, j, keysym)]
                {
                    &&& level_produces(km, i, j, keysym)
                    &&& key.keycode.0 + 8 == km.min_keycode + i
                    &&& km.level_masks(i, j).contains(key.modifiers.spec_mask())
                }
        }),
{
    let available = AvailableModifiers::spec_from_keymap(km);
    lemma_available_single_bits(km);
    let key = spec_key_for_keysym(km, available, keysym)->Ok_0;
    let p = choose|p: (int, int)| is_first_match(km, keysym, p.0, p.1);
    let m = spec_find_keycode_match(km, keysym)->Some_0;
    assert(level_produces(km, p.0, p.1, keysym));
    assert(km.keys@[p.0].levels@.len() <= u32::MAX);
    assert(m.keycode - km.min_keycode == p.0);
    assert(m.level == p.1);
    let masks = km.level_masks(p.0, p.1);
    assert(spec_modifiers_for_masks(available, masks) is Some);
    let k = choose|k: int| is_first_representable(available, masks, k);
    lemma_representable_mask_reproduced(available, masks[k]);
    assert(masks.contains(key.modifiers.spec_mask()));
    assert(level_produces(km, p.0, p.1, keysym));
}

proof fn lemma_first_match_exists(km: KeymapModel, keysym: u32, i: int, j: int)
    requires
        level_produces(km, i, j, keysym),
    ensures
        exists|p: (int, int)| is_first_match(km, keysym, p.0, p.1),
    decreases i, j,
{
    if is_first_match(km, keysym, i, j) {
        let p = (i, j);
        assert(is_first_match(km, keysym, p.0, p.1));
    } else {
        let (i2, j2): (int, int) = choose|i2: int, j2: int|
            (i2 < i || (i2 == i && j2 < j)) && #[trigger] level_produces(km, i2, j2, keysym);
        lemma_first_match_exists(km, keysym, i2, j2);
    }
}

/// The lookup misses no key: it answers "no key matches" exactly when no level of any key
/// produces exactly `keysym`.
pub proof fn lemma_key_for_keysym_complete(km: KeymapModel, available: AvailableModifiers, keysym: u32)
    ensures
        (spec_key_for_keysym(km, available, keysym) == Err::<MappedKey, KeyMappingError>(
            KeyMappingError::NoKeyMatch { keysym },
        )) <==> !(exists|i: int, j: int| #[trigger] level_produces(km, i, j, keysym)),
{
    if exists|i: int, j: int| #[trigger] level_produces(km, i, j, keysym) {
        let (i, j): (int, int) = choose|i: int, j: int| #[trigger] level_produces(km, i, j, keysym);
        lemma_first_match_exists(km, keysym, i, j);
    } else {
        assert(!exists|p: (int, int)| is_first_match(km, keysym, p.0, p.1));
    }
}

/// The search for a keysym finds a key exactly when some level of some key produces exactly that
/// keysym, and what it finds is such a level, with no key of a lower keycode, nor a lower level of
/// the same key, producing it.
pub proof fn lemma_find_keycode_match_first(km: KeymapModel, keysym: u32)
    requires
        km.wf(),
    ensures
        spec_find_keycode_match(km, keysym) is None <==> !(exists|i: int, j: int|
            #[trigger] level_produces(km, i, j, keysym)),
        spec_find_keycode_match(km, keysym) matches Some(m) ==> {
            &&& km.min_keycode <= m.keycode
            &&& level_produces(km, m.keycode - km.min_keycode, m.level as int, keysym)
            &&& forall|i2: int, j2: int|
                (i2 < m.keycode - km.min_keycode || (i2 == m.keycode - km.min_keycode && j2
                    < m.level)) ==> !#[trigger] level_produces(km, i2, j2, keysym)
        },
{
    if exists|i: int, j: int| #[trigger] level_produces(km, i, j, keysym) {
        let (i, j): (int, int) = choose|i: int, j: int| #[trigger] level_produces(km, i, j, keysym);
        lemma_first_match_exists(km, keysym, i, j);
        let p = choose|p: (int, int)| is_first_match(km, keysym, p.0, p.1);
        let m = spec_find_keycode_match(km, keysym)->Some_0;
        assert(level_produces(km, p.0, p.1, keysym));
        assert(km.keys@[p.0].levels@.len() <= u32::MAX);
        assert(m.keycode - km.min_keycode == p.0);
        assert(m.level == p.1);
    } else {
        assert(!exists|p: (int, int)| is_first_match(km, keysym, p.0, p.1));
    }
}

/// A character is looked up by the keysym XKB gives its code point: it has no symbol exactly when
/// that keysym is `NoSymbol`; otherwise "no key matches" comes exactly when no level of any key
/// produces that keysym, and a key found for it is the key found for that keysym.
pub proof fn lemma_key_for_char_uses_its_keysym(km: KeymapModel, available: AvailableModifiers, character: char)
    ensures
        (spec_key_for_char(km, available, character) == Err::<MappedKey, XkbMappingError>(
            XkbMappingError::NoSymbol { character },
        )) <==> utf32_keysym(character as u32) == KEY_NO_SYMBOL,
        utf32_keysym(character as u32) != KEY_NO_SYMBOL ==> ((spec_key_for_char(km, available, character)
            == Err::<MappedKey, XkbMappingError>(XkbMappingError::NoKeyMatch { character })) <==> !(exists|
            i: int,
            j: int,
        | #[trigger] level_produces(km, i, j, utf32_keysym(character as u32)))),
        utf32_keysym(character as u32) != KEY_NO_SYMBOL ==> (spec_key_for_char(km, available, character) matches Ok(key)
            ==> spec_key_for_keysym(km, available, utf32_keysym(character as u32)) == Ok::<
            MappedKey,
            KeyMappingError,
        >(key)),
{
    let keysym = utf32_keysym(character as u32);
    lemma_key_for_keysym_complete(km, available, keysym);
}

/// A key found for a character types the character's keysym: one of its levels produces exactly
/// the keysym XKB gives the code point, its XKB keycode is the platform keycode plus 8, and the
/// chosen modifiers combine to one of the masks that select that level.
pub proof fn lemma_key_for_char_sound(km: KeymapModel, character: char)
    requires
        km.wf(),
        spec_key_for_char(km, AvailableModifiers::spec_from_keymap(km), character) is Ok,
    ensures
        ({
            let key = spec_key_for_char(km, AvailableModifiers::spec_from_keymap(km), character)->Ok_0;
            let keysym = utf32_keysym(character as u32);
            exists|i: int, j: int|
                #![trigger level_produces(km, i, j, keysym)]
                {
                    &&& level_produces(km, i, j, keysym)
                    &&& key.keycode.0 + 8 == km.min_keycode + i
                    &&& km.level_masks(i, j).contains(key.modifiers.spec_mask())
                }
        }),
{
    let keysym = utf32_keysym(character as u32);
    lemma_key_for_keysym_sound(km, keysym);
}

impl Xkb {
    /// The key and modifiers that type `character` with this keymap.
    pub fn key_for_char(&self, character: char) -> (key: Result<MappedKey, XkbMappingError>)
        ensures
            key == spec_key_for_char(self.keymap(), self.available(), character),
    {
        self.key_for_char_with_keysym(character, keysym_for_char(character))
    }

    /// The key and modifiers that type `character`, whose keysym is `keysym` (`None`: it has none).
    pub fn key_for_char_with_keysym(&self, character: char, keysym: Option<u32>) -> (key: Result<MappedKey, XkbMappingError>)
        ensures
            key == spec_key_for_char_with_keysym(self.keymap(), self.available(), character, keysym),
    {
        match keysym {
            None => Err(XkbMappingError::NoSymbol { character }),
            Some(keysym) => match self.key_for_keysym(keysym) {
                Ok(key) => Ok(key),
                Err(e) => Err(character_error(character, e)),
            },
        }
    }

    /// The key and modifiers that type `keysym` with this keymap.
    pub fn key_for_keysym(&self, keysym: u32) -> (key: Result<MappedKey, KeyMappingError>)
        ensures
            key == spec_key_for_keysym(self.keymap(), self.available(), keysym),
    {
        proof {
            use_type_invariant(self);
        }
        let keycode_match = match self.find_keycode_match(keysym) {
            Some(m) => m,
            None => return Err(KeyMappingError::NoKeyMatch { keysym }),
        };
        let key_index = (keycode_match.keycode - self.keymap.min_keycode) as usize;
        let modifiers = match self.modifiers_for_key_level(key_index, keycode_match.level as usize) {
            Some(modifiers) => modifiers,
            None => {
                return Err(
                    KeyMappingError::UnsupportedModifiers {
                        keycode: keycode_match.keycode,
                        level: keycode_match.level,
                    },
                )
            },
        };
        match PlatformKeycode::from_xkb(keycode_match.keycode) {
            Ok(keycode) => Ok(MappedKey { keycode, modifiers }),
            Err(source) => Err(KeyMappingError::InvalidPlatformKeycode { source }),
        }
    }

    /// The first key and level, by keycode and then by level, whose keysyms are exactly `[keysym]`.
    fn find_keycode_match(&self, keysym: u32) -> (found: Option<KeycodeMatch>)
        ensures
            found == spec_find_keycode_match(self.keymap(), keysym),
            found matches Some(m) ==> {
                &&& self.keymap().min_keycode <= m.keycode
                &&& m.keycode - self.keymap().min_keycode < self.keymap().num_keys()
                &&& m.level < self.keymap().num_levels(m.keycode - self.keymap().min_keycode)
            },
    {
        proof {
            use_type_invariant(self);
        }
        let km = &self.keymap;
        let n = km.keys.len();
        let mut i: usize = 0;
        while i < n
            invariant
                km.wf(),
                *km == self.keymap(),
                n == km.num_keys(),
                0 <= i <= n,
                forall|i2: int, j2: int| i2 < i ==> !#[trigger] level_produces(*km, i2, j2, keysym),
            decreases n - i,
        {
            let levels = &km.keys[i].levels;
            let num_levels = levels.len();
            let mut j: usize = 0;
            while j < num_levels
                invariant
                    km.wf(),
                    *km == self.keymap(),
                    n == km.num_keys(),
                    0 <= i < n,
                    *levels == km.keys@[i as int].levels,
                    num_levels == km.num_levels(i as int),
                    0 <= j <= num_levels,
                    forall|i2: int, j2: int| i2 < i ==> !#[trigger] level_produces(*km, i2, j2, keysym),
                    forall|j2: int| j2 < j ==> !#[trigger] level_produces(*km, i as int, j2, keysym),
                decreases num_levels - j,
            {
                let syms = &levels[j].syms;
                if syms.len() == 1 && syms[0] == keysym {
                    proof {
                        assert(km.level_syms(i as int, j as int) =~= seq![keysym]);
                        let p = (i as int, j as int);
                        assert(is_first_match(*km, keysym, p.0, p.1));
                        lemma_first_match_unique(*km, keysym, i as int, j as int);
                    }
                    let keycode: u32 = km.min_keycode + i as u32;
                    return Some(KeycodeMatch { keycode, level: j as u32 });
                }
                proof {
                    assert(!level_produces(*km, i as int, j as int, keysym)) by {
                        if km.level_syms(i as int, j as int) == seq![keysym] {
                            assert(km.level_syms(i as int, j as int).len() == 1);
                        }
                    }
                }
                j = j + 1;
            }
            i = i + 1;
        }
        None
    }
}

} // verus!

//! The Ctrl, Shift and AltGr modifiers a keymap offers, and which of them select a shift level.
use vstd::prelude::*;

use crate::xkb::keycode::{spec_platform_keycode, PlatformKeycode};
use crate::xkb::keymap::{KeymapModel, ModifierName, MOD_INVALID};

verus! {

/// A modifier of the keymap: its mask bit and a key that activates it.
#[derive(Debug, Clone, Copy, PartialEq, Eq)]
pub struct ModifierMapping {
    pub mod_mask: u32,
    pub keycode: PlatformKeycode,
}

/// A choice of modifiers, each with the key that activates it.
#[derive(Debug, Clone, Copy, PartialEq, Eq)]
pub struct Modifiers {
    pub ctrl: Option<ModifierMapping>,
    pub shift: Option<ModifierMapping>,
    pub altgr: Option<ModifierMapping>,
}

/// The modifiers the keymap offers.
#[derive(Debug, Clone, Copy, PartialEq, Eq)]
pub struct AvailableModifiers(pub Modifiers);

/// The mask of a modifier index: the single bit `1 << index`, for an index below 32.
pub open spec fn spec_modifier_mask(index: u32) -> Option<u32> {
    if index == MOD_INVALID || index >= u32::BITS {
        None
    } else {
        Some(1u32 << index)
    }
}

/// Pressing key `i` alone turns on every bit of `target`.
pub open spec fn activates(km: KeymapModel, i: int, target: u32) -> bool {
    0 <= i < km.num_keys() && (km.pressed_mods(i) & target) == target
}

/// Key `i` is the first key of the keymap that activates every bit of `target`.
pub open spec fn is_first_activating(km: KeymapModel, target: u32, i: int) -> bool {
    &&& activates(km, i, target)
    &&& forall|i2: int| i2 < i ==> !#[trigger] activates(km, i2, target)
}

/// The platform keycode of the first key that activates all of `target`, if there is such a key
/// and its keycode converts; `None` for an empty mask.
pub open spec fn spec_find_keycode_for_modifier_mask(km: KeymapModel, target: u32) -> Option<PlatformKeycode> {
    if target == 0 {
        None
    } else if exists|i: int| is_first_activating(km, target, i) {
        let i = choose|i: int| is_first_activating(km, target, i);
        match spec_platform_keycode((km.min_keycode + i) as u32) {
            Ok(k) => Some(k),
            Err(_) => None,
        }
    } else {
        None
    }
}

/// The modifier the keymap defines under `name`, with the first key that activates it.
pub open spec fn spec_mapping_from_name(km: KeymapModel, name: ModifierName) -> Option<ModifierMapping> {
    match spec_modifier_mask(km.spec_mod_index(name)) {
        None => None,
        Some(mod_mask) => match spec_find_keycode_for_modifier_mask(km, mod_mask) {
            None => None,
            Some(keycode) => Some(ModifierMapping { mod_mask, keycode }),
        },
    }
}

/// The mask bits of an optional modifier (none when absent).
pub open spec fn option_mask(m: Option<ModifierMapping>) -> u32 {
    match m {
        Some(mapping) => mapping.mod_mask,
        None => 0,
    }
}

/// Keeps a modifier when `mask` has one of its bits.
pub open spec fn spec_keep_if_in(m: Option<ModifierMapping>, mask: u32) -> Option<ModifierMapping> {
    match m {
        Some(mapping) => if (mask & mapping.mod_mask) != 0 {
            Some(mapping)
        } else {
            None
        },
        None => None,
    }
}

/// The single-bit masks are one bit each: `x` is a power of two.
pub open spec fn is_single_bit(x: u32) -> bool {
    x != 0 && (x & ((x - 1) as u32)) == 0
}

impl Modifiers {
    /// The combined mask of the chosen modifiers.
    pub open spec fn spec_mask(self) -> u32 {
        option_mask(self.ctrl) | option_mask(self.shift) | option_mask(self.altgr)
    }

    pub fn mask(&self) -> (mask: u32)
        ensures
            mask == self.spec_mask(),
    {
        option_mod_mask(self.ctrl) | option_mod_mask(self.shift) | option_mod_mask(self.altgr)
    }
}

fn option_mod_mask(m: Option<ModifierMapping>) -> (mask: u32)
    ensures
        mask == option_mask(m),
{
    match m {
        Some(mapping) => mapping.mod_mask,
        None => 0,
    }
}

/// Whether `mask` has a bit of `modifier_mask`.
pub fn has_modifier(mask: u32, modifier_mask: u32) -> (has: bool)
    ensures
        has == ((mask & modifier_mask) != 0),
{
    mask & modifier_mask != 0
}

fn keep_if_in(m: Option<ModifierMapping>, mask: u32) -> (kept: Option<ModifierMapping>)
    ensures
        kept == spec_keep_if_in(m, mask),
{
    match m {
        Some(mapping) => if has_modifier(mask, mapping.mod_mask) {
            Some(mapping)
        } else {
            None
        },
        None => None,
    }
}

impl AvailableModifiers {
    pub open spec fn spec_from_keymap(km: KeymapModel) -> AvailableModifiers {
        AvailableModifiers(
            Modifiers {
                ctrl: spec_mapping_from_name(km, ModifierName::Ctrl),
                shift: spec_mapping_from_name(km, ModifierName::Shift),
                altgr: spec_mapping_from_name(km, ModifierName::IsoLevel3Shift),
            },
        )
    }

    /// Every available modifier has a single-bit mask.
    pub open spec fn single_bits(self) -> bool {
        &&& (self.0.ctrl matches Some(m) ==> is_single_bit(m.mod_mask))
        &&& (self.0.shift matches Some(m) ==> is_single_bit(m.mod_mask))
        &&& (self.0.altgr matches Some(m) ==> is_single_bit(m.mod_mask))
    }

    pub open spec fn spec_mask(self) -> u32 {
        self.0.spec_mask()
    }

    pub open spec fn spec_can_represent(self, modifier_mask: u32) -> bool {
        (self.spec_mask() & modifier_mask) == modifier_mask
    }

    pub open spec fn spec_modifiers_for_mask(self, mask: u32) -> Modifiers {
        Modifiers {
            ctrl: spec_keep_if_in(self.0.ctrl, mask),
            shift: spec_keep_if_in(self.0.shift, mask),
            altgr: spec_keep_if_in(self.0.altgr, mask),
        }
    }

    /// Looks up Control, Shift and Mod5 (AltGr) in the keymap, each with the first key that
    /// activates it.
    pub fn from_keymap(keymap: &KeymapModel) -> (available: AvailableModifiers)
        requires
            keymap.wf(),
        ensures
            available == Self::spec_from_keymap(*keymap),
            available.single_bits(),
    {
        AvailableModifiers(
            Modifiers {
                ctrl: ModifierMapping::from_name(keymap, ModifierName::Ctrl),
                shift: ModifierMapping::from_name(keymap, ModifierName::Shift),
                altgr: ModifierMapping::from_name(keymap, ModifierName::IsoLevel3Shift),
            },
        )
    }

    /// The modifiers among the available ones that have a bit in `mask`.
    pub fn modifiers_for_mask(&self, mask: u32) -> (modifiers: Modifiers)
        ensures
            modifiers == self.spec_modifiers_for_mask(mask),
    {
        Modifiers {
            ctrl: keep_if_in(self.0.ctrl, mask),
            shift: keep_if_in(self.0.shift, mask),
            altgr: keep_if_in(self.0.altgr, mask),
        }
    }

    /// Whether every bit of `modifier_mask` belongs to an available modifier.
    pub fn can_represent(&self, modifier_mask: u32) -> (can: bool)
        ensures
            can == self.spec_can_represent(modifier_mask),
    {
        self.mask() & modifier_mask == modifier_mask
    }

    /// The combined mask of the available modifiers.
    pub fn mask(&self) -> (mask: u32)
        ensures
            mask == self.spec_mask(),
    {
        self.0.mask()
    }
}

impl ModifierMapping {
    /// The modifier the keymap defines under `modifier_name`, with a key that activates it.
    pub fn from_name(keymap: &KeymapModel, modifier_name: ModifierName) -> (mapping: Option<ModifierMapping>)
        requires
            keymap.wf(),
        ensures
            mapping == spec_mapping_from_name(*keymap, modifier_name),
            mapping matches Some(m) ==> is_single_bit(m.mod_mask),
    {
        let mod_mask = match modifier_mask(keymap, modifier_name) {
            Some(mask) => mask,
            None => return None,
        };
        let keycode = match find_keycode_for_modifier_mask(keymap, mod_mask) {
            Some(keycode) => keycode,
            None => return None,
        };
        Some(ModifierMapping { mod_mask, keycode })
    }
}

/// The mask bit of the modifier named `modifier_name`, if the keymap defines it with an index
/// that fits a mask.
pub fn modifier_mask(keymap: &KeymapModel, modifier_name: ModifierName) -> (mask: Option<u32>)
    ensures
        mask == spec_modifier_mask(keymap.spec_mod_index(modifier_name)),
        mask matches Some(m) ==> is_single_bit(m),
{
    let modifier_index = keymap.mod_get_index(modifier_name);
    if modifier_index == MOD_INVALID || modifier_index >= u32::BITS {
        return None;
    }
    proof {
        lemma_shift_is_single_bit(modifier_index);
    }
    Some(1u32 << modifier_index)
}

/// The modifiers a keymap offers all have single-bit masks.
pub proof fn lemma_available_single_bits(km: KeymapModel)
    ensures
        AvailableModifiers::spec_from_keymap(km).single_bits(),
{
    let names = seq![ModifierName::Ctrl, ModifierName::Shift, ModifierName::IsoLevel3Shift];
    assert forall|k: int| 0 <= k < 3 implies (spec_mapping_from_name(km, #[trigger] names[k]) matches Some(m)
        ==> is_single_bit(m.mod_mask)) by {
        let index = km.spec_mod_index(names[k]);
        if index != MOD_INVALID && index < u32::BITS {
            lemma_shift_is_single_bit(index);
        }
    }
    assert(names[0] == ModifierName::Ctrl);
    assert(names[1] == ModifierName::Shift);
    assert(names[2] == ModifierName::IsoLevel3Shift);
}

proof fn lemma_shift_is_single_bit(index: u32)
    requires
        index < 32,
    ensures
        is_single_bit(1u32 << index),
{
    assert((1u32 << index) != 0 && ((1u32 << index) & (((1u32 << index) - 1) as u32)) == 0) by (bit_vector)
        requires
            index < 32,
    ;
}

/// The first key whose press turns on every bit of `target_mask`, as a platform keycode.
pub fn find_keycode_for_modifier_mask(keymap: &KeymapModel, target_mask: u32) -> (keycode: Option<PlatformKeycode>)
    requires
        keymap.wf(),
    ensures
        keycode == spec_find_keycode_for_modifier_mask(*keymap, target_mask),
{
    if target_mask == 0 {
        return None;
    }
    let n = keymap.keys.len();
    let mut i: usize = 0;
    while i < n
        invariant
            keymap.wf(),
            n == keymap.num_keys(),
            0 <= i <= n,
            target_mask != 0,
            forall|i2: int| i2 < i ==> !#[trigger] activates(*keymap, i2, target_mask),
        decreases n - i,
    {
        let active_modifiers = keymap.keys[i].pressed_mods;
        if (active_modifiers & target_mask) == target_mask {
            proof {
                assert(is_first_activating(*keymap, target_mask, i as int));
                lemma_first_activating_unique(*keymap, target_mask, i as int);
            }
            let xkb_keycode: u32 = keymap.min_keycode + i as u32;
            return match PlatformKeycode::from_xkb(xkb_keycode) {
                Ok(k) => Some(k),
                Err(_) => None,
            };
        }
        i = i + 1;
    }
    None
}

proof fn lemma_first_activating_unique(km: KeymapModel, target: u32, i: int)
    requires
        is_first_activating(km, target, i),
    ensures
        forall|i2: int| is_first_activating(km, target, i2) ==> i2 == i,
{
    assert forall|i2: int| is_first_activating(km, target, i2) implies i2 == i by {
        if i2 < i {
            assert(!activates(km, i2, target));
        } else if i < i2 {
            assert(!activates(km, i, target));
        }
    }
}

/// For an available-modifier set of single-bit masks: the modifiers chosen for a mask they can
/// represent combine to exactly that mask, so pressing their keys produces the mask.
pub proof fn lemma_representable_mask_reproduced(available: AvailableModifiers, mask: u32)
    requires
        available.single_bits(),
        available.spec_can_represent(mask),
    ensures
        available.spec_modifiers_for_mask(mask).spec_mask() == mask,
{
    let c = option_mask(available.0.ctrl);
    let s = option_mask(available.0.shift);
    let a = option_mask(available.0.altgr);
    let kc = option_mask(spec_keep_if_in(available.0.ctrl, mask));
    let ks = option_mask(spec_keep_if_in(available.0.shift, mask));
    let ka = option_mask(spec_keep_if_in(available.0.altgr, mask));
    assert(c == 0 || is_single_bit(c));
    assert(s == 0 || is_single_bit(s));
    assert(a == 0 || is_single_bit(a));
    assert(kc == (if (mask & c) != 0 { c } else { 0 }));
    assert(ks == (if (mask & s) != 0 { s } else { 0 }));
    assert(ka == (if (mask & a) != 0 { a } else { 0 }));
    assert(((c | s | a) & mask) == mask);
    assert((kc | ks | ka) == mask) by (bit_vector)
        requires
            c == 0 || (c != 0 && (c & ((c - 1) as u32)) == 0),
            s == 0 || (s != 0 && (s & ((s - 1) as u32)) == 0),
            a == 0 || (a != 0 && (a & ((a - 1) as u32)) == 0),
            kc == (if (mask & c) != 0 { c } else { 0 }),
            ks == (if (mask & s) != 0 { s } else { 0 }),
            ka == (if (mask & a) != 0 { a } else { 0 }),
            ((c | s | a) & mask) == mask,
    ;
}

} // verus!

//! Key lookup on an XKB keymap.
use vstd::prelude::*;

pub mod keycode;
pub mod keymap;
pub mod mapping;
pub mod modifier;
pub mod unicode_fallback;

use crate::xkb::keymap::KeymapModel;
use crate::xkb::modifier::{AvailableModifiers, Modifiers};

verus! {

/// The opaque I/O error type of the standard library, carried by `XkbInitError::Io`.
#[verifier::external_type_specification]
#[verifier::external_body]
pub struct ExIoError(std::io::Error);

/// Why a keymap handed over by the compositor could not be set up.
#[derive(Debug)]
pub enum XkbInitError {
    /// The keymap file descriptor could not be read or mapped.
    Io(std::io::Error),
    /// libxkbcommon did not compile the keymap.
    KeymapCompileFailed,
}

/// A keymap together with the modifiers it offers.
pub struct Xkb {
    keymap: KeymapModel,
    available_modifiers: AvailableModifiers,
}

impl Xkb {
    #[verifier::type_invariant]
    spec fn inv(self) -> bool {
        &&& self.keymap.wf()
        &&& self.available_modifiers == AvailableModifiers::spec_from_keymap(self.keymap)
        &&& self.available_modifiers.single_bits()
    }

    /// The keymap.
    pub closed spec fn keymap(&self) -> KeymapModel {
        self.keymap
    }

    /// The modifiers the keymap offers.
    pub closed spec fn available(&self) -> AvailableModifiers {
        self.available_modifiers
    }

    /// Sets up key lookup on a keymap: finds its Ctrl, Shift and AltGr modifiers.
    pub fn from_keymap(keymap: KeymapModel) -> (xkb: Xkb)
        requires
            keymap.wf(),
        ensures
            xkb.keymap() == keymap,
            xkb.available() == AvailableModifiers::spec_from_keymap(keymap),
    {
        let available_modifiers = AvailableModifiers::from_keymap(&keymap);
        Xkb { keymap, available_modifiers }
    }

    /// The modifiers for a shift level: those of the first of the level's modifier masks that
    /// the available modifiers can represent.
    fn modifiers_for_key_level(&self, key_index: usize, level: usize) -> (modifiers: Option<Modifiers>)
        requires
            key_index < self.keymap().num_keys(),
            level < self.keymap().num_levels(key_index as int),
        ensures
            modifiers == spec_modifiers_for_masks(
                self.available(),
                self.keymap().level_masks(key_index as int, level as int),
            ),
    {
        proof {
            use_type_invariant(self);
        }
        let masks = &self.keymap.keys[key_index].levels[level].mod_masks;
        let n = masks.len();
        let mut k: usize = 0;
        while k < n
            invariant
                n == masks@.len(),
                masks@ == self.keymap().level_masks(key_index as int, level as int),
                0 <= k <= n,
                forall|k2: int| 0 <= k2 < k ==> !self.available().spec_can_represent(#[trigger] masks@[k2]),
            decreases n - k,
        {
            let mask = masks[k];
            if self.available_modifiers.can_represent(mask) {
                proof {
                    assert(is_first_representable(self.available(), masks@, k as int));
                    lemma_first_representable_unique(self.available(), masks@, k as int);
                }
                return Some(self.available_modifiers.modifiers_for_mask(mask));
            }
            k = k + 1;
        }
        None
    }

    /// The available modifiers; they are those the keymap defines, each with a one-bit mask.
    pub fn available_modifiers(&self) -> (available: &AvailableModifiers)
        ensures
            *available == self.available(),
            available.single_bits(),
            *available == AvailableModifiers::spec_from_keymap(self.keymap()),
    {
        proof {
            use_type_invariant(self);
        }
        &self.available_modifiers
    }

    /// The keymap; it is valid.
    pub fn keymap_model(&self) -> (keymap: &KeymapModel)
        ensures
            *keymap == self.keymap(),
            keymap.wf(),
    {
        proof {
            use_type_invariant(self);
        }
        &self.keymap
    }
}

/// Mask `k` is the first of `masks` that the available modifiers can represent.
pub open spec fn is_first_representable(available: AvailableModifiers, masks: Seq<u32>, k: int) -> bool {
    &&& 0 <= k < masks.len()
    &&& available.spec_can_represent(masks[k])
    &&& forall|k2: int| 0 <= k2 < k ==> !available.spec_can_represent(#[trigger] masks[k2])
}

/// The modifiers of the first mask of `masks` that the available modifiers can represent.
pub open spec fn spec_modifiers_for_masks(available: AvailableModifiers, masks: Seq<u32>) -> Option<Modifiers> {
    if exists|k: int| is_first_representable(available, masks, k) {
        let k = choose|k: int| is_first_representable(available, masks, k);
        Some(available.spec_modifiers_for_mask(masks[k]))
    } else {
        None
    }
}

proof fn lemma_first_representable_unique(available: AvailableModifiers, masks: Seq<u32>, k: int)
    requires
        is_first_representable(available, masks, k),
    ensures
        forall|k2: int| is_first_representable(available, masks, k2) ==> k2 == k,
{
    assert forall|k2: int| is_first_representable(available, masks, k2) implies k2 == k by {
        if k2 < k {
            assert(!available.spec_can_represent(masks[k2]));
        } else if k < k2 {
            assert(!available.spec_can_represent(masks[k]));
        }
    }
}

} // verus!

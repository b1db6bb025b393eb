//! A plain-value description of the parts of a compiled XKB keymap that the key lookup reads.
//!
//! The keymap arrives from the compositor as a file descriptor and is compiled by
//! libxkbcommon; whoever does that fills in a `KeymapModel` with what the keymap answers for
//! each keycode of its range, in the layout that is effective in a fresh keyboard state.
use vstd::prelude::*;

verus! {

/// How many modifier masks are asked for per shift level; libxkbcommon fills at most this many.
pub const MAX_MODIFIER_MASKS: usize = 100;

/// The modifier index libxkbcommon reports for a name that the keymap does not define.
pub const MOD_INVALID: u32 = 0xffff_ffff;

/// One shift level of a key.
pub struct LevelEntry {
    /// The keysyms the level produces.
    pub syms: Vec<u32>,
    /// The modifier masks that select this level, in the order libxkbcommon reports them.
    pub mod_masks: Vec<u32>,
}

/// One keycode of the keymap.
pub struct KeyEntry {
    /// The shift levels of the key.
    pub levels: Vec<LevelEntry>,
    /// The effective modifier mask while this key is held down, in one keyboard state that
    /// started fresh and in which every lower keycode of the range has been pressed and released
    /// in turn before (so lock modifiers toggled by lower keys stay in effect).
    pub pressed_mods: u32,
}

/// The modifiers the typing logic looks up by name.
#[derive(Clone, Copy, Debug, PartialEq, Eq)]
pub enum ModifierName {
    /// `Control`
    Ctrl,
    /// `Shift`
    Shift,
    /// `Mod5`, the ISO level-3 shift (AltGr)
    IsoLevel3Shift,
}

/// The keymap: `keys[i]` describes the XKB keycode `min_keycode + i`.
pub struct KeymapModel {
    pub min_keycode: u32,
    pub keys: Vec<KeyEntry>,
    /// The modifier index of `Control` (`MOD_INVALID` when absent).
    pub ctrl_index: u32,
    /// The modifier index of `Shift` (`MOD_INVALID` when absent).
    pub shift_index: u32,
    /// The modifier index of `Mod5` (`MOD_INVALID` when absent).
    pub iso_level3_shift_index: u32,
}

impl KeymapModel {
    /// Every keycode of the range fits in a `u32`, and every key has a `u32` count of levels.
    pub open spec fn wf(&self) -> bool {
        &&& self.min_keycode + self.keys@.len() <= u32::MAX + 1
        &&& forall|i: int| 0 <= i < self.keys@.len() ==> #[trigger] self.keys@[i].levels@.len() <= u32::MAX
    }

    pub open spec fn num_keys(&self) -> int {
        self.keys@.len() as int
    }

    pub open spec fn num_levels(&self, i: int) -> int {
        self.keys@[i].levels@.len() as int
    }

    pub open spec fn level_syms(&self, i: int, j: int) -> Seq<u32> {
        self.keys@[i].levels@[j].syms@
    }

    pub open spec fn level_masks(&self, i: int, j: int) -> Seq<u32> {
        self.keys@[i].levels@[j].mod_masks@
    }

    pub open spec fn pressed_mods(&self, i: int) -> u32 {
        self.keys@[i].pressed_mods
    }

    pub open spec fn spec_mod_index(&self, name: ModifierName) -> u32 {
        match name {
            ModifierName::Ctrl => self.ctrl_index,
            ModifierName::Shift => self.shift_index,
            ModifierName::IsoLevel3Shift => self.iso_level3_shift_index,
        }
    }

    /// Whether the keymap is valid (see `wf`).
    pub fn is_valid(&self) -> (valid: bool)
        ensures
            valid == self.wf(),
    {
        if self.keys.len() as u64 > u32::MAX as u64 - self.min_keycode as u64 + 1 {
            return false;
        }
        let n = self.keys.len();
        let mut i: usize = 0;
        while i < n
            invariant
                n == self.keys@.len(),
                0 <= i <= n,
                forall|i2: int| 0 <= i2 < i ==> #[trigger] self.keys@[i2].levels@.len() <= u32::MAX,
            decreases n - i,
        {
            if self.keys[i].levels.len() as u64 > u32::MAX as u64 {
                return false;
            }
            i = i + 1;
        }
        true
    }

    /// The modifier index of a modifier name.
    pub fn mod_get_index(&self, name: ModifierName) -> (index: u32)
        ensures
            index == self.spec_mod_index(name),
    {
        match name {
            ModifierName::Ctrl => self.ctrl_index,
            ModifierName::Shift => self.shift_index,
            ModifierName::IsoLevel3Shift => self.iso_level3_shift_index,
        }
    }
}

} // verus!

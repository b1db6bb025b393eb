//! Keysyms: the symbols an XKB keymap assigns to key levels.
use vstd::prelude::*;

verus! {

/// The keysym that stands for no symbol.
pub const KEY_NO_SYMBOL: u32 = 0;

/// The keysym of the letter `u`.
pub const KEY_U: u32 = 0x0075;

/// The keysym of the space bar.
pub const KEY_SPACE: u32 = 0x0020;

/// The keysym that `xkeysym::Keysym::from_char` assigns to a Unicode code point.
pub uninterp spec fn utf32_keysym(code_point: u32) -> u32;

/// Calls `xkeysym::Keysym::from_char`, the Rust conversion offered by the keysym type that
/// libxkbcommon's bindings use; its table follows libxkbcommon's, but nothing here claims that it
/// agrees with the libxkbcommon installed on a machine. The result is named as a function of the
/// character alone; beside the name the contract states what the crate's source shows outright:
/// printable Latin-1 characters are their own keysyms, and Unicode noncharacters have none. The
/// rest of the conversion (a table of legacy keysyms, then direct encoding) is left to the name.
#[verifier::external_body]
fn keysym_from_char(character: char) -> (keysym: u32)
    ensures
        keysym == utf32_keysym(character as u32),
        (0x20 <= character as u32 <= 0x7e || 0xa0 <= character as u32 <= 0xff) ==> keysym
            == character as u32,
        (0xfdd0 <= character as u32 <= 0xfdef || (character as u32) % 0x10000 >= 0xfffe) ==> keysym
            == KEY_NO_SYMBOL,
{
    xkeysym::Keysym::from_char(character).raw()
}

/// The keysym of a character, `None` where it has none.
pub open spec fn spec_keysym_for_char(character: char) -> Option<u32> {
    if utf32_keysym(character as u32) == KEY_NO_SYMBOL {
        None
    } else {
        Some(utf32_keysym(character as u32))
    }
}

/// The keysym of a character, or `None` where it has none.
pub fn keysym_for_char(character: char) -> (keysym: Option<u32>)
    ensures
        keysym == spec_keysym_for_char(character),
        (0x20 <= character as u32 <= 0x7e || 0xa0 <= character as u32 <= 0xff) ==> keysym == Some(
            character as u32,
        ),
{
    let k = keysym_from_char(character);
    if k == KEY_NO_SYMBOL {
        None
    } else {
        Some(k)
    }
}

} // verus!

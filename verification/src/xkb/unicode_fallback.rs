//! The keys of the Ctrl+Shift+U Unicode input sequence.
use vstd::prelude::*;

use crate::keysym::{KEY_SPACE, KEY_U};
use crate::xkb::mapping::{spec_key_for_keysym, KeyMappingError, MappedKey};
use crate::xkb::modifier::{AvailableModifiers, Modifiers};
use crate::xkb::Xkb;

verus! {

/// The keys that open (Ctrl+Shift+U) and confirm (Space) a Unicode input sequence.
#[derive(Debug, Clone, Copy, PartialEq, Eq)]
pub struct UnicodeFallbackKeys {
    pub prefix: MappedKey,
    pub confirm: MappedKey,
}

/// Why the Unicode input sequence cannot be typed with the keymap.
#[derive(Debug, Clone, Copy, PartialEq, Eq)]
pub enum UnicodeFallbackInitError {
    /// The layout lacks a Ctrl or a Shift modifier key.
    MissingModifiers,
    /// The prefix key (`u`) is unavailable in the layout.
    PrefixKey(KeyMappingError),
    /// The confirmation key (Space) is unavailable in the layout.
    ConfirmKey(KeyMappingError),
}

/// Ctrl and Shift, when both are available, with no AltGr.
pub open spec fn spec_unicode_fallback_modifiers(available: AvailableModifiers) -> Option<Modifiers> {
    match (available.0.ctrl, available.0.shift) {
        (Some(ctrl), Some(shift)) => Some(Modifiers { ctrl: Some(ctrl), shift: Some(shift), altgr: None }),
        _ => None,
    }
}

/// The fallback keys of a keymap: `u` held with Ctrl and Shift (and the AltGr state its own
/// level needs), and Space.
pub open spec fn spec_unicode_fallback_keys(xkb: &Xkb) -> Result<UnicodeFallbackKeys, UnicodeFallbackInitError> {
    match spec_unicode_fallback_modifiers(xkb.available()) {
        None => Err(UnicodeFallbackInitError::MissingModifiers),
        Some(fallback) => match spec_key_for_keysym(xkb.keymap(), xkb.available(), KEY_U) {
            Err(e) => Err(UnicodeFallbackInitError::PrefixKey(e)),
            Ok(u_key) => match spec_key_for_keysym(xkb.keymap(), xkb.available(), KEY_SPACE) {
                Err(e) => Err(UnicodeFallbackInitError::ConfirmKey(e)),
                Ok(confirm) => Ok(
                    UnicodeFallbackKeys {
                        prefix: MappedKey {
                            keycode: u_key.keycode,
                            modifiers: Modifiers {
                                ctrl: fallback.ctrl,
                                shift: fallback.shift,
                                altgr: u_key.modifiers.altgr,
                            },
                        },
                        confirm,
                    },
                ),
            },
        },
    }
}

fn unicode_fallback_modifiers(available_modifiers: &AvailableModifiers) -> (modifiers: Option<Modifiers>)
    ensures
        modifiers == spec_unicode_fallback_modifiers(*available_modifiers),
{
    let ctrl = match available_modifiers.0.ctrl {
        Some(ctrl) => ctrl,
        None => return None,
    };
    let shift = match available_modifiers.0.shift {
        Some(shift) => shift,
        None => return None,
    };
    Some(Modifiers { ctrl: Some(ctrl), shift: Some(shift), altgr: None })
}

impl Xkb {
    /// The keys of the Unicode input sequence with this keymap.
    pub fn unicode_fallback_keys(&self) -> (keys: Result<UnicodeFallbackKeys, UnicodeFallbackInitError>)
        ensures
            keys == spec_unicode_fallback_keys(self),
    {
        let fallback_modifiers = match unicode_fallback_modifiers(self.available_modifiers()) {
            Some(m) => m,
            None => return Err(UnicodeFallbackInitError::MissingModifiers),
        };
        let mut prefix = match self.key_for_keysym(KEY_U) {
            Ok(key) => key,
            Err(e) => return Err(UnicodeFallbackInitError::PrefixKey(e)),
        };
        prefix.modifiers = Modifiers {
            ctrl: fallback_modifiers.ctrl,
            shift: fallback_modifiers.shift,
            altgr: prefix.modifiers.altgr,
        };
        let confirm = match self.key_for_keysym(KEY_SPACE) {
            Ok(key) => key,
            Err(e) => return Err(UnicodeFallbackInitError::ConfirmKey(e)),
        };
        Ok(UnicodeFallbackKeys { prefix, confirm })
    }
}

/// The lowercase hexadecimal digits, by value.
pub open spec fn hex_digits() -> Seq<char> {
    seq!['0', '1', '2', '3', '4', '5', '6', '7', '8', '9', 'a', 'b', 'c', 'd', 'e', 'f']
}

/// The lowercase hexadecimal digit of a value below 16.
pub open spec fn hex_digit(d: nat) -> char {
    hex_digits()[d as int]
}

/// The lowercase hexadecimal digits of `value`, most significant first, without leading zeros
/// (`0` for zero), as `format!("{:x}", value)` writes them.
pub open spec fn spec_lower_hex(value: nat) -> Seq<char>
    decreases value,
{
    if value < 16 {
        seq![hex_digit(value)]
    } else {
        spec_lower_hex(value / 16).push(hex_digit(value % 16))
    }
}

/// The value of a lowercase hexadecimal digit.
pub open spec fn hex_digit_value(c: char) -> nat {
    if '0' <= c <= '9' {
        (c as nat - '0' as nat) as nat
    } else {
        (c as nat - 'a' as nat + 10) as nat
    }
}

/// The value of a string of lowercase hexadecimal digits, most significant first.
pub open spec fn hex_value(digits: Seq<char>) -> nat
    decreases digits.len(),
{
    if digits.len() == 0 {
        0
    } else {
        hex_value(digits.drop_last()) * 16 + hex_digit_value(digits.last())
    }
}

proof fn lemma_hex_digit_value(d: nat)
    requires
        d < 16,
    ensures
        hex_digit_value(hex_digit(d)) == d,
{
    let t = hex_digits();
    assert(t[0] == '0' && t[1] == '1' && t[2] == '2' && t[3] == '3' && t[4] == '4' && t[5] == '5');
    assert(t[6] == '6' && t[7] == '7' && t[8] == '8' && t[9] == '9' && t[10] == 'a' && t[11] == 'b');
    assert(t[12] == 'c' && t[13] == 'd' && t[14] == 'e' && t[15] == 'f');
}

/// Reading the digits back gives the value: the Unicode input sequence enters exactly the code
/// point of the character, and its first digit is not a zero unless the value is zero.
pub proof fn lemma_lower_hex_roundtrip(value: nat)
    ensures
        hex_value(spec_lower_hex(value)) == value,
        spec_lower_hex(value).len() >= 1,
        value > 0 ==> spec_lower_hex(value)[0] != '0',
    decreases value,
{
    let digits = spec_lower_hex(value);
    if value < 16 {
        lemma_hex_digit_value(value);
        assert(digits.drop_last() =~= Seq::<char>::empty());
        assert(hex_value(digits.drop_last()) == 0);
        assert(digits.last() == hex_digit(value));
        if value > 0 {
            let t = hex_digits();
            assert(t[0] == '0');
            assert(hex_digit_value(t[value as int]) == value);
        }
    } else {
        lemma_lower_hex_roundtrip(value / 16);
        lemma_hex_digit_value(value % 16);
        assert(digits.drop_last() =~= spec_lower_hex(value / 16));
        assert(digits.last() == hex_digit(value % 16));
        assert(hex_value(digits) == hex_value(spec_lower_hex(value / 16)) * 16 + value % 16);
        assert(digits[0] == spec_lower_hex(value / 16)[0]);
    }
}

/// The lowercase hexadecimal digits of `value`, most significant first, without leading zeros.
pub fn lower_hex_digits(value: u32) -> (digits: Vec<char>)
    ensures
        digits@ == spec_lower_hex(value as nat),
{
    let mut digits: Vec<char> = Vec::new();
    push_lower_hex(value, &mut digits);
    digits
}

fn push_lower_hex(value: u32, out: &mut Vec<char>)
    ensures
        final(out)@ == old(out)@ + spec_lower_hex(value as nat),
    decreases value,
{
    if value >= 16 {
        push_lower_hex(value / 16, out);
    }
    let table: [char; 16] = ['0', '1', '2', '3', '4', '5', '6', '7', '8', '9', 'a', 'b', 'c', 'd', 'e', 'f'];
    assert(table@ =~= hex_digits());
    let digit = table[(value % 16) as usize];
    out.push(digit);
    proof {
        assert(old(out)@ + spec_lower_hex(value as nat) =~= if value >= 16 {
            old(out)@ + spec_lower_hex((value / 16) as nat) + seq![hex_digit((value % 16) as nat)]
        } else {
            old(out)@ + seq![hex_digit(value as nat)]
        });
    }
}

} // verus!

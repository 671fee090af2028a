//! Screen rectangles as the library carries them.

use vstd::prelude::*;

verus! {

/// A screen rectangle in UI coordinates.
///
/// Each coordinate is held as the bit pattern of the toolkit's
/// single-precision value, so that a rectangle survives storage exactly.
/// The library never does arithmetic on coordinates.
#[derive(Clone, Copy, Debug, PartialEq, Eq, Structural)]
pub struct Rect {
    pub min_x: u32,
    pub min_y: u32,
    pub max_x: u32,
    pub max_y: u32,
}

/// Bit pattern of the width `200.0` of a fresh card's window.
pub const DEFAULT_WIDTH_BITS: u32 = 0x4348_0000;

/// Bit pattern of the height `130.0` of a fresh card's window.
pub const DEFAULT_HEIGHT_BITS: u32 = 0x4302_0000;

/// Bit pattern of `155.0`, the least width of a card's window.
pub const MIN_WIDTH_BITS: u32 = 0x431b_0000;

/// Bit pattern of `110.0`, the least height of a card's window.
pub const MIN_HEIGHT_BITS: u32 = 0x42dc_0000;

/// The rectangle a card has before the toolkit has laid it out: from the
/// origin to (200, 130).
pub open spec fn default_rect() -> Rect {
    Rect { min_x: 0, min_y: 0, max_x: DEFAULT_WIDTH_BITS, max_y: DEFAULT_HEIGHT_BITS }
}

/// Makes the default rectangle.
pub fn make_default_rect() -> (r: Rect)
    ensures
        r == default_rect(),
{
    Rect { min_x: 0, min_y: 0, max_x: DEFAULT_WIDTH_BITS, max_y: DEFAULT_HEIGHT_BITS }
}

} // verus!

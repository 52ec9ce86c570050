//! The persisted paint sample: an 8-bit-per-channel RGB value.

use vstd::prelude::*;

verus! {

/// An 8-bit-per-channel RGB color, the form in which paint is stored in
/// the ground grid. Ground pixels are always opaque, so no alpha channel
/// is kept here.
#[derive(Clone, Copy, Debug, PartialEq, Eq, Structural)]
pub struct QuantizedColor {
    pub r: u8,
    pub g: u8,
    pub b: u8,
}

/// The color of the preset floor rows.
pub open spec fn white_spec() -> QuantizedColor {
    QuantizedColor { r: 255, g: 255, b: 255 }
}

impl QuantizedColor {
    pub fn new(r: u8, g: u8, b: u8) -> (c: QuantizedColor)
        ensures
            c == (QuantizedColor { r, g, b }),
    {
        QuantizedColor { r, g, b }
    }

    pub fn white() -> (c: QuantizedColor)
        ensures
            c == white_spec(),
    {
        QuantizedColor { r: 255, g: 255, b: 255 }
    }
}

} // verus!

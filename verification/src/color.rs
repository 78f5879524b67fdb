//! Blending modes and perceptual luma weights.

use vstd::prelude::*;

verus! {

/// Per-channel luma weight for red, in ten-thousandths.
pub const LUMA_R: u64 = 2126;

/// Per-channel luma weight for green, in ten-thousandths.
pub const LUMA_G: u64 = 7152;

/// Per-channel luma weight for blue, in ten-thousandths.
pub const LUMA_B: u64 = 722;

/// How a painted color is combined with the color already on the canvas,
/// following the classic separable compositing formulas.
#[derive(Clone, Copy, Debug, PartialEq, Eq, Hash, Structural)]
pub enum BlendingMode {
    Normal,
    Multiply,
    Screen,
    Overlay,
    Darken,
    Lighten,
    ColorDodge,
    ColorBurn,
    HardLight,
    SoftLight,
    Difference,
    Exclusion,
}

impl BlendingMode {
    /// The position of the mode in the fixed list of modes.
    pub open spec fn index_spec(self) -> u32 {
        match self {
            BlendingMode::Normal => 0,
            BlendingMode::Multiply => 1,
            BlendingMode::Screen => 2,
            BlendingMode::Overlay => 3,
            BlendingMode::Darken => 4,
            BlendingMode::Lighten => 5,
            BlendingMode::ColorDodge => 6,
            BlendingMode::ColorBurn => 7,
            BlendingMode::HardLight => 8,
            BlendingMode::SoftLight => 9,
            BlendingMode::Difference => 10,
            BlendingMode::Exclusion => 11,
        }
    }

    /// The numeric tag of the mode.
    pub fn index(&self) -> (r: u32)
        ensures
            r == self.index_spec(),
    {
        match self {
            BlendingMode::Normal => 0,
            BlendingMode::Multiply => 1,
            BlendingMode::Screen => 2,
            BlendingMode::Overlay => 3,
            BlendingMode::Darken => 4,
            BlendingMode::Lighten => 5,
            BlendingMode::ColorDodge => 6,
            BlendingMode::ColorBurn => 7,
            BlendingMode::HardLight => 8,
            BlendingMode::SoftLight => 9,
            BlendingMode::Difference => 10,
            BlendingMode::Exclusion => 11,
        }
    }
}

impl Default for BlendingMode {
    /// Plain alpha blending is the default mode.
    fn default() -> (r: Self)
        ensures
            r == BlendingMode::Normal,
    {
        BlendingMode::Normal
    }
}

} // verus!

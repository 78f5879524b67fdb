//! Lengths, rectangles, margins and weighted values.
//!
//! A length is either an absolute pixel count or a fraction of a reference
//! dimension; fractions are held in millionths so that resolving them to
//! pixels is exact integer arithmetic with round-half-away-from-zero.

use vstd::prelude::*;

verus! {

/// One whole unit in the fixed-point scale used for fractional quantities.
pub const UNIT: i64 = 1_000_000;

/// Largest fraction magnitude (in millionths) a size unit may carry:
/// a million times the reference dimension, far beyond any sensible margin,
/// chosen so that resolving it to pixels cannot overflow.
pub const FRACTION_LIMIT: i64 = 1_000_000_000_000;

/// Largest canvas dimension the library accepts, chosen so that a byte
/// count of a canvas always fits a 32-bit machine word.
pub const MAX_DIMENSION: u32 = 16383;

/// Round `p / UNIT` to the nearest integer, half away from zero.
pub open spec fn round_millionths_spec(p: int) -> int {
    if p >= 0 {
        (p + (UNIT as int) / 2) / (UNIT as int)
    } else {
        -((-p + (UNIT as int) / 2) / (UNIT as int))
    }
}

/// A length, as an absolute pixel count or a fraction (in millionths) of a
/// reference dimension.
#[derive(Clone, Copy, Debug, PartialEq, Eq, Structural)]
pub enum SizeUnit {
    Fraction(i64),
    Pixels(i64),
}

impl SizeUnit {
    /// True when the value is small enough to be resolved against any
    /// accepted dimension without overflow.
    pub open spec fn in_bounds(self) -> bool {
        match self {
            SizeUnit::Fraction(f) => -FRACTION_LIMIT <= f <= FRACTION_LIMIT,
            SizeUnit::Pixels(p) => -FRACTION_LIMIT <= p <= FRACTION_LIMIT,
        }
    }

    /// The pixel count this unit resolves to against `total_size` pixels.
    pub open spec fn to_pixels_spec(self, total_size: u32) -> int {
        match self {
            SizeUnit::Fraction(f) => round_millionths_spec(f * total_size),
            SizeUnit::Pixels(p) => p as int,
        }
    }

    /// Resolve the unit against a reference dimension: an absolute count
    /// returns itself, a fraction returns its rounded share of the total.
    pub fn to_pixels(&self, total_size: u32) -> (r: i64)
        requires
            total_size <= MAX_DIMENSION,
            self.in_bounds(),
        ensures
            r == self.to_pixels_spec(total_size),
    {
        match self {
            SizeUnit::Fraction(f) => {
                proof {
                    assert(-FRACTION_LIMIT * (MAX_DIMENSION as int) <= (*f) * (total_size as int)
                        <= FRACTION_LIMIT * (MAX_DIMENSION as int))
                        by (nonlinear_arith)
                        requires
                            -FRACTION_LIMIT <= *f <= FRACTION_LIMIT,
                            0 <= total_size <= MAX_DIMENSION,
                    ;
                }
                let p: i64 = *f * (total_size as i64);
                if p >= 0 {
                    (p + UNIT / 2) / UNIT
                } else {
                    -((-p + UNIT / 2) / UNIT)
                }
            },
            SizeUnit::Pixels(p) => *p,
        }
    }
}

/// An axis-aligned rectangle in pixel coordinates.
#[derive(Clone, Copy, Debug, PartialEq, Eq, Structural)]
pub struct Rectangle {
    pub x: i64,
    pub y: i64,
    pub width: i64,
    pub height: i64,
}

/// Pixel margins around a rectangle; any side may be negative.
#[derive(Clone, Copy, Debug, PartialEq, Eq, Structural)]
pub struct Margins {
    pub top: i64,
    pub right: i64,
    pub bottom: i64,
    pub left: i64,
}

/// Bound on rectangle and margin coordinates that keeps every sum taken when
/// applying margins inside `i64`.
pub const COORD_LIMIT: i64 = 0x1000_0000_0000_0000;

impl Rectangle {
    pub open spec fn in_bounds(self) -> bool {
        -COORD_LIMIT <= self.x <= COORD_LIMIT && -COORD_LIMIT <= self.y <= COORD_LIMIT
            && -COORD_LIMIT <= self.width <= COORD_LIMIT && -COORD_LIMIT <= self.height
            <= COORD_LIMIT
    }

    /// Shrink (or grow, for negative margins) the rectangle by the given
    /// margins: the origin moves by the left and top margins, and each
    /// dimension loses the two margins on its axis.
    pub fn apply_margins(&mut self, margins: Margins)
        requires
            old(self).in_bounds(),
            -COORD_LIMIT <= margins.top <= COORD_LIMIT,
            -COORD_LIMIT <= margins.right <= COORD_LIMIT,
            -COORD_LIMIT <= margins.bottom <= COORD_LIMIT,
            -COORD_LIMIT <= margins.left <= COORD_LIMIT,
        ensures
            final(self).x == old(self).x + margins.left,
            final(self).y == old(self).y + margins.top,
            final(self).width == old(self).width - (margins.left + margins.right),
            final(self).height == old(self).height - (margins.top + margins.bottom),
    {
        self.x = self.x + margins.left;
        self.y = self.y + margins.top;
        self.width = self.width - (margins.left + margins.right);
        self.height = self.height - (margins.top + margins.bottom);
    }
}

/// Margins expressed as size units, resolved against a canvas size.
#[derive(Clone, Copy, Debug, PartialEq, Eq, Structural)]
pub struct UnitMargins {
    pub top: SizeUnit,
    pub right: SizeUnit,
    pub bottom: SizeUnit,
    pub left: SizeUnit,
}

impl UnitMargins {
    pub open spec fn in_bounds(self) -> bool {
        self.top.in_bounds() && self.right.in_bounds() && self.bottom.in_bounds()
            && self.left.in_bounds()
    }

    pub open spec fn to_pixels_spec(self, width: u32, height: u32) -> Margins {
        Margins {
            top: self.top.to_pixels_spec(height) as i64,
            right: self.right.to_pixels_spec(width) as i64,
            bottom: self.bottom.to_pixels_spec(height) as i64,
            left: self.left.to_pixels_spec(width) as i64,
        }
    }

    /// Resolve each side against the matching canvas dimension: horizontal
    /// sides against the width, vertical sides against the height.
    pub fn to_pixels(&self, width: u32, height: u32) -> (r: Margins)
        requires
            width <= MAX_DIMENSION,
            height <= MAX_DIMENSION,
            self.in_bounds(),
        ensures
            r == self.to_pixels_spec(width, height),
    {
        Margins {
            top: self.top.to_pixels(height),
            right: self.right.to_pixels(width),
            bottom: self.bottom.to_pixels(height),
            left: self.left.to_pixels(width),
        }
    }
}

/// A value paired with a selection weight (in millionths).
#[derive(Clone, Copy, Debug)]
pub struct WeightedValue<T> {
    pub value: T,
    pub weight: u64,
}

} // verus!

//! Geometry of the drawable area.

use vstd::prelude::*;

use crate::error::CandidateError;
use crate::units::{Margins, Rectangle, UnitMargins, FRACTION_LIMIT, MAX_DIMENSION};

verus! {

/// The canvas rectangle shrunk by the margins, before checking its area.
pub open spec fn draw_rect_spec(width: u32, height: u32, margins: UnitMargins) -> Rectangle {
    let m = margins.to_pixels_spec(width, height);
    Rectangle {
        x: (0 + m.left) as i64,
        y: (0 + m.top) as i64,
        width: (width - (m.left + m.right)) as i64,
        height: (height - (m.top + m.bottom)) as i64,
    }
}

/// A resolved margin side can never leave the coordinate range.
pub proof fn lemma_margin_pixels_bound(u: crate::units::SizeUnit, total: u32)
    requires
        u.in_bounds(),
        total <= MAX_DIMENSION,
    ensures
        -crate::units::COORD_LIMIT <= u.to_pixels_spec(total) <= crate::units::COORD_LIMIT,
{
    match u {
        crate::units::SizeUnit::Fraction(f) => {
            assert(-FRACTION_LIMIT * (MAX_DIMENSION as int) <= f * total <= FRACTION_LIMIT * (
            MAX_DIMENSION as int)) by (nonlinear_arith)
                requires
                    -FRACTION_LIMIT <= f <= FRACTION_LIMIT,
                    0 <= total <= MAX_DIMENSION,
            ;
        },
        crate::units::SizeUnit::Pixels(_) => {},
    }
}

/// The drawable area of a canvas after applying the margins: the canvas
/// rectangle with each side inset by its resolved margin. Fails when the
/// remaining width or height is zero or negative.
pub fn find_target_draw_rect(dimensions: (u32, u32), margins: &UnitMargins) -> (r: Result<
    Rectangle,
    CandidateError,
>)
    requires
        dimensions.0 <= MAX_DIMENSION,
        dimensions.1 <= MAX_DIMENSION,
        margins.in_bounds(),
    ensures
        ({
            let rect = draw_rect_spec(dimensions.0, dimensions.1, *margins);
            if rect.width <= 0 || rect.height <= 0 {
                r == Result::<Rectangle, CandidateError>::Err(CandidateError::DegenerateArea)
            } else {
                r == Result::<Rectangle, CandidateError>::Ok(rect)
            }
        }),
{
    proof {
        lemma_margin_pixels_bound(margins.top, dimensions.1);
        lemma_margin_pixels_bound(margins.bottom, dimensions.1);
        lemma_margin_pixels_bound(margins.left, dimensions.0);
        lemma_margin_pixels_bound(margins.right, dimensions.0);
    }
    let pixel_margins: Margins = margins.to_pixels(dimensions.0, dimensions.1);
    let mut rect = Rectangle {
        x: 0,
        y: 0,
        width: dimensions.0 as i64,
        height: dimensions.1 as i64,
    };
    rect.apply_margins(pixel_margins);
    if rect.width <= 0 || rect.height <= 0 {
        Err(CandidateError::DegenerateArea)
    } else {
        Ok(rect)
    }
}

} // verus!

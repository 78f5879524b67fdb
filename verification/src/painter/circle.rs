//! The circle painter: filled circles with an optional antialiased rim.

use vstd::prelude::*;

use crate::canvas::{get_pixel_interpolated, interpolated_channel_spec, Canvas};
use crate::color::BlendingMode;
use crate::error::CandidateError;
use crate::geom::{draw_rect_spec, find_target_draw_rect};
use crate::paint::{composite, InstrModel, PaintInstruction, Shape, ShapeModel};
use crate::painter::{
    check_margins, check_modes, check_ranges, check_size_ranges, margins_resolve_ok, modes_valid,
    position_draw_spec, sample_position, Painter,
};
use crate::painter::rect::{visible_h_spec, visible_w_spec};
use crate::pixel::{blend_channel_spec, blend_linear};
use crate::random::{
    color_byte_spec, derived_seed_spec, get_random_color, get_random_entry_weighted,
    get_random_ranges_bias_weighted, get_random_size_ranges_bias_weighted, get_rng, ranges_valid,
    size_ranges_valid, weighted_range_bias_draw, weighted_size_bias_draw, weighted_state_index,
    BIAS_LIMIT,
};
use crate::rng::xorshift_iter_spec;
use crate::units::{SizeUnit, UnitMargins, WeightedValue, UNIT};

verus! {

/// Configuration of the circle painter. Fractions, opacities and weights
/// are in millionths; biases are integer skew levels. A fractional radius
/// is resolved against the smaller visible dimension.
pub struct Options {
    pub blending_mode: Vec<WeightedValue<BlendingMode>>,
    pub alpha: Vec<WeightedValue<(i64, i64)>>,
    pub alpha_bias: i64,
    pub radius: Vec<WeightedValue<(SizeUnit, SizeUnit)>>,
    pub radius_bias: i64,
    pub anti_alias: bool,
    pub color_seed: i64,
    pub rng_seed: u32,
    pub margins: UnitMargins,
}

/// Paints one random circle per candidate.
pub struct CirclePainter {
    pub options: Options,
}

/// The smaller of the two visible dimensions, which a fractional radius
/// resolves against.
pub open spec fn radius_reference_spec(width: u32, height: u32, rect: crate::units::Rectangle)
    -> u32 {
    let vw = visible_w_spec(width, rect);
    let vh = visible_h_spec(height, rect);
    if vw <= vh {
        vw
    } else {
        vh
    }
}

impl CirclePainter {
    /// A circle painter with neutral defaults: normal blending, full
    /// opacity, radii up to half the canvas, antialiased edges, no color
    /// seeding, no margins.
    pub fn new() -> (r: CirclePainter)
        ensures
            r.options.rng_seed == 0,
    {
        let options = Options {
            blending_mode: vec![
                WeightedValue { value: BlendingMode::Normal, weight: 1_000_000u64 },
            ],
            alpha: vec![WeightedValue { value: (UNIT, UNIT), weight: 1_000_000u64 }],
            alpha_bias: 0,
            radius: vec![
                WeightedValue {
                    value: (SizeUnit::Fraction(0), SizeUnit::Fraction(UNIT / 2)),
                    weight: 1_000_000u64,
                },
            ],
            radius_bias: 0,
            anti_alias: true,
            color_seed: 0,
            rng_seed: 0,
            margins: UnitMargins {
                top: SizeUnit::Pixels(0),
                right: SizeUnit::Pixels(0),
                bottom: SizeUnit::Pixels(0),
                left: SizeUnit::Pixels(0),
            },
        };
        CirclePainter { options }
    }
}

/// The instruction the circle painter derives from its options, a canvas
/// size, an iteration counter and a seed map.
pub open spec fn circle_plan_spec(
    o: Options,
    anti_alias: bool,
    width: u32,
    height: u32,
    iteration: u32,
    seed_map: Canvas,
) -> Result<InstrModel, CandidateError> {
    let u = UNIT as int;
    let rect = draw_rect_spec(width, height, o.margins);
    if rect.width <= 0 || rect.height <= 0 {
        Err(CandidateError::DegenerateArea)
    } else {
        let s0 = derived_seed_spec(o.rng_seed, iteration);
        let dr = weighted_size_bias_draw(
            s0,
            o.radius@,
            o.radius_bias,
            radius_reference_spec(width, height, rect),
        );
        let dx = position_draw_spec(dr.0, rect.x * u + dr.1, (rect.x + rect.width) * u - dr.1);
        let dy = position_draw_spec(dx.0, rect.y * u + dr.1, (rect.y + rect.height) * u - dr.1);
        let rc0 = color_byte_spec(xorshift_iter_spec(dy.0, 1));
        let rc1 = color_byte_spec(xorshift_iter_spec(dy.0, 2));
        let rc2 = color_byte_spec(xorshift_iter_spec(dy.0, 3));
        let s_col = xorshift_iter_spec(dy.0, 3);
        let col0 = blend_channel_spec(
            rc0,
            interpolated_channel_spec(seed_map, dx.1, dy.1, 0),
            o.color_seed as int,
        );
        let col1 = blend_channel_spec(
            rc1,
            interpolated_channel_spec(seed_map, dx.1, dy.1, 1),
            o.color_seed as int,
        );
        let col2 = blend_channel_spec(
            rc2,
            interpolated_channel_spec(seed_map, dx.1, dy.1, 2),
            o.color_seed as int,
        );
        let da = weighted_range_bias_draw(s_col, o.alpha@, o.alpha_bias);
        let dm = weighted_state_index(da.0, o.blending_mode@);
        Ok(
            InstrModel {
                shape: ShapeModel::Circle {
                    cx: dx.1 as i64,
                    cy: dy.1 as i64,
                    radius: dr.1 as i64,
                    anti_alias,
                },
                color: (col0, col1, col2),
                alpha: da.1,
                blending_mode: o.blending_mode@[dm.1].value,
            },
        )
    }
}

impl Painter for CirclePainter {
    open spec fn valid_spec(&self, width: u32, height: u32) -> bool {
        let o = self.options;
        margins_resolve_ok(o.margins, width, height) && -BIAS_LIMIT <= o.radius_bias <= BIAS_LIMIT
            && -BIAS_LIMIT <= o.alpha_bias <= BIAS_LIMIT && 0 <= o.color_seed <= UNIT
            && modes_valid(o.blending_mode@) && ranges_valid(o.alpha@) && {
            let rect = draw_rect_spec(width, height, o.margins);
            rect.width <= 0 || rect.height <= 0 || size_ranges_valid(
                o.radius@,
                radius_reference_spec(width, height, rect),
            )
        }
    }

    open spec fn paint_model_spec(
        &self,
        width: u32,
        height: u32,
        iteration: u32,
        seed_map: Canvas,
    ) -> Result<InstrModel, CandidateError> {
        circle_plan_spec(self.options, self.options.anti_alias, width, height, iteration, seed_map)
    }

    fn is_valid(&self, width: u32, height: u32) -> (r: bool) {
        let o = &self.options;
        if !check_margins(&o.margins, width, height) {
            return false;
        }
        if !(-BIAS_LIMIT <= o.radius_bias && o.radius_bias <= BIAS_LIMIT && -BIAS_LIMIT
            <= o.alpha_bias && o.alpha_bias <= BIAS_LIMIT && 0 <= o.color_seed && o.color_seed
            <= UNIT) {
            return false;
        }
        if !check_modes(&o.blending_mode) {
            return false;
        }
        if !check_ranges(&o.alpha) {
            return false;
        }
        match find_target_draw_rect((width, height), &o.margins) {
            Err(_) => true,
            Ok(rect) => {
                let vis_w: u32 = if rect.width >= (width as i64) {
                    width
                } else {
                    rect.width as u32
                };
                let vis_h: u32 = if rect.height >= (height as i64) {
                    height
                } else {
                    rect.height as u32
                };
                let reference: u32 = if vis_w <= vis_h {
                    vis_w
                } else {
                    vis_h
                };
                check_size_ranges(&o.radius, reference)
            },
        }
    }

    fn paint(&self, canvas: &Canvas, iteration: u32, seed_map: &Canvas) -> (r: Result<
        Canvas,
        CandidateError,
    >) {
        let o = &self.options;
        let width = canvas.width;
        let height = canvas.height;
        let mut rng = get_rng(o.rng_seed, iteration);
        let rect = match find_target_draw_rect((width, height), &o.margins) {
            Err(e) => {
                return Err(e);
            },
            Ok(rect) => rect,
        };
        let vis_w: u32 = if rect.width >= (width as i64) {
            width
        } else {
            rect.width as u32
        };
        let vis_h: u32 = if rect.height >= (height as i64) {
            height
        } else {
            rect.height as u32
        };
        let reference: u32 = if vis_w <= vis_h {
            vis_w
        } else {
            vis_h
        };
        let radius = get_random_size_ranges_bias_weighted(
            &mut rng,
            &o.radius,
            o.radius_bias,
            reference,
        );
        let circle_x = sample_position(
            &mut rng,
            rect.x * UNIT + radius,
            (rect.x + rect.width) * UNIT - radius,
        );
        let circle_y = sample_position(
            &mut rng,
            rect.y * UNIT + radius,
            (rect.y + rect.height) * UNIT - radius,
        );
        let random_color = get_random_color(&mut rng);
        let seed_color = get_pixel_interpolated(seed_map, circle_x, circle_y);
        let color = blend_linear(&random_color, &seed_color, o.color_seed);
        let alpha = get_random_ranges_bias_weighted(&mut rng, &o.alpha, o.alpha_bias);
        let mode = *get_random_entry_weighted(&mut rng, &o.blending_mode);
        let instr = PaintInstruction {
            shape: Shape::Circle {
                cx: circle_x,
                cy: circle_y,
                radius,
                anti_alias: o.anti_alias,
            },
            color: (color[0], color[1], color[2]),
            alpha,
            blending_mode: mode,
        };
        proof {
            let m = circle_plan_spec(
                self.options,
                self.options.anti_alias,
                width,
                height,
                iteration,
                *seed_map,
            );
            assert(m is Ok);
            assert(instr.model() == m->Ok_0);
        }
        Ok(composite(canvas, &instr))
    }
}

} // verus!

//! The stroke painter: rectangles whose edges waver along a noise table,
//! giving an organic painted look.

use vstd::prelude::*;

use crate::canvas::{get_pixel_interpolated, interpolated_channel_spec, Canvas};
use crate::color::BlendingMode;
use crate::error::CandidateError;
use crate::geom::{draw_rect_spec, find_target_draw_rect};
use crate::paint::{composite, InstrModel, PaintInstruction, Shape, ShapeModel};
use crate::painter::rect::{visible_h_spec, visible_w_spec};
use crate::painter::{
    check_margins, check_ranges, check_size_ranges, clamp_round, clamp_round_spec,
    lemma_clamp_round_monotone, margins_resolve_ok, position_draw_spec, sample_position, Painter,
};
use crate::pixel::{blend_channel_spec, blend_linear};
use crate::random::{
    color_byte_spec, derived_seed_spec, get_random_color, get_random_noise_sequence,
    get_random_ranges_bias_weighted, get_random_size_ranges_bias_weighted, get_rng,
    noise_entry_spec, ranges_valid, size_ranges_valid, weighted_range_bias_draw,
    weighted_size_bias_draw, BIAS_LIMIT,
};
use crate::rng::xorshift_iter_spec;
use crate::units::{SizeUnit, UnitMargins, WeightedValue, UNIT};

verus! {

/// Configuration of the stroke painter. Fractions, opacities and weights
/// are in millionths; biases are integer skew levels. Wave heights resolve
/// against the visible width, wave lengths against the visible height.
pub struct Options {
    pub alpha: Vec<WeightedValue<(i64, i64)>>,
    pub alpha_bias: i64,
    pub width: Vec<WeightedValue<(SizeUnit, SizeUnit)>>,
    pub height: Vec<WeightedValue<(SizeUnit, SizeUnit)>>,
    pub width_bias: i64,
    pub height_bias: i64,
    pub wave_height: Vec<WeightedValue<(SizeUnit, SizeUnit)>>,
    pub wave_height_bias: i64,
    pub wave_length: Vec<WeightedValue<(SizeUnit, SizeUnit)>>,
    pub wave_length_bias: i64,
    pub anti_alias: bool,
    pub color_seed: i64,
    pub rng_seed: u32,
    pub margins: UnitMargins,
}

/// Paints one random wavy stroke per candidate.
pub struct StrokePainter {
    pub options: Options,
}

impl StrokePainter {
    /// A stroke painter with neutral defaults: full opacity, any size
    /// within the canvas, gentle waves, antialiased edges, no color
    /// seeding, no margins.
    pub fn new() -> (r: StrokePainter)
        ensures
            r.options.rng_seed == 0,
    {
        let options = Options {
            alpha: vec![WeightedValue { value: (UNIT, UNIT), weight: 1_000_000u64 }],
            alpha_bias: 0,
            width: vec![
                WeightedValue {
                    value: (SizeUnit::Fraction(0), SizeUnit::Fraction(UNIT)),
                    weight: 1_000_000u64,
                },
            ],
            width_bias: 0,
            height: vec![
                WeightedValue {
                    value: (SizeUnit::Fraction(0), SizeUnit::Fraction(UNIT)),
                    weight: 1_000_000u64,
                },
            ],
            height_bias: 0,
            wave_height: vec![
                WeightedValue {
                    value: (SizeUnit::Fraction(UNIT / 100), SizeUnit::Fraction(UNIT / 100)),
                    weight: 1_000_000u64,
                },
            ],
            wave_height_bias: 0,
            wave_length: vec![
                WeightedValue {
                    value: (SizeUnit::Fraction(UNIT / 2), SizeUnit::Fraction(UNIT / 2)),
                    weight: 1_000_000u64,
                },
            ],
            wave_length_bias: 0,
            anti_alias: true,
            color_seed: 0,
            rng_seed: 0,
            margins: UnitMargins {
                top: SizeUnit::Pixels(0),
                right: SizeUnit::Pixels(0),
                bottom: SizeUnit::Pixels(0),
                left: SizeUnit::Pixels(0),
            },
        };
        StrokePainter { options }
    }
}

/// The instruction the stroke painter derives from its options, a canvas
/// size, an iteration counter and a seed map.
pub open spec fn stroke_plan_spec(
    o: Options,
    anti_alias: bool,
    width: u32,
    height: u32,
    iteration: u32,
    seed_map: Canvas,
) -> Result<InstrModel, CandidateError> {
    let u = UNIT as int;
    let rect = draw_rect_spec(width, height, o.margins);
    if rect.width <= 0 || rect.height <= 0 {
        Err(CandidateError::DegenerateArea)
    } else {
        let s0 = derived_seed_spec(o.rng_seed, iteration);
        let dw = weighted_size_bias_draw(s0, o.width@, o.width_bias, visible_w_spec(width, rect));
        let dh = weighted_size_bias_draw(
            dw.0,
            o.height@,
            o.height_bias,
            visible_h_spec(height, rect),
        );
        let dx = position_draw_spec(dh.0, rect.x * u, (rect.x + rect.width) * u - dw.1);
        let dy = position_draw_spec(dx.0, rect.y * u, (rect.y + rect.height) * u - dh.1);
        let x1 = clamp_round_spec(dx.1, width);
        let x2 = clamp_round_spec(dx.1 + dw.1, width);
        let y1 = clamp_round_spec(dy.1, height);
        let y2 = clamp_round_spec(dy.1 + dh.1, height);
        let rc0 = color_byte_spec(xorshift_iter_spec(dy.0, 1));
        let rc1 = color_byte_spec(xorshift_iter_spec(dy.0, 2));
        let rc2 = color_byte_spec(xorshift_iter_spec(dy.0, 3));
        let s_col = xorshift_iter_spec(dy.0, 3);
        let cx = ((x1 + x2) * u) / 2;
        let cy = ((y1 + y2) * u) / 2;
        let col0 = blend_channel_spec(
            rc0,
            interpolated_channel_spec(seed_map, cx, cy, 0),
            o.color_seed as int,
        );
        let col1 = blend_channel_spec(
            rc1,
            interpolated_channel_spec(seed_map, cx, cy, 1),
            o.color_seed as int,
        );
        let col2 = blend_channel_spec(
            rc2,
            interpolated_channel_spec(seed_map, cx, cy, 2),
            o.color_seed as int,
        );
        let da = weighted_range_bias_draw(s_col, o.alpha@, o.alpha_bias);
        let dwh = weighted_size_bias_draw(
            da.0,
            o.wave_height@,
            o.wave_height_bias,
            visible_w_spec(width, rect),
        );
        let dwl = weighted_size_bias_draw(
            dwh.0,
            o.wave_length@,
            o.wave_length_bias,
            visible_h_spec(height, rect),
        );
        let noise = if dwh.1 == 0 || dwl.1 == 0 {
            Seq::<i64>::empty()
        } else {
            Seq::new(
                256,
                |i: int| noise_entry_spec(dwl.0, -(dwh.1 / 2), dwh.1 / 2, i) as i64,
            )
        };
        Ok(
            InstrModel {
                shape: ShapeModel::Stroke {
                    x1,
                    y1,
                    x2,
                    y2,
                    wave_height: dwh.1 as i64,
                    wave_length: dwl.1 as i64,
                    noise,
                    anti_alias,
                },
                color: (col0, col1, col2),
                alpha: da.1,
                blending_mode: BlendingMode::Normal,
            },
        )
    }
}

impl Painter for StrokePainter {
    open spec fn valid_spec(&self, width: u32, height: u32) -> bool {
        let o = self.options;
        margins_resolve_ok(o.margins, width, height) && -BIAS_LIMIT <= o.width_bias <= BIAS_LIMIT
            && -BIAS_LIMIT <= o.height_bias <= BIAS_LIMIT && -BIAS_LIMIT <= o.alpha_bias
            <= BIAS_LIMIT && -BIAS_LIMIT <= o.wave_height_bias <= BIAS_LIMIT && -BIAS_LIMIT
            <= o.wave_length_bias <= BIAS_LIMIT && 0 <= o.color_seed <= UNIT && ranges_valid(
            o.alpha@,
        ) && {
            let rect = draw_rect_spec(width, height, o.margins);
            rect.width <= 0 || rect.height <= 0 || (size_ranges_valid(
                o.width@,
                visible_w_spec(width, rect),
            ) && size_ranges_valid(o.height@, visible_h_spec(height, rect)) && size_ranges_valid(
                o.wave_height@,
                visible_w_spec(width, rect),
            ) && size_ranges_valid(o.wave_length@, visible_h_spec(height, rect)))
        }
    }

    open spec fn paint_model_spec(
        &self,
        width: u32,
        height: u32,
        iteration: u32,
        seed_map: Canvas,
    ) -> Result<InstrModel, CandidateError> {
        stroke_plan_spec(self.options, self.options.anti_alias, width, height, iteration, seed_map)
    }

    fn is_valid(&self, width: u32, height: u32) -> (r: bool) {
        let o = &self.options;
        if !check_margins(&o.margins, width, height) {
            return false;
        }
        if !(-BIAS_LIMIT <= o.width_bias && o.width_bias <= BIAS_LIMIT && -BIAS_LIMIT
            <= o.height_bias && o.height_bias <= BIAS_LIMIT && -BIAS_LIMIT <= o.alpha_bias
            && o.alpha_bias <= BIAS_LIMIT && -BIAS_LIMIT <= o.wave_height_bias
            && o.wave_height_bias <= BIAS_LIMIT && -BIAS_LIMIT <= o.wave_length_bias
            && o.wave_length_bias <= BIAS_LIMIT && 0 <= o.color_seed && o.color_seed <= UNIT) {
            return false;
        }
        if !check_ranges(&o.alpha) {
            return false;
        }
        match find_target_draw_rect((width, height), &o.margins) {
            Err(_) => true,
            Ok(rect) => {
                let vis_w: u32 = if rect.width >= (width as i64) {
                    width
                } else {
                    rect.width as u32
                };
                let vis_h: u32 = if rect.height >= (height as i64) {
                    height
                } else {
                    rect.height as u32
                };
                check_size_ranges(&o.width, vis_w) && check_size_ranges(&o.height, vis_h)
                    && check_size_ranges(&o.wave_height, vis_w) && check_size_ranges(
                    &o.wave_length,
                    vis_h,
                )
            },
        }
    }

    fn paint(&self, canvas: &Canvas, iteration: u32, seed_map: &Canvas) -> (r: Result<
        Canvas,
        CandidateError,
    >) {
        let o = &self.options;
        let width = canvas.width;
        let height = canvas.height;
        let mut rng = get_rng(o.rng_seed, iteration);
        let rect = match find_target_draw_rect((width, height), &o.margins) {
            Err(e) => {
                return Err(e);
            },
            Ok(rect) => rect,
        };
        let vis_w: u32 = if rect.width >= (width as i64) {
            width
        } else {
            rect.width as u32
        };
        let vis_h: u32 = if rect.height >= (height as i64) {
            height
        } else {
            rect.height as u32
        };
        let rect_w = get_random_size_ranges_bias_weighted(&mut rng, &o.width, o.width_bias, vis_w);
        let rect_h = get_random_size_ranges_bias_weighted(
            &mut rng,
            &o.height,
            o.height_bias,
            vis_h,
        );
        let rect_x = sample_position(
            &mut rng,
            rect.x * UNIT,
            (rect.x + rect.width) * UNIT - rect_w,
        );
        let rect_y = sample_position(
            &mut rng,
            rect.y * UNIT,
            (rect.y + rect.height) * UNIT - rect_h,
        );
        let x1 = clamp_round(rect_x, width);
        let x2 = clamp_round(rect_x + rect_w, width);
        let y1 = clamp_round(rect_y, height);
        let y2 = clamp_round(rect_y + rect_h, height);
        proof {
            lemma_clamp_round_monotone(rect_x as int, rect_x as int + rect_w as int, width);
            lemma_clamp_round_monotone(rect_y as int, rect_y as int + rect_h as int, height);
        }
        let random_color = get_random_color(&mut rng);
        let cx = (((x1 + x2) as i64) * UNIT) / 2;
        let cy = (((y1 + y2) as i64) * UNIT) / 2;
        let seed_color = get_pixel_interpolated(seed_map, cx, cy);
        let color = blend_linear(&random_color, &seed_color, o.color_seed);
        let alpha = get_random_ranges_bias_weighted(&mut rng, &o.alpha, o.alpha_bias);
        let wave_height = get_random_size_ranges_bias_weighted(
            &mut rng,
            &o.wave_height,
            o.wave_height_bias,
            vis_w,
        );
        let wave_length = get_random_size_ranges_bias_weighted(
            &mut rng,
            &o.wave_length,
            o.wave_length_bias,
            vis_h,
        );
        let noise: Vec<i64> = if wave_height == 0 || wave_length == 0 {
            Vec::new()
        } else {
            let wave_margin = wave_height / 2;
            get_random_noise_sequence(&mut rng, -wave_margin, wave_margin)
        };
        let instr = PaintInstruction {
            shape: Shape::Stroke {
                x1,
                y1,
                x2,
                y2,
                wave_height,
                wave_length,
                noise,
                anti_alias: o.anti_alias,
            },
            color: (color[0], color[1], color[2]),
            alpha,
            blending_mode: BlendingMode::Normal,
        };
        proof {
            let m = stroke_plan_spec(
                self.options,
                self.options.anti_alias,
                width,
                height,
                iteration,
                *seed_map,
            );
            assert(m is Ok);
            let im = m->Ok_0;
            let ish = instr.shape.model();
            match (ish, im.shape) {
                (
                    ShapeModel::Stroke { noise: nv, .. },
                    ShapeModel::Stroke { noise: ns, .. },
                ) => {
                    assert(nv =~= ns);
                },
                _ => {},
            }
            assert(instr.model() == im);
        }
        Ok(composite(canvas, &instr))
    }
}

} // verus!

//! Paint instructions and the compositor that renders them onto a canvas.
//!
//! A paint instruction is a fully resolved, immutable description of one
//! candidate mutation: a shape, a color, an opacity and a blending mode.
//! The compositor is a pure function from a canvas and an instruction to a
//! new canvas; every pixel of the result is pinned by its contract.

use vstd::prelude::*;

use crate::canvas::{lemma_pixel_index_bound, rgb_channel_at, Canvas, CanvasModel};
use crate::color::BlendingMode;
use crate::pixel::{blend, blend_mode_channel_spec};
use crate::random::{noise_sample_spec, NOISE_LIMIT};
use crate::units::{MAX_DIMENSION, UNIT};

verus! {

/// Largest magnitude of a shape coordinate or radius, in millionths of a
/// pixel.
pub const SHAPE_LIMIT: i64 = 100_000_000_000_000_000;

/// The integer square root: the unique `r` with `r * r <= n < (r+1) * (r+1)`.
pub open spec fn isqrt_spec(n: nat) -> nat
    decreases n,
{
    if n == 0 {
        0
    } else {
        let r = isqrt_spec((n - 1) as nat);
        if (r + 1) * (r + 1) <= n {
            (r + 1) as nat
        } else {
            r
        }
    }
}

/// The integer square root brackets its argument.
pub proof fn lemma_isqrt_bounds(n: nat)
    ensures
        isqrt_spec(n) * isqrt_spec(n) <= n,
        n < (isqrt_spec(n) + 1) * (isqrt_spec(n) + 1),
    decreases n,
{
    if n > 0 {
        lemma_isqrt_bounds((n - 1) as nat);
        let p = isqrt_spec((n - 1) as nat);
        assert(p * p <= n - 1);
        assert(n - 1 < (p + 1) * (p + 1));
        if (p + 1) * (p + 1) <= n {
            assert(isqrt_spec(n) == (p + 1) as nat);
            assert((p + 1 + 1) * (p + 1 + 1) > (p + 1) * (p + 1)) by (nonlinear_arith);
            assert(n < (p + 1 + 1) * (p + 1 + 1));
        } else {
            assert(isqrt_spec(n) == p);
        }
    } else {
        assert(isqrt_spec(0) == 0);
        assert((0 + 1) * (0 + 1) == 1) by (nonlinear_arith);
    }
}

/// Any bracketing root is the integer square root.
pub proof fn lemma_isqrt_unique(n: nat, r: nat)
    requires
        r * r <= n,
        n < (r + 1) * (r + 1),
    ensures
        r == isqrt_spec(n),
{
    lemma_isqrt_bounds(n);
    let s = isqrt_spec(n);
    if r < s {
        assert((r + 1) * (r + 1) <= s * s) by (nonlinear_arith)
            requires
                r + 1 <= s,
        ;
    }
    if r > s {
        assert((s + 1) * (s + 1) <= r * r) by (nonlinear_arith)
            requires
                s + 1 <= r,
        ;
    }
}

/// The integer square root, by bisection.
pub fn isqrt(n: u128) -> (r: u128)
    ensures
        r == isqrt_spec(n as nat),
{
    if n == 0 {
        proof {
            assert((0 as nat) * (0 as nat) == 0 && ((0 as nat) + 1) * ((0 as nat) + 1) == 1)
                by (nonlinear_arith);
            lemma_isqrt_unique(0, 0);
        }
        return 0;
    }
    let mut lo: u128 = 0;
    let mut hi: u128 = 0x1_0000_0000_0000_0000;
    proof {
        assert((0x1_0000_0000_0000_0000u128 as int) * (0x1_0000_0000_0000_0000u128 as int) > n)
            by (nonlinear_arith)
            requires
                n <= u128::MAX,
        ;
    }
    while lo + 1 < hi
        invariant
            lo < hi,
            hi <= 0x1_0000_0000_0000_0000,
            (lo as int) * (lo as int) <= n,
            n < (hi as int) * (hi as int),
        decreases hi - lo,
    {
        let mid = lo + (hi - lo) / 2;
        proof {
            assert((mid as int) * (mid as int) <= (0xffff_ffff_ffff_ffffu128 as int) * (
            0xffff_ffff_ffff_ffffu128 as int)) by (nonlinear_arith)
                requires
                    0 <= mid <= 0xffff_ffff_ffff_ffffu128,
            ;
        }
        if mid * mid <= n {
            lo = mid;
        } else {
            hi = mid;
        }
    }
    proof {
        lemma_isqrt_unique(n as nat, lo as nat);
    }
    lo
}

/// A ramp over one edge: fully inside past half a pixel, fully outside
/// before minus half a pixel, linear in between.
pub open spec fn edge_ramp_spec(off: int) -> int {
    if off > (UNIT as int) / 2 {
        UNIT as int
    } else if off < -(UNIT as int) / 2 {
        0
    } else {
        off + (UNIT as int) / 2
    }
}

fn edge_ramp(off: i64) -> (r: i64)
    requires
        -0x4000_0000_0000_0000 < off < 0x4000_0000_0000_0000,
    ensures
        r == edge_ramp_spec(off as int),
        0 <= r <= UNIT,
{
    if off > UNIT / 2 {
        UNIT
    } else if off < -(UNIT / 2) {
        0
    } else {
        off + UNIT / 2
    }
}

/// The spec-level view of a shape: the same data with the noise table as a
/// mathematical sequence.
pub enum ShapeModel {
    Rect { x1: u32, y1: u32, x2: u32, y2: u32 },
    Circle { cx: i64, cy: i64, radius: i64, anti_alias: bool },
    Stroke {
        x1: u32,
        y1: u32,
        x2: u32,
        y2: u32,
        wave_height: i64,
        wave_length: i64,
        noise: Seq<i64>,
        anti_alias: bool,
    },
}

/// The geometry of one paint instruction. Fractional values are in
/// millionths of a pixel.
pub enum Shape {
    /// An axis-aligned rectangle covering pixels `x1..x2` by `y1..y2`.
    Rect { x1: u32, y1: u32, x2: u32, y2: u32 },
    /// A circle around `(cx, cy)`, optionally antialiased over the last
    /// pixel of its radius.
    Circle { cx: i64, cy: i64, radius: i64, anti_alias: bool },
    /// A rectangle whose edges are perturbed by a noise table, producing a
    /// wavy painted stroke.
    Stroke {
        x1: u32,
        y1: u32,
        x2: u32,
        y2: u32,
        wave_height: i64,
        wave_length: i64,
        noise: Vec<i64>,
        anti_alias: bool,
    },
}

impl Shape {
    /// The spec-level view of the shape.
    pub open spec fn model(self) -> ShapeModel {
        match self {
            Shape::Rect { x1, y1, x2, y2 } => ShapeModel::Rect { x1, y1, x2, y2 },
            Shape::Circle { cx, cy, radius, anti_alias } => ShapeModel::Circle {
                cx,
                cy,
                radius,
                anti_alias,
            },
            Shape::Stroke { x1, y1, x2, y2, wave_height, wave_length, noise, anti_alias } => {
                ShapeModel::Stroke {
                    x1,
                    y1,
                    x2,
                    y2,
                    wave_height,
                    wave_length,
                    noise: noise@,
                    anti_alias,
                }
            },
        }
    }
}

impl ShapeModel {
    /// All the shape's values are within the ranges the coverage
    /// arithmetic needs.
    pub open spec fn limits_ok(self) -> bool {
        match self {
            ShapeModel::Rect { .. } => true,
            ShapeModel::Circle { cx, cy, radius, .. } => -SHAPE_LIMIT <= cx <= SHAPE_LIMIT
                && -SHAPE_LIMIT <= cy <= SHAPE_LIMIT && 0 <= radius <= SHAPE_LIMIT,
            ShapeModel::Stroke { wave_height, wave_length, noise, .. } => 0 <= wave_height
                <= NOISE_LIMIT && 0 <= wave_length <= NOISE_LIMIT && (wave_height == 0
                || wave_length == 0 || (noise.len() == 256 && (forall|i: int|
                0 <= i < 256 ==> -NOISE_LIMIT <= #[trigger] noise[i] <= NOISE_LIMIT))),
        }
    }

    /// The shape fits the given canvas and all its values are within the
    /// ranges the coverage arithmetic needs.
    pub open spec fn valid_for(self, width: u32, height: u32) -> bool {
        width <= MAX_DIMENSION && height <= MAX_DIMENSION && self.limits_ok() && match self {
            ShapeModel::Rect { x1, y1, x2, y2 } => x1 <= x2 <= width && y1 <= y2 <= height,
            ShapeModel::Circle { .. } => true,
            ShapeModel::Stroke { x1, y1, x2, y2, .. } => x1 <= x2 <= width && y1 <= y2 <= height,
        }
    }

    /// How much of the pixel at `(x, y)` the shape covers, in millionths.
    pub open spec fn coverage_spec(self, x: int, y: int) -> int {
        let u = UNIT as int;
        match self {
            ShapeModel::Rect { x1, y1, x2, y2 } => {
                if x1 <= x < x2 && y1 <= y < y2 {
                    u
                } else {
                    0
                }
            },
            ShapeModel::Circle { cx, cy, radius, anti_alias } => {
                let dx = x * u - cx;
                let dy = y * u - cy;
                let dist = isqrt_spec((dx * dx + dy * dy) as nat) as int;
                if dist > radius {
                    0
                } else {
                    let edge = radius - dist;
                    if edge > u {
                        u
                    } else if anti_alias {
                        edge
                    } else if edge >= u / 2 {
                        u
                    } else {
                        0
                    }
                }
            },
            ShapeModel::Stroke { x1, y1, x2, y2, wave_height, wave_length, noise, anti_alias } => {
                if wave_height == 0 || wave_length == 0 {
                    if x1 <= x < x2 && y1 <= y < y2 {
                        u
                    } else {
                        0
                    }
                } else {
                    let mc = ((wave_height / 2) + u - 1) / u;
                    let alpha_x = if x1 + mc <= x && x < x2 - mc {
                        u
                    } else {
                        let nx = noise_sample_spec(noise, y * 1_000_000_000_000 / (wave_length as int));
                        let a1 = edge_ramp_spec(x * u - (x1 * u + nx));
                        let a2 = edge_ramp_spec((x2 * u + nx) - x * u);
                        a1 * a2 / u
                    };
                    let alpha_y = if y1 + mc <= y && y < y2 - mc {
                        u
                    } else {
                        let ny = noise_sample_spec(noise, x * 1_000_000_000_000 / (wave_length as int));
                        let a1 = edge_ramp_spec(y * u - (y1 * u + ny));
                        let a2 = edge_ramp_spec((y2 * u + ny) - y * u);
                        a1 * a2 / u
                    };
                    let a = alpha_x * alpha_y / u;
                    if anti_alias {
                        a
                    } else if a >= u / 2 {
                        u
                    } else {
                        0
                    }
                }
            },
        }
    }
}

/// How much of the pixel at `(x, y)` the shape covers, in millionths.
pub fn coverage(shape: &Shape, x: u32, y: u32) -> (r: i64)
    requires
        shape.model().limits_ok(),
        x <= MAX_DIMENSION,
        y <= MAX_DIMENSION,
    ensures
        r == shape.model().coverage_spec(x as int, y as int),
        0 <= r <= UNIT,
{
    match shape {
        Shape::Rect { x1, y1, x2, y2 } => {
            if *x1 <= x && x < *x2 && *y1 <= y && y < *y2 {
                UNIT
            } else {
                0
            }
        },
        Shape::Circle { cx, cy, radius, anti_alias } => {
            let dx: i64 = (x as i64) * UNIT - *cx;
            let dy: i64 = (y as i64) * UNIT - *cy;
            proof {
                assert(-2 * (SHAPE_LIMIT as int) <= dx as int <= 2 * (SHAPE_LIMIT as int));
                assert(-2 * (SHAPE_LIMIT as int) <= dy as int <= 2 * (SHAPE_LIMIT as int));
                assert(0 <= (dx as int) * (dx as int) <= (2 * SHAPE_LIMIT as int) * (2
                    * SHAPE_LIMIT as int)) by (nonlinear_arith)
                    requires
                        -2 * SHAPE_LIMIT as int <= dx as int <= 2 * SHAPE_LIMIT as int,
                ;
                assert(0 <= (dy as int) * (dy as int) <= (2 * SHAPE_LIMIT as int) * (2
                    * SHAPE_LIMIT as int)) by (nonlinear_arith)
                    requires
                        -2 * SHAPE_LIMIT as int <= dy as int <= 2 * SHAPE_LIMIT as int,
                ;
            }
            let d2: u128 = ((dx as i128) * (dx as i128) + (dy as i128) * (dy as i128)) as u128;
            let dist128 = isqrt(d2);
            proof {
                lemma_isqrt_bounds(d2 as nat);
                assert(isqrt_spec(d2 as nat) * isqrt_spec(d2 as nat) <= d2);
                assert(isqrt_spec(d2 as nat) < 0x1_0000_0000_0000_0000) by (nonlinear_arith)
                    requires
                        isqrt_spec(d2 as nat) * isqrt_spec(d2 as nat) <= d2,
                        d2 <= u128::MAX,
                ;
            }
            let dist: i64 = if dist128 > (SHAPE_LIMIT as u128) {
                SHAPE_LIMIT + 1
            } else {
                dist128 as i64
            };
            proof {
                if dist128 > (SHAPE_LIMIT as u128) {
                    assert(isqrt_spec(d2 as nat) > *radius);
                }
            }
            if dist > *radius {
                0
            } else {
                let edge = *radius - dist;
                if edge > UNIT {
                    UNIT
                } else if *anti_alias {
                    edge
                } else if edge >= UNIT / 2 {
                    UNIT
                } else {
                    0
                }
            }
        },
        Shape::Stroke { x1, y1, x2, y2, wave_height, wave_length, noise, anti_alias } => {
            if *wave_height == 0 || *wave_length == 0 {
                if *x1 <= x && x < *x2 && *y1 <= y && y < *y2 {
                    UNIT
                } else {
                    0
                }
            } else {
                let mc: i64 = ((*wave_height / 2) + UNIT - 1) / UNIT;
                let xi = x as i64;
                let yi = y as i64;
                let alpha_x: i64 = if (*x1 as i64) + mc <= xi && xi < (*x2 as i64) - mc {
                    UNIT
                } else {
                    let nx = crate::random::get_noise_value(
                        noise,
                        yi * 1_000_000_000_000 / *wave_length,
                    );
                    let a1 = edge_ramp(xi * UNIT - ((*x1 as i64) * UNIT + nx));
                    let a2 = edge_ramp(((*x2 as i64) * UNIT + nx) - xi * UNIT);
                    proof {
                        assert(0 <= (a1 as int) * (a2 as int) / (UNIT as int) <= UNIT as int)
                            by (nonlinear_arith)
                            requires
                                0 <= a1 <= UNIT,
                                0 <= a2 <= UNIT,
                                UNIT == 1_000_000,
                        ;
                    }
                    a1 * a2 / UNIT
                };
                let alpha_y: i64 = if (*y1 as i64) + mc <= yi && yi < (*y2 as i64) - mc {
                    UNIT
                } else {
                    let ny = crate::random::get_noise_value(
                        noise,
                        xi * 1_000_000_000_000 / *wave_length,
                    );
                    let a1 = edge_ramp(yi * UNIT - ((*y1 as i64) * UNIT + ny));
                    let a2 = edge_ramp(((*y2 as i64) * UNIT + ny) - yi * UNIT);
                    proof {
                        assert(0 <= (a1 as int) * (a2 as int) / (UNIT as int) <= UNIT as int)
                            by (nonlinear_arith)
                            requires
                                0 <= a1 <= UNIT,
                                0 <= a2 <= UNIT,
                                UNIT == 1_000_000,
                        ;
                    }
                    a1 * a2 / UNIT
                };
                proof {
                    assert(0 <= (alpha_x as int) * (alpha_y as int) / (UNIT as int) <= UNIT as int)
                        by (nonlinear_arith)
                        requires
                            0 <= alpha_x <= UNIT,
                            0 <= alpha_y <= UNIT,
                            UNIT == 1_000_000,
                    ;
                }
                let a = alpha_x * alpha_y / UNIT;
                if *anti_alias {
                    a
                } else if a >= UNIT / 2 {
                    UNIT
                } else {
                    0
                }
            }
        },
    }
}

/// One fully resolved candidate mutation: what to paint, in which color,
/// how opaque, and how to combine it with the canvas.
pub struct PaintInstruction {
    pub shape: Shape,
    pub color: (u8, u8, u8),
    pub alpha: i64,
    pub blending_mode: BlendingMode,
}

/// The spec-level view of a paint instruction.
pub struct InstrModel {
    pub shape: ShapeModel,
    pub color: (u8, u8, u8),
    pub alpha: int,
    pub blending_mode: BlendingMode,
}

impl PaintInstruction {
    /// The spec-level view of the instruction.
    pub open spec fn model(self) -> InstrModel {
        InstrModel {
            shape: self.shape.model(),
            color: self.color,
            alpha: self.alpha as int,
            blending_mode: self.blending_mode,
        }
    }
}

impl InstrModel {
    /// The instruction fits the given canvas.
    pub open spec fn valid_for(self, width: u32, height: u32) -> bool {
        self.shape.valid_for(width, height) && 0 <= self.alpha <= UNIT
    }
}

/// Channel `c` of an instruction's color.
pub open spec fn color_channel_spec(color: (u8, u8, u8), c: int) -> u8 {
    if c == 0 {
        color.0
    } else if c == 1 {
        color.1
    } else {
        color.2
    }
}

/// Channel `c` of the pixel at `(x, y)` after the instruction is rendered
/// over `base`: the instruction's color blended over the base pixel through
/// the blending mode, at the instruction's opacity scaled by the shape's
/// coverage of the pixel.
pub open spec fn composite_channel_spec(
    base: CanvasModel,
    instr: InstrModel,
    x: int,
    y: int,
    c: int,
) -> u8 {
    let cov = instr.shape.coverage_spec(x, y);
    let op = instr.alpha * cov / (UNIT as int);
    blend_mode_channel_spec(
        instr.blending_mode,
        base.channel_spec(x, y, c),
        color_channel_spec(instr.color, c),
        op,
    )
}

/// The whole canvas produced by rendering an instruction over a base
/// canvas: every byte is one blended channel.
pub open spec fn composite_model_spec(base: CanvasModel, instr: InstrModel) -> CanvasModel {
    let w = base.width as int;
    CanvasModel {
        width: base.width,
        height: base.height,
        data: Seq::new(
            base.data.len(),
            |j: int| composite_channel_spec(base, instr, (j / 3) % w, (j / 3) / w, j % 3),
        ),
    }
}

/// Render the instruction over a copy of `base`: every pixel of the result
/// is the base pixel blended with the instruction's color at the shape's
/// coverage.
pub fn composite(base: &Canvas, instr: &PaintInstruction) -> (r: Canvas)
    requires
        base.well_formed(),
        instr.model().valid_for(base.width, base.height),
    ensures
        r.well_formed(),
        r.width == base.width,
        r.height == base.height,
        forall|x: int, y: int, c: int|
            0 <= x < base.width && 0 <= y < base.height && 0 <= c < 3 ==> r.channel_spec(x, y, c)
                == composite_channel_spec(base.model(), instr.model(), x, y, c),
        r.model() == composite_model_spec(base.model(), instr.model()),
{
    let w = base.width;
    let h = base.height;
    proof {
        assert(0 <= (w as int) * (h as int) <= (MAX_DIMENSION as int) * (MAX_DIMENSION as int))
            by (nonlinear_arith)
            requires
                0 <= w <= MAX_DIMENSION,
                0 <= h <= MAX_DIMENSION,
        ;
    }
    let pixels: usize = (w as usize) * (h as usize);
    proof {
        assert(w > 0 || (w as int) * (h as int) == 0) by (nonlinear_arith);
    }
    let mut data: Vec<u8> = Vec::new();
    let mut p: usize = 0;
    while p < pixels
        invariant
            base.well_formed(),
            instr.model().valid_for(base.width, base.height),
            w == base.width,
            h == base.height,
            w > 0 || pixels == 0,
            pixels == (w as int) * (h as int),
            pixels <= (MAX_DIMENSION as int) * (MAX_DIMENSION as int),
            0 <= p <= pixels,
            data@.len() == 3 * p,
            forall|q: int, c: int|
                0 <= q < p && 0 <= c < 3 ==> #[trigger] rgb_channel_at(data@, q, c)
                    == composite_channel_spec(
                    base.model(),
                    instr.model(),
                    q % (w as int),
                    q / (w as int),
                    c,
                ),
        decreases pixels - p,
    {
        proof {
            assert(w > 0 && h > 0) by (nonlinear_arith)
                requires
                    pixels == (w as int) * (h as int),
                    p < pixels,
                    w >= 0,
                    h >= 0,
            ;
            assert(0 <= (p as int) % (w as int) < w && 0 <= (p as int) / (w as int) < h)
                by (nonlinear_arith)
                requires
                    0 <= p < (w as int) * (h as int),
                    w > 0,
                    h > 0,
            ;
        }
        let x: u32 = (p % (w as usize)) as u32;
        let y: u32 = (p / (w as usize)) as u32;
        let cov = coverage(&instr.shape, x, y);
        proof {
            assert(0 <= (instr.alpha as int) * (cov as int) / (UNIT as int) <= UNIT as int)
                by (nonlinear_arith)
                requires
                    0 <= instr.alpha <= UNIT,
                    0 <= cov <= UNIT,
                    UNIT == 1_000_000,
            ;
        }
        let op: i64 = instr.alpha * cov / UNIT;
        let bottom = base.get_pixel(x, y);
        let top: [u8; 3] = [instr.color.0, instr.color.1, instr.color.2];
        let px = blend(&bottom, &top, op, &instr.blending_mode);
        let ghost prev = data@;
        data.push(px[0]);
        data.push(px[1]);
        data.push(px[2]);
        p = p + 1;
        proof {
            assert forall|q: int, c: int|
                0 <= q < p && 0 <= c < 3 implies #[trigger] rgb_channel_at(data@, q, c)
                == composite_channel_spec(base.model(), instr.model(), q % (w as int), q / (w as int), c)
                by {
                if q < p - 1 {
                    assert(3 * q + c < prev.len());
                    assert(data@[3 * q + c] == prev[3 * q + c]);
                    assert(rgb_channel_at(prev, q, c) == composite_channel_spec(
                        base.model(),
                        instr.model(),
                        q % (w as int),
                        q / (w as int),
                        c,
                    ));
                } else {
                    assert(3 * q + c == prev.len() as int + c);
                    assert(data@[prev.len() as int + c] == px@[c]);
                }
            }
        }
    }
    let r = Canvas { width: w, height: h, data };
    proof {
        assert forall|x: int, y: int, c: int|
            0 <= x < base.width && 0 <= y < base.height && 0 <= c < 3 implies r.channel_spec(
            x,
            y,
            c,
        ) == composite_channel_spec(base.model(), instr.model(), x, y, c) by {
            lemma_pixel_index_bound(w as int, h as int, x, y);
            let q = y * (w as int) + x;
            assert(q % (w as int) == x && q / (w as int) == y) by (nonlinear_arith)
                requires
                    0 <= x < w as int,
                    0 <= y,
                    q == y * (w as int) + x,
            ;
            assert(rgb_channel_at(r.data@, q, c) == composite_channel_spec(
                base.model(),
                instr.model(),
                x,
                y,
                c,
            ));
        }
        let cm = composite_model_spec(base.model(), instr.model());
        assert forall|j: int| 0 <= j < r.data@.len() implies r.data@[j] == cm.data[j] by {
            let q = j / 3;
            let c = j % 3;
            assert(j == 3 * q + c && 0 <= c < 3 && q >= 0) by (nonlinear_arith)
                requires
                    j >= 0,
                    q == j / 3,
                    c == j % 3,
            ;
            assert(q < pixels) by (nonlinear_arith)
                requires
                    0 <= j < 3 * pixels,
                    q == j / 3,
            ;
            assert(rgb_channel_at(r.data@, q, c) == composite_channel_spec(
                base.model(),
                instr.model(),
                q % (w as int),
                q / (w as int),
                c,
            ));
        }
        assert(r.model().data =~= cm.data);
        assert(r.model() == cm);
    }
    r
}

} // verus!

//! Per-pixel color arithmetic: linear blending and blending modes.
//!
//! Opacities are in millionths; channel math is exact integer arithmetic
//! with round-half-up standing in for continuous channel mixing.

use vstd::prelude::*;

use crate::color::BlendingMode;
use crate::units::UNIT;

verus! {

/// One channel of `top` laid over `bottom` with the given opacity
/// (in millionths), rounded to the nearest level.
pub open spec fn blend_channel_spec(bottom: u8, top: u8, opacity: int) -> u8 {
    (((bottom * ((UNIT as int) - opacity) + top * opacity) + (UNIT as int) / 2) / (
    UNIT as int)) as u8
}

/// A blended channel stays a channel.
pub proof fn lemma_blend_channel_bounds(bottom: u8, top: u8, opacity: int)
    requires
        0 <= opacity <= UNIT as int,
    ensures
        0 <= (bottom * ((UNIT as int) - opacity) + top * opacity + (UNIT as int) / 2) / (
        UNIT as int) <= 255,
{
    let u = UNIT as int;
    assert(0 <= bottom * (u - opacity) <= 255 * (u - opacity)) by (nonlinear_arith)
        requires
            0 <= opacity <= u,
            0 <= bottom <= 255,
    ;
    assert(0 <= top * opacity <= 255 * opacity) by (nonlinear_arith)
        requires
            0 <= opacity <= u,
            0 <= top <= 255,
    ;
}

/// Blend `top` over `bottom` with the given opacity in millionths:
/// zero keeps the bottom pixel, a full unit replaces it with the top pixel,
/// anything between mixes the two channel-wise.
pub fn blend_linear(bottom: &[u8; 3], top: &[u8; 3], opacity: i64) -> (r: [u8; 3])
    requires
        0 <= opacity <= UNIT,
    ensures
        r@[0] == blend_channel_spec(bottom@[0], top@[0], opacity as int),
        r@[1] == blend_channel_spec(bottom@[1], top@[1], opacity as int),
        r@[2] == blend_channel_spec(bottom@[2], top@[2], opacity as int),
{
    [
        blend_channel(bottom[0], top[0], opacity),
        blend_channel(bottom[1], top[1], opacity),
        blend_channel(bottom[2], top[2], opacity),
    ]
}

fn blend_channel(bottom: u8, top: u8, opacity: i64) -> (r: u8)
    requires
        0 <= opacity <= UNIT,
    ensures
        r == blend_channel_spec(bottom, top, opacity as int),
{
    proof {
        lemma_blend_channel_bounds(bottom, top, opacity as int);
    }
    (((bottom as i64) * (UNIT - opacity) + (top as i64) * opacity + UNIT / 2) / UNIT) as u8
}

/// At full opacity a blend returns the top channel exactly: a candidate
/// whose color is fully seeded from the target takes the target's color at
/// its center point, never a random one.
pub proof fn lemma_blend_full_opacity(bottom: u8, top: u8)
    ensures
        blend_channel_spec(bottom, top, UNIT as int) == top,
{
    let u = UNIT as int;
    assert((bottom * (u - u) + top * u + u / 2) / u == top) by (nonlinear_arith)
        requires
            u == 1_000_000,
            0 <= top <= 255,
            0 <= bottom <= 255,
    ;
}

/// At zero opacity a blend keeps the bottom channel exactly.
pub proof fn lemma_blend_zero_opacity(bottom: u8, top: u8)
    ensures
        blend_channel_spec(bottom, top, 0) == bottom,
{
    let u = UNIT as int;
    assert((bottom * (u - 0) + top * 0 + u / 2) / u == bottom) by (nonlinear_arith)
        requires
            u == 1_000_000,
            0 <= top <= 255,
            0 <= bottom <= 255,
    ;
}

/// One channel of the given blending mode applied to a bottom and a top
/// channel, before opacity is taken into account.
pub open spec fn mode_channel_spec(mode: BlendingMode, b: u8, t: u8) -> u8 {
    let bi = b as int;
    let ti = t as int;
    (match mode {
        BlendingMode::Normal => ti,
        BlendingMode::Multiply => bi * ti / 255,
        BlendingMode::Screen => 255 - (255 - bi) * (255 - ti) / 255,
        BlendingMode::Overlay => if bi < 128 {
            2 * bi * ti / 255
        } else {
            255 - 2 * (255 - bi) * (255 - ti) / 255
        },
        BlendingMode::Darken => if bi <= ti {
            bi
        } else {
            ti
        },
        BlendingMode::Lighten => if bi >= ti {
            bi
        } else {
            ti
        },
        BlendingMode::ColorDodge => if ti == 255 {
            255
        } else if 255 * bi / (255 - ti) > 255 {
            255
        } else {
            255 * bi / (255 - ti)
        },
        BlendingMode::ColorBurn => if ti == 0 {
            0
        } else if 255 * (255 - bi) / ti > 255 {
            0
        } else {
            255 - 255 * (255 - bi) / ti
        },
        BlendingMode::HardLight => if ti < 128 {
            2 * bi * ti / 255
        } else {
            255 - 2 * (255 - bi) * (255 - ti) / 255
        },
        BlendingMode::SoftLight => (bi * bi * 255 + 2 * ti * bi * (255 - bi)) / 65025,
        BlendingMode::Difference => if bi >= ti {
            bi - ti
        } else {
            ti - bi
        },
        BlendingMode::Exclusion => bi + ti - 2 * bi * ti / 255,
    }) as u8
}

/// Every mode keeps a channel within range.
pub proof fn lemma_mode_channel_bounds(mode: BlendingMode, b: u8, t: u8)
    ensures
        ({
            let bi = b as int;
            let ti = t as int;
            match mode {
                BlendingMode::Multiply => 0 <= bi * ti / 255 <= 255,
                BlendingMode::Screen => 0 <= (255 - bi) * (255 - ti) / 255 <= 255,
                BlendingMode::Overlay => 0 <= 2 * bi * ti / 255 <= 510 && 0 <= 2 * (255 - bi) * (
                255 - ti) / 255 <= 510,
                BlendingMode::HardLight => 0 <= 2 * bi * ti / 255 <= 510 && 0 <= 2 * (255 - bi) * (
                255 - ti) / 255 <= 510,
                BlendingMode::SoftLight => 0 <= (bi * bi * 255 + 2 * ti * bi * (255 - bi)) / 65025
                    <= 255,
                BlendingMode::Exclusion => 0 <= 2 * bi * ti / 255 <= bi + ti,
                _ => true,
            }
        }),
{
    let bi = b as int;
    let ti = t as int;
    assert(0 <= bi * ti / 255 <= 255) by (nonlinear_arith)
        requires
            0 <= bi <= 255,
            0 <= ti <= 255,
    ;
    assert(0 <= (255 - bi) * (255 - ti) / 255 <= 255) by (nonlinear_arith)
        requires
            0 <= bi <= 255,
            0 <= ti <= 255,
    ;
    assert(0 <= 2 * bi * ti / 255 <= 510) by (nonlinear_arith)
        requires
            0 <= bi <= 255,
            0 <= ti <= 255,
    ;
    assert(0 <= 2 * (255 - bi) * (255 - ti) / 255 <= 510) by (nonlinear_arith)
        requires
            0 <= bi <= 255,
            0 <= ti <= 255,
    ;
    assert(0 <= (bi * bi * 255 + 2 * ti * bi * (255 - bi)) / 65025 <= 255) by (nonlinear_arith)
        requires
            0 <= bi <= 255,
            0 <= ti <= 255,
    ;
    assert(2 * bi * ti / 255 <= bi + ti) by (nonlinear_arith)
        requires
            0 <= bi <= 255,
            0 <= ti <= 255,
    ;
}

fn mode_channel(mode: &BlendingMode, b: u8, t: u8) -> (r: u8)
    ensures
        r == mode_channel_spec(*mode, b, t),
{
    proof {
        lemma_mode_channel_bounds(*mode, b, t);
    }
    let bi = b as i64;
    let ti = t as i64;
    match mode {
        BlendingMode::Normal => t,
        BlendingMode::Multiply => (bi * ti / 255) as u8,
        BlendingMode::Screen => (255 - (255 - bi) * (255 - ti) / 255) as u8,
        BlendingMode::Overlay => {
            if bi < 128 {
                proof {
                    assert(0 <= 2 * bi * ti / 255 <= 255) by (nonlinear_arith)
                        requires
                            0 <= bi < 128,
                            0 <= ti <= 255,
                    ;
                }
                (2 * bi * ti / 255) as u8
            } else {
                proof {
                    assert(0 <= 2 * (255 - bi) * (255 - ti) / 255 <= 255) by (nonlinear_arith)
                        requires
                            128 <= bi <= 255,
                            0 <= ti <= 255,
                    ;
                }
                (255 - 2 * (255 - bi) * (255 - ti) / 255) as u8
            }
        },
        BlendingMode::Darken => if b <= t {
            b
        } else {
            t
        },
        BlendingMode::Lighten => if b >= t {
            b
        } else {
            t
        },
        BlendingMode::ColorDodge => {
            if t == 255 {
                255u8
            } else {
                let v = 255 * bi / (255 - ti);
                if v > 255 {
                    255u8
                } else {
                    v as u8
                }
            }
        },
        BlendingMode::ColorBurn => {
            if t == 0 {
                0u8
            } else {
                let v = 255 * (255 - bi) / ti;
                if v > 255 {
                    0u8
                } else {
                    (255 - v) as u8
                }
            }
        },
        BlendingMode::HardLight => {
            if ti < 128 {
                proof {
                    assert(0 <= 2 * bi * ti / 255 <= 255) by (nonlinear_arith)
                        requires
                            0 <= bi <= 255,
                            0 <= ti < 128,
                    ;
                }
                (2 * bi * ti / 255) as u8
            } else {
                proof {
                    assert(0 <= 2 * (255 - bi) * (255 - ti) / 255 <= 255) by (nonlinear_arith)
                        requires
                            0 <= bi <= 255,
                            128 <= ti <= 255,
                    ;
                }
                (255 - 2 * (255 - bi) * (255 - ti) / 255) as u8
            }
        },
        BlendingMode::SoftLight => {
            proof {
                assert(0 <= bi * bi * 255 + 2 * ti * bi * (255 - bi) <= 255 * 255 * 255 && 0 <= 2
                    * ti * bi <= 2 * 255 * 255 && 0 <= 2 * ti * bi * (255 - bi) <= 2 * 255 * 255
                    * 255 && 0 <= bi * bi * 255 <= 255 * 255 * 255) by (nonlinear_arith)
                    requires
                        0 <= bi <= 255,
                        0 <= ti <= 255,
                ;
            }
            ((bi * bi * 255 + 2 * ti * bi * (255 - bi)) / 65025) as u8
        },
        BlendingMode::Difference => if b >= t {
            b - t
        } else {
            t - b
        },
        BlendingMode::Exclusion => {
            proof {
                assert(0 <= bi + ti - 2 * bi * ti / 255 <= 255) by (nonlinear_arith)
                    requires
                        0 <= bi <= 255,
                        0 <= ti <= 255,
                ;
            }
            (bi + ti - 2 * bi * ti / 255) as u8
        },
    }
}

/// One channel of `top` blended over `bottom` through a mode at the given
/// opacity: the mode combines the two channels and the result is mixed over
/// the bottom channel linearly.
pub open spec fn blend_mode_channel_spec(mode: BlendingMode, b: u8, t: u8, opacity: int) -> u8 {
    blend_channel_spec(b, mode_channel_spec(mode, b, t), opacity)
}

/// Blend `top` over `bottom` through a blending mode at the given opacity in
/// millionths.
pub fn blend(bottom: &[u8; 3], top: &[u8; 3], opacity: i64, mode: &BlendingMode) -> (r: [u8; 3])
    requires
        0 <= opacity <= UNIT,
    ensures
        r@[0] == blend_mode_channel_spec(*mode, bottom@[0], top@[0], opacity as int),
        r@[1] == blend_mode_channel_spec(*mode, bottom@[1], top@[1], opacity as int),
        r@[2] == blend_mode_channel_spec(*mode, bottom@[2], top@[2], opacity as int),
{
    let moded: [u8; 3] = [
        mode_channel(mode, bottom[0], top[0]),
        mode_channel(mode, bottom[1], top[1]),
        mode_channel(mode, bottom[2], top[2]),
    ];
    blend_linear(bottom, &moded, opacity)
}

} // verus!

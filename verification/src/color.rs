//! The color and blend model of the compositor.
//!
//! A channel is a fixed-point integer in thousandths: `COLOR_UNIT` (1000)
//! stands for full intensity, 0 for none.  Blending can leave the nominal
//! range (additive layers stack, subtractive layers dip below zero); every
//! operation clamps into the `i32` range, and quantization for the hardware
//! clamps into `[0, COLOR_UNIT]` before rounding to 8 bits.

use vstd::prelude::*;

use crate::arith::{clamp_to_i32, sat_i32, trunc_div, trunc_div_i64};

verus! {

/// Fixed-point one: the channel value standing for full intensity.
pub const COLOR_UNIT: i32 = 1000;

/// A linear RGB color triple in fixed-point thousandths.
#[derive(Clone, Copy, Debug, PartialEq, Eq, Structural)]
pub struct Color {
    pub red: i32,
    pub green: i32,
    pub blue: i32,
}

/// How one key of a layer folds into the accumulating render color.
#[derive(Clone, Copy, Debug, PartialEq, Eq, Structural)]
pub enum ColorBlendTypes {
    /// Adds this color to the render color.  Good for a first background layer.
    Add,
    /// Same as add, but subtracts from the current render color.
    Sub,
    /// Each channel is a multiplier to the render color of that channel.
    Mult,
    /// Scales the accumulated color by the first factor and this layer's
    /// color by the second, then adds the two.  Gives alpha layering.
    /// The factors are fixed-point thousandths as well.
    AlphaBlend(i32, i32),
    /// The render color is completely ignored and this key's color is used instead.
    Mask,
    /// This key is effectively ignored.
    Nothing,
}

impl Color {
    /// Black: no intensity on any channel.
    pub open spec fn black() -> Color {
        Color { red: 0, green: 0, blue: 0 }
    }

    /// White: full intensity on every channel.
    pub open spec fn white() -> Color {
        Color { red: COLOR_UNIT, green: COLOR_UNIT, blue: COLOR_UNIT }
    }
}

pub open spec fn add_channel_spec(a: int, b: int) -> int {
    sat_i32(a + b)
}

pub open spec fn sub_channel_spec(a: int, b: int) -> int {
    sat_i32(a - b)
}

pub open spec fn mult_channel_spec(a: int, b: int) -> int {
    sat_i32(trunc_div(a * b, COLOR_UNIT as int))
}

pub open spec fn alpha_channel_spec(a: int, lower: int, b: int, upper: int) -> int {
    sat_i32(trunc_div(a * lower, COLOR_UNIT as int) + trunc_div(b * upper, COLOR_UNIT as int))
}

/// The blend rule: how a layer key's color `layer` folds into the
/// accumulated render color `base` under the key's blend mode.
pub open spec fn blend_spec(mode: ColorBlendTypes, base: Color, layer: Color) -> Color {
    match mode {
        ColorBlendTypes::Add => Color {
            red: add_channel_spec(base.red as int, layer.red as int) as i32,
            green: add_channel_spec(base.green as int, layer.green as int) as i32,
            blue: add_channel_spec(base.blue as int, layer.blue as int) as i32,
        },
        ColorBlendTypes::Sub => Color {
            red: sub_channel_spec(base.red as int, layer.red as int) as i32,
            green: sub_channel_spec(base.green as int, layer.green as int) as i32,
            blue: sub_channel_spec(base.blue as int, layer.blue as int) as i32,
        },
        ColorBlendTypes::Mult => Color {
            red: mult_channel_spec(base.red as int, layer.red as int) as i32,
            green: mult_channel_spec(base.green as int, layer.green as int) as i32,
            blue: mult_channel_spec(base.blue as int, layer.blue as int) as i32,
        },
        ColorBlendTypes::AlphaBlend(lower, upper) => Color {
            red: alpha_channel_spec(base.red as int, lower as int, layer.red as int, upper as int) as i32,
            green: alpha_channel_spec(base.green as int, lower as int, layer.green as int, upper as int) as i32,
            blue: alpha_channel_spec(base.blue as int, lower as int, layer.blue as int, upper as int) as i32,
        },
        ColorBlendTypes::Mask => layer,
        ColorBlendTypes::Nothing => base,
    }
}

/// Quantization of one channel for hardware transfer: clamp into
/// `[0, COLOR_UNIT]`, then round (not truncate) to an 8-bit value.
pub open spec fn quantize_spec(c: int) -> int {
    let clamped = if c < 0 {
        0
    } else if c > COLOR_UNIT {
        COLOR_UNIT as int
    } else {
        c
    };
    (clamped * 255 + 500) / (COLOR_UNIT as int)
}

fn add_channel(a: i32, b: i32) -> (r: i32)
    ensures
        r == add_channel_spec(a as int, b as int),
{
    clamp_to_i32(a as i64 + b as i64)
}

fn sub_channel(a: i32, b: i32) -> (r: i32)
    ensures
        r == sub_channel_spec(a as int, b as int),
{
    clamp_to_i32(a as i64 - b as i64)
}

/// The product of two `i32` values stays well inside the `i64` range.
proof fn lemma_i32_product_bounds(x: int, y: int)
    requires
        i32::MIN <= x <= i32::MAX,
        i32::MIN <= y <= i32::MAX,
    ensures
        -0x4000_0000_0000_0000 <= x * y <= 0x4000_0000_0000_0000,
{
    assert(-0x4000_0000_0000_0000 <= x * y <= 0x4000_0000_0000_0000) by (nonlinear_arith)
        requires
            -0x8000_0000 <= x <= 0x7fff_ffff,
            -0x8000_0000 <= y <= 0x7fff_ffff,
    ;
}

fn mult_channel(a: i32, b: i32) -> (r: i32)
    ensures
        r == mult_channel_spec(a as int, b as int),
{
    proof {
        lemma_i32_product_bounds(a as int, b as int);
    }
    clamp_to_i32(trunc_div_i64(a as i64 * b as i64, COLOR_UNIT as i64))
}

fn alpha_channel(a: i32, lower: i32, b: i32, upper: i32) -> (r: i32)
    ensures
        r == alpha_channel_spec(a as int, lower as int, b as int, upper as int),
{
    proof {
        lemma_i32_product_bounds(a as int, lower as int);
        lemma_i32_product_bounds(b as int, upper as int);
    }
    let t1 = trunc_div_i64(a as i64 * lower as i64, COLOR_UNIT as i64);
    let t2 = trunc_div_i64(b as i64 * upper as i64, COLOR_UNIT as i64);
    clamp_to_i32(t1 + t2)
}

/// Fold one layer key's color into the accumulated render color.
pub fn blend(mode: ColorBlendTypes, base: Color, layer: Color) -> (r: Color)
    ensures
        r == blend_spec(mode, base, layer),
{
    match mode {
        ColorBlendTypes::Add => Color {
            red: add_channel(base.red, layer.red),
            green: add_channel(base.green, layer.green),
            blue: add_channel(base.blue, layer.blue),
        },
        ColorBlendTypes::Sub => Color {
            red: sub_channel(base.red, layer.red),
            green: sub_channel(base.green, layer.green),
            blue: sub_channel(base.blue, layer.blue),
        },
        ColorBlendTypes::Mult => Color {
            red: mult_channel(base.red, layer.red),
            green: mult_channel(base.green, layer.green),
            blue: mult_channel(base.blue, layer.blue),
        },
        ColorBlendTypes::AlphaBlend(lower, upper) => Color {
            red: alpha_channel(base.red, lower, layer.red, upper),
            green: alpha_channel(base.green, lower, layer.green, upper),
            blue: alpha_channel(base.blue, lower, layer.blue, upper),
        },
        ColorBlendTypes::Mask => layer,
        ColorBlendTypes::Nothing => base,
    }
}

/// Quantize one channel to 8 bits by rounding, for hardware transfer.
pub fn quantize_channel(c: i32) -> (r: u8)
    ensures
        r == quantize_spec(c as int),
{
    let clamped: u32 = if c < 0 {
        0
    } else if c > COLOR_UNIT {
        COLOR_UNIT as u32
    } else {
        c as u32
    };
    ((clamped * 255 + 500) / (COLOR_UNIT as u32)) as u8
}

/// Multiplicative blending with pure white leaves the render color as it was.
pub proof fn lemma_mult_white_identity(c: Color)
    ensures
        blend_spec(ColorBlendTypes::Mult, c, Color::white()) == c,
{
    lemma_unit_scale_identity(c.red as int);
    lemma_unit_scale_identity(c.green as int);
    lemma_unit_scale_identity(c.blue as int);
}

/// Additive and subtractive blending with black leave the render color as it was.
pub proof fn lemma_add_sub_black_identity(c: Color)
    ensures
        blend_spec(ColorBlendTypes::Add, c, Color::black()) == c,
        blend_spec(ColorBlendTypes::Sub, c, Color::black()) == c,
{
}

proof fn lemma_unit_scale_identity(a: int)
    requires
        i32::MIN <= a <= i32::MAX,
    ensures
        sat_i32(trunc_div(a * (COLOR_UNIT as int), COLOR_UNIT as int)) == a,
{
    let u = COLOR_UNIT as int;
    if a >= 0 {
        assert((a * u) / u == a) by {
            vstd::arithmetic::div_mod::lemma_div_by_multiple(a, u);
        }
    } else {
        assert(-(a * u) == (-a) * u) by {
            vstd::arithmetic::mul::lemma_mul_unary_negation(a, u);
        }
        assert(((-a) * u) / u == -a) by {
            vstd::arithmetic::div_mod::lemma_div_by_multiple(-a, u);
        }
    }
}

} // verus!

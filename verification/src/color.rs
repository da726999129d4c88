//! The output encoder: averaged radiance to 8-bit channels.
//!
//! The accumulated per-pixel sum is divided by the sample count, gamma-2
//! corrected by a square root, clamped just below one, and quantized to an
//! integer in `[0, 255]`. Each step is stated exactly.
use crate::fixed::{fx_sqrt_bits, lemma_sqrt_bounds, Fx, FX_SCALE};
use crate::vec3::Color;
use vstd::prelude::*;

verus! {

/// Largest channel value that survives the clamp: just under one.
pub const CLAMP_MAX: i128 = 65470;

/// One encoded channel: average, gamma-correct by square root, clamp to
/// `[0, 0.999]`, and quantize by 256 steps per unit.
pub open spec fn encode_channel_bits(sum: int, samples: int) -> int {
    let scaled = sum / samples;
    let g = fx_sqrt_bits(scaled);
    let clamped = if g < 0 {
        0
    } else if g > CLAMP_MAX {
        CLAMP_MAX as int
    } else {
        g
    };
    clamped / 256
}

/// Encoding an all-zero accumulation yields zero: the average is zero, the
/// root of zero is zero, and the clamp and quantization keep it.
pub proof fn lemma_encode_zero(samples: int)
    requires
        1 <= samples,
    ensures
        encode_channel_bits(0, samples) == 0,
{
    vstd::arithmetic::div_mod::lemma_div_of0(samples);
    assert(crate::fixed::is_sqrt_of(0, 0));
    crate::fixed::lemma_sqrt_floor_is_sqrt(0);
    crate::fixed::lemma_sqrt_unique(0, crate::fixed::sqrt_floor(0), 0);
}

/// Encodes one channel of an accumulated color sum.
pub fn encode_channel(sum: Fx, samples_per_pixel: u32) -> (r: u8)
    requires
        1 <= samples_per_pixel,
        0 <= sum.bits <= samples_per_pixel * FX_SCALE,
    ensures
        r == encode_channel_bits(sum.bits as int, samples_per_pixel as int),
        r <= 255,
{
    let scaled_u: u128 = (sum.bits as u128) / (samples_per_pixel as u128);
    proof {
        vstd::arithmetic::div_mod::lemma_multiply_divide_le(
            sum.bits as int,
            samples_per_pixel as int,
            FX_SCALE as int,
        );
    }
    let scaled = Fx { bits: scaled_u as i128 };
    let g = scaled.sqrt();
    proof {
        lemma_sqrt_bounds(scaled.bits * FX_SCALE, g.bits as int, 0, 65537);
    }
    let clamped: u128 = if g.bits > 65470 {
        65470
    } else {
        g.bits as u128
    };
    (clamped / 256) as u8
}

/// Encodes an accumulated color sum into the three 8-bit channels written
/// to the image, averaging over the pixel's samples.
pub fn encode_color(pixel_color: Color, samples_per_pixel: u32) -> (rgb: (u8, u8, u8))
    requires
        1 <= samples_per_pixel,
        0 <= pixel_color.x.bits <= samples_per_pixel * FX_SCALE,
        0 <= pixel_color.y.bits <= samples_per_pixel * FX_SCALE,
        0 <= pixel_color.z.bits <= samples_per_pixel * FX_SCALE,
    ensures
        rgb.0 == encode_channel_bits(pixel_color.x.bits as int, samples_per_pixel as int),
        rgb.1 == encode_channel_bits(pixel_color.y.bits as int, samples_per_pixel as int),
        rgb.2 == encode_channel_bits(pixel_color.z.bits as int, samples_per_pixel as int),
{
    let r = encode_channel(pixel_color.x, samples_per_pixel);
    let g = encode_channel(pixel_color.y, samples_per_pixel);
    let b = encode_channel(pixel_color.z, samples_per_pixel);
    (r, g, b)
}

} // verus!

//! Colors as the protocol carries them: three channel samples at a common
//! bit depth, and their reduction to eight bits per channel.

use vstd::prelude::*;
use vstd::arithmetic::power2::pow2;

verus! {

/// A color whose three channels share one bit depth.
#[derive(PartialEq, Eq, Clone, Copy, Debug, Structural)]
pub struct ColorRGB {
    pub red: u16,
    pub green: u16,
    pub blue: u16,
    /// Bits per channel of the samples (8, 10, 12, 16, ...); 0 is read as 8.
    pub depth_bits: u8,
}

/// The bit depth a stored `depth_bits` stands for: 8 where none was given.
pub open spec fn effective_depth(depth_bits: u8) -> nat {
    if depth_bits == 0 {
        8
    } else {
        depth_bits as nat
    }
}

/// The largest sample at a bit depth, `2^depth - 1`, capped at sixteen bits.
pub open spec fn max_channel_value(depth_bits: u8) -> nat {
    if effective_depth(depth_bits) >= 16 {
        0xFFFF
    } else {
        (pow2(effective_depth(depth_bits)) - 1) as nat
    }
}

/// A sample rescaled to the range 0..=255, rounded to the nearest integer.
pub open spec fn scale_to_8bit(value: u16, depth_bits: u8) -> nat {
    let max = max_channel_value(depth_bits);
    ((value as nat * 255 + max / 2) / max) as nat
}

impl ColorRGB {
    /// Whether every channel lies within the range of the bit depth.
    pub open spec fn in_range(self) -> bool {
        &&& self.red <= max_channel_value(self.depth_bits)
        &&& self.green <= max_channel_value(self.depth_bits)
        &&& self.blue <= max_channel_value(self.depth_bits)
    }

    /// Builds a color from its channels; an unspecified depth (0) becomes 8.
    pub fn from_components_u16(red: u16, green: u16, blue: u16, bits: u8) -> (color: Self)
        ensures
            color.red == red,
            color.green == green,
            color.blue == blue,
            color.depth_bits == effective_depth(bits),
    {
        let bits = if bits == 0 { 8 } else { bits };
        Self { red, green, blue, depth_bits: bits }
    }
}

impl Default for ColorRGB {
    /// Black at eight bits per channel.
    fn default() -> (color: Self)
        ensures
            color == (ColorRGB { red: 0, green: 0, blue: 0, depth_bits: 8 }),
    {
        Self { red: 0, green: 0, blue: 0, depth_bits: 8 }
    }
}

/// The eight-bit channel that a sample is shown as: the sample rescaled, and
/// of that the low eight bits. For a sample within the range of its bit depth
/// nothing is cut off (see [`lemma_scale_within_range`]).
pub open spec fn channel_to_8bit(value: u16, depth_bits: u8) -> u8 {
    (scale_to_8bit(value, depth_bits) % 256) as u8
}

/// The largest sample at a bit depth.
fn max_value_of(depth_bits: u8) -> (max: u32)
    ensures
        max == max_channel_value(depth_bits),
        1 <= max <= 0xFFFF,
{
    let bits: u32 = if depth_bits == 0 { 8 } else { depth_bits as u32 };
    if bits >= 16 {
        0xFFFF
    } else {
        proof {
            vstd::arithmetic::power2::lemma2_to64();
            vstd::arithmetic::power2::lemma_pow2_strictly_increases(bits as nat, 16);
            vstd::arithmetic::power2::lemma_pow2_strictly_increases(0, bits as nat);
            vstd::bits::lemma_u32_shl_is_mul(1, bits);
        }
        (1u32 << bits) - 1
    }
}

/// The largest samples at the bit depths that the protocol uses.
pub proof fn lemma_max_channel_values()
    ensures
        max_channel_value(0) == 255,
        max_channel_value(8) == 255,
        max_channel_value(10) == 1023,
        max_channel_value(12) == 4095,
        max_channel_value(16) == 65535,
{
    vstd::arithmetic::power2::lemma2_to64();
}

/// A sample within the range of its bit depth is rescaled into 0..=255: zero
/// stays zero and the largest sample becomes 255.
pub proof fn lemma_scale_within_range(value: u16, depth_bits: u8)
    requires
        value <= max_channel_value(depth_bits),
    ensures
        scale_to_8bit(value, depth_bits) <= 255,
        channel_to_8bit(value, depth_bits) == scale_to_8bit(value, depth_bits),
        value == 0 ==> scale_to_8bit(value, depth_bits) == 0,
        value == max_channel_value(depth_bits) ==> scale_to_8bit(value, depth_bits) == 255,
{
    let max = max_channel_value(depth_bits) as int;
    vstd::arithmetic::power2::lemma_pow2_pos(effective_depth(depth_bits));
    vstd::arithmetic::power2::lemma2_to64();
    if effective_depth(depth_bits) < 16 {
        vstd::arithmetic::power2::lemma_pow2_strictly_increases(0, effective_depth(depth_bits));
    }
    assert(max >= 1);
    let v = value as int;
    assert((v * 255 + max / 2) / max <= 255) by (nonlinear_arith)
        requires
            0 <= v <= max,
            max >= 1,
    ;
    assert((0 * 255 + max / 2) / max == 0) by (nonlinear_arith)
        requires
            max >= 1,
    ;
    assert((max * 255 + max / 2) / max == 255) by (nonlinear_arith)
        requires
            max >= 1,
    ;
}

/// Of a color whose channels lie within the range of its bit depth, the
/// reduction to eight bits is the rescaling itself, with nothing cut off.
pub proof fn lemma_reduction_within_range(color: ColorRGB)
    requires
        color.in_range(),
    ensures
        channel_to_8bit(color.red, color.depth_bits) == scale_to_8bit(color.red, color.depth_bits),
        channel_to_8bit(color.green, color.depth_bits) == scale_to_8bit(
            color.green,
            color.depth_bits,
        ),
        channel_to_8bit(color.blue, color.depth_bits) == scale_to_8bit(
            color.blue,
            color.depth_bits,
        ),
{
    lemma_scale_within_range(color.red, color.depth_bits);
    lemma_scale_within_range(color.green, color.depth_bits);
    lemma_scale_within_range(color.blue, color.depth_bits);
}

/// A larger sample is never shown darker than a smaller one.
pub proof fn lemma_scale_monotonic(low: u16, high: u16, depth_bits: u8)
    requires
        low <= high,
    ensures
        scale_to_8bit(low, depth_bits) <= scale_to_8bit(high, depth_bits),
{
    let max = max_channel_value(depth_bits) as int;
    vstd::arithmetic::power2::lemma_pow2_pos(effective_depth(depth_bits));
    vstd::arithmetic::power2::lemma2_to64();
    if effective_depth(depth_bits) < 16 {
        vstd::arithmetic::power2::lemma_pow2_strictly_increases(0, effective_depth(depth_bits));
    }
    let a = low as int * 255 + max / 2;
    let b = high as int * 255 + max / 2;
    assert(a / max <= b / max) by (nonlinear_arith)
        requires
            0 <= a <= b,
            max >= 1,
    ;
}

/// Reduces a color to eight bits per channel.
pub fn color_to_u8_tuple(color: ColorRGB) -> (rgb: (u8, u8, u8))
    ensures
        rgb.0 == channel_to_8bit(color.red, color.depth_bits),
        rgb.1 == channel_to_8bit(color.green, color.depth_bits),
        rgb.2 == channel_to_8bit(color.blue, color.depth_bits),
{
    let max = max_value_of(color.depth_bits);
    let red: u32 = (color.red as u32 * 255 + max / 2) / max;
    let green: u32 = (color.green as u32 * 255 + max / 2) / max;
    let blue: u32 = (color.blue as u32 * 255 + max / 2) / max;
    ((red % 256) as u8, (green % 256) as u8, (blue % 256) as u8)
}

} // verus!

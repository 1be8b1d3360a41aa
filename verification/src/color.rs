//! Fixed-point RGB color type.
use vstd::prelude::*;

use crate::fixed::{
    lerp_channel, lerp_channel_spec, scale_channel, scale_channel_spec, lemma_lerp_channel_in_range,
    lemma_scale_bounds, ONE,
};

verus! {

/// An RGB color with 16 bits per channel.
///
/// Channels are normalized values, not hardware values. Convert them to the native
/// format in [`RgbLed::set_color`](crate::RgbLed::set_color).
#[derive(Debug, Clone, Copy, PartialEq, Eq, Structural)]
pub struct Rgb {
    /// Red channel, `0..=65535`.
    pub r: u16,
    /// Green channel, `0..=65535`.
    pub g: u16,
    /// Blue channel, `0..=65535`.
    pub b: u16,
}

/// Black: every channel off.
pub open spec fn black_spec() -> Rgb {
    Rgb { r: 0, g: 0, b: 0 }
}

/// Distance between two channel values.
pub open spec fn channel_distance(a: u16, b: u16) -> int {
    if a >= b {
        a - b
    } else {
        b - a
    }
}

/// Whether interpolating every channel of `from` toward `to` by `t` stays in range.
pub open spec fn lerp_fits(from: Rgb, to: Rgb, t: u16) -> bool {
    &&& 0 <= lerp_channel_spec(from.r as int, to.r as int, t as int) <= u16::MAX
    &&& 0 <= lerp_channel_spec(from.g as int, to.g as int, t as int) <= u16::MAX
    &&& 0 <= lerp_channel_spec(from.b as int, to.b as int, t as int) <= u16::MAX
}

/// `from` interpolated channel-wise toward `to` by the Q0.15 factor `t`.
pub open spec fn lerp_spec(from: Rgb, to: Rgb, t: u16) -> Rgb {
    Rgb {
        r: lerp_channel_spec(from.r as int, to.r as int, t as int) as u16,
        g: lerp_channel_spec(from.g as int, to.g as int, t as int) as u16,
        b: lerp_channel_spec(from.b as int, to.b as int, t as int) as u16,
    }
}

/// `color` with every channel scaled by `factor / 65535`, rounded to nearest.
pub open spec fn scale_spec(color: Rgb, factor: u16) -> Rgb {
    Rgb {
        r: scale_channel_spec(color.r as int, factor as int) as u16,
        g: scale_channel_spec(color.g as int, factor as int) as u16,
        b: scale_channel_spec(color.b as int, factor as int) as u16,
    }
}

/// Whether every channel of `a` is strictly within `epsilon` of the same channel of `b`.
pub open spec fn approx_eq_spec(a: Rgb, b: Rgb, epsilon: u16) -> bool {
    &&& channel_distance(a.r, b.r) < epsilon
    &&& channel_distance(a.g, b.g) < epsilon
    &&& channel_distance(a.b, b.b) < epsilon
}

impl Default for Rgb {
    /// Black.
    fn default() -> (c: Self)
        ensures
            c == (Rgb { r: 0, g: 0, b: 0 }),
    {
        Rgb { r: 0, g: 0, b: 0 }
    }
}

impl Rgb {
    /// Creates a color from 16-bit channel values.
    #[inline]
    pub fn new(r: u16, g: u16, b: u16) -> (c: Self)
        ensures
            c.r == r,
            c.g == g,
            c.b == b,
    {
        Self { r, g, b }
    }

    /// Creates a color from 8-bit channel values, expanding 255 to exactly 65535.
    #[inline]
    pub fn from_u8(r: u8, g: u8, b: u8) -> (c: Self)
        ensures
            c.r == r * 257,
            c.g == g * 257,
            c.b == b * 257,
    {
        Self { r: r as u16 * 257, g: g as u16 * 257, b: b as u16 * 257 }
    }

    /// Reduces the color to 8 bits per channel, for drivers such as WS2812.
    #[inline]
    pub fn to_u8(self) -> (c: (u8, u8, u8))
        ensures
            c.0 == self.r / 256,
            c.1 == self.g / 256,
            c.2 == self.b / 256,
    {
        let r: u16 = self.r;
        let g: u16 = self.g;
        let b: u16 = self.b;
        assert(r >> 8u16 == r / 256) by (bit_vector);
        assert(g >> 8u16 == g / 256) by (bit_vector);
        assert(b >> 8u16 == b / 256) by (bit_vector);
        ((r >> 8) as u8, (g >> 8) as u8, (b >> 8) as u8)
    }

    /// Interpolates toward `other` by a Q0.15 fraction, where 32768 lands on `other`.
    ///
    /// Values above 32768 are not meaningful and are not clamped; they are accepted only
    /// where no channel leaves `0..=65535`.
    #[inline]
    pub fn lerp(self, other: Self, t: u16) -> (c: Self)
        requires
            lerp_fits(self, other, t),
        ensures
            c == lerp_spec(self, other, t),
    {
        Self {
            r: lerp_channel(self.r, other.r, t),
            g: lerp_channel(self.g, other.g, t),
            b: lerp_channel(self.b, other.b, t),
        }
    }

    /// Scales every channel by a 16-bit factor, where 65535 leaves the color unchanged.
    #[inline]
    pub fn scale(self, factor: u16) -> (c: Self)
        ensures
            c == scale_spec(self, factor),
    {
        Self {
            r: scale_channel(self.r, factor),
            g: scale_channel(self.g, factor),
            b: scale_channel(self.b, factor),
        }
    }

    /// Returns true if every channel is within `epsilon` of `other`'s.
    #[inline]
    pub fn approx_eq(self, other: Self, epsilon: u16) -> (eq: bool)
        ensures
            eq == approx_eq_spec(self, other, epsilon),
            eq <==> {
                &&& self.r - other.r < epsilon && other.r - self.r < epsilon
                &&& self.g - other.g < epsilon && other.g - self.g < epsilon
                &&& self.b - other.b < epsilon && other.b - self.b < epsilon
            },
    {
        abs_diff(self.r, other.r) < epsilon && abs_diff(self.g, other.g) < epsilon && abs_diff(
            self.b,
            other.b,
        ) < epsilon
    }
}

/// Distance between two channel values.
#[inline]
fn abs_diff(a: u16, b: u16) -> (d: u16)
    ensures
        d == channel_distance(a, b),
{
    if a >= b {
        a - b
    } else {
        b - a
    }
}

/// Two colors are approximately equal exactly when each of the three channels, red, green
/// and blue, differs by less than the epsilon in either direction; a change of at least
/// the epsilon in any single channel makes them differ.
pub proof fn lemma_approx_eq_channels(a: Rgb, b: Rgb, epsilon: u16)
    ensures
        approx_eq_spec(a, b, epsilon) <==> {
            &&& a.r - b.r < epsilon && b.r - a.r < epsilon
            &&& a.g - b.g < epsilon && b.g - a.g < epsilon
            &&& a.b - b.b < epsilon && b.b - a.b < epsilon
        },
        approx_eq_spec(a, b, epsilon) == approx_eq_spec(b, a, epsilon),
        epsilon > 0 ==> approx_eq_spec(a, a, epsilon),
{
}

/// Any factor within `0..=ONE` keeps interpolation in range, and the two ends of the
/// factor's range land exactly on the two colors.
pub proof fn lemma_lerp_endpoints(from: Rgb, to: Rgb, t: u16)
    requires
        t <= ONE,
    ensures
        lerp_fits(from, to, t),
        t == 0 ==> lerp_spec(from, to, t) == from,
        t == ONE ==> lerp_spec(from, to, t) == to,
{
    lemma_lerp_channel_in_range(from.r as int, to.r as int, t as int);
    lemma_lerp_channel_in_range(from.g as int, to.g as int, t as int);
    lemma_lerp_channel_in_range(from.b as int, to.b as int, t as int);
}

/// Scaling by full scale is lossless, scaling by zero is black, and scaling never
/// brightens a channel.
pub proof fn lemma_scale_laws(color: Rgb, factor: u16)
    ensures
        factor == u16::MAX ==> scale_spec(color, factor) == color,
        factor == 0 ==> scale_spec(color, factor) == (Rgb { r: 0, g: 0, b: 0 }),
        scale_spec(color, factor).r <= color.r,
        scale_spec(color, factor).g <= color.g,
        scale_spec(color, factor).b <= color.b,
{
    lemma_scale_bounds(color.r as int, factor as int);
    lemma_scale_bounds(color.g as int, factor as int);
    lemma_scale_bounds(color.b as int, factor as int);
}

/// Expanding 8-bit channels to 16 bits and reducing them back is the identity.
pub proof fn lemma_u8_round_trip(v: u8)
    ensures
        (v * 257) / 256 == v,
        v == 255 ==> v * 257 == u16::MAX,
{
}

} // verus!

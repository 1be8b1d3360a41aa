//! Color space conversion helpers.
//!
//! Provides convenience functions for working with HSV (Hue, Saturation, Value),
//! which is more intuitive than RGB for many LED animations like color wheels and
//! hue rotations. All functions use integer arithmetic only.
use vstd::prelude::*;

use crate::color::Rgb;
use crate::fixed::div_65535;

verus! {

/// Degrees, reduced modulo a full turn, in the full-circle hue units of [`hsv`].
pub open spec fn degrees_spec(deg: u16) -> int {
    ((deg as int % 360) * 65536) / 360
}

/// Chroma: the span between the brightest and dimmest channel.
pub open spec fn chroma(saturation: u16, value: u16) -> int {
    (value as int * saturation as int) / 65535
}

/// The sector of the color wheel (0 to 5) that a hue falls in.
pub open spec fn hue_sector(hue: u16) -> int {
    (hue as int * 6) / 65536
}

/// How far through its sector a hue is, in `0..=65535`.
pub open spec fn hue_rising(hue: u16) -> int {
    (hue as int * 6) % 65536
}

/// The HSV to RGB conversion: the largest channel is `value`, the smallest is
/// `value - chroma`, and the middle one ramps linearly across each sector.
pub open spec fn hsv_spec(hue: u16, saturation: u16, value: u16) -> Rgb {
    let c = chroma(saturation, value);
    let m = value - c;
    let x_up = (c * hue_rising(hue)) / 65535;
    let x_down = (c * (65535 - hue_rising(hue))) / 65535;
    let (r, g, b) = if hue_sector(hue) == 0 {
        (c, x_up, 0)
    } else if hue_sector(hue) == 1 {
        (x_down, c, 0)
    } else if hue_sector(hue) == 2 {
        (0, c, x_up)
    } else if hue_sector(hue) == 3 {
        (0, x_down, c)
    } else if hue_sector(hue) == 4 {
        (x_up, 0, c)
    } else {
        (c, 0, x_down)
    };
    Rgb { r: (r + m) as u16, g: (g + m) as u16, b: (b + m) as u16 }
}

/// Converts degrees to the full-circle hue units used by [`hsv`] and [`hue`].
///
/// Values of 360 and above wrap around the wheel.
#[inline]
pub fn degrees(deg: u16) -> (h: u16)
    ensures
        h == degrees_spec(deg),
{
    let d: u32 = deg as u32 % 360;
    assert(d * 65536 <= 359 * 65536) by (nonlinear_arith)
        requires
            d <= 359,
    ;
    ((d * 65536) / 360) as u16
}

/// Product of two channel-range values, divided by 65535, stays within the smaller one.
proof fn lemma_channel_product(a: int, b: int)
    requires
        0 <= a <= 65535,
        0 <= b <= 65535,
    ensures
        0 <= a * b <= 65535 * 65535,
        0 <= (a * b) / 65535 <= a,
        (a * b) / 65535 <= b,
        b == 65535 ==> (a * b) / 65535 == a,
        b == 0 ==> (a * b) / 65535 == 0,
{
    assert(0 <= a * b <= 65535 * a && a * b <= 65535 * b) by (nonlinear_arith)
        requires
            0 <= a <= 65535,
            0 <= b <= 65535,
    ;
    assert(65535 * a <= 65535 * 65535) by (nonlinear_arith)
        requires
            a <= 65535,
    ;
    vstd::arithmetic::div_mod::lemma_div_is_ordered(a * b, 65535 * a, 65535);
    vstd::arithmetic::div_mod::lemma_div_is_ordered(a * b, 65535 * b, 65535);
    vstd::arithmetic::div_mod::lemma_div_is_ordered(0, a * b, 65535);
    assert((65535 * a) / 65535 == a) by (nonlinear_arith);
    assert((65535 * b) / 65535 == b) by (nonlinear_arith);
    if b == 65535 {
        assert(a * b == 65535 * a) by (nonlinear_arith)
            requires
                b == 65535,
        ;
    }
    if b == 0 {
        assert(a * b == 0) by (nonlinear_arith)
            requires
                b == 0,
        ;
    }
}

/// Every channel of an HSV color lies between `value - chroma` and `value`.
pub proof fn lemma_hsv_channels(hue: u16, saturation: u16, value: u16)
    ensures
        ({
            let c = hsv_spec(hue, saturation, value);
            let lo = value - chroma(saturation, value);
            &&& lo <= c.r <= value
            &&& lo <= c.g <= value
            &&& lo <= c.b <= value
        }),
{
    let c = chroma(saturation, value);
    lemma_channel_product(value as int, saturation as int);
    assert(0 <= hue_rising(hue) < 65536);
    lemma_channel_product(c, hue_rising(hue));
    lemma_channel_product(c, 65535 - hue_rising(hue));
}

/// Creates an RGB color from HSV components.
///
/// `hue` spans the full wheel across the whole `u16` range, so rotation is plain
/// addition and wraps for free; see [`degrees`] to convert from degrees.
/// `saturation` and `value` run `0..=65535`.
#[inline]
pub fn hsv(hue: u16, saturation: u16, value: u16) -> (c: Rgb)
    ensures
        c == hsv_spec(hue, saturation, value),
{
    let v: u32 = value as u32;
    proof {
        lemma_channel_product(v as int, saturation as int);
    }
    // Chroma: the span between the brightest and dimmest channel.
    let c: u32 = div_65535(v * saturation as u32);
    // Minimum channel value, added back to every channel at the end.
    let m: u32 = v - c;

    // Multiplying by 6 puts the sector index in the high bits and the position within
    // the sector in the low 16, so both fall out with a shift and a mask.
    let h6: u32 = hue as u32 * 6;
    assert(h6 >> 16u32 == h6 / 65536) by (bit_vector);
    assert(h6 & 0xFFFFu32 == h6 % 65536) by (bit_vector);
    let sector: u32 = h6 >> 16;
    let rising: u32 = h6 & 0xFFFF;
    let falling: u32 = 65535 - rising;
    proof {
        lemma_channel_product(c as int, rising as int);
        lemma_channel_product(c as int, falling as int);
    }

    // The second-largest channel ramps linearly across each sector.
    let x_up: u32 = div_65535(c * rising);
    let x_down: u32 = div_65535(c * falling);

    let (r, g, b): (u32, u32, u32) = if sector == 0 {
        (c, x_up, 0)
    } else if sector == 1 {
        (x_down, c, 0)
    } else if sector == 2 {
        (0, c, x_up)
    } else if sector == 3 {
        (0, x_down, c)
    } else if sector == 4 {
        (x_up, 0, c)
    } else {
        (c, 0, x_down)
    };
    Rgb { r: (r + m) as u16, g: (g + m) as u16, b: (b + m) as u16 }
}

/// Creates a fully saturated, full-brightness RGB color from hue alone.
#[inline]
pub fn hue(h: u16) -> (c: Rgb)
    ensures
        c == hsv_spec(h, 65535, 65535),
{
    hsv(h, 65535, 65535)
}

/// Zero saturation gives a grey at the requested value, and zero value gives black.
pub proof fn lemma_hsv_greyscale(hue: u16, saturation: u16, value: u16)
    ensures
        saturation == 0 ==> hsv_spec(hue, saturation, value) == (Rgb {
            r: value,
            g: value,
            b: value,
        }),
        value == 0 ==> hsv_spec(hue, saturation, value) == (Rgb { r: 0, g: 0, b: 0 }),
{
    lemma_channel_product(value as int, saturation as int);
    lemma_channel_product(saturation as int, value as int);
    assert(value * saturation == saturation * value) by (nonlinear_arith);
    let c = chroma(saturation, value);
    lemma_channel_product(c, hue_rising(hue));
    lemma_channel_product(c, 65535 - hue_rising(hue));
    if saturation == 0 || value == 0 {
        assert(c == 0);
        assert((c * hue_rising(hue)) / 65535 == 0);
        assert((c * (65535 - hue_rising(hue))) / 65535 == 0);
    }
}

/// A fully saturated, full-value hue always has one channel at full scale and one
/// channel at zero.
pub proof fn lemma_hue_extremes(h: u16)
    ensures
        ({
            let c = hsv_spec(h, 65535, 65535);
            &&& (c.r == 65535 || c.g == 65535 || c.b == 65535)
            &&& (c.r == 0 || c.g == 0 || c.b == 0)
        }),
{
    lemma_channel_product(65535, 65535);
    assert(chroma(65535, 65535) == 65535);
    assert(0 <= hue_sector(h) <= 5);
}

/// Floor division by 65535 of a sum carries at most one unit over the separate quotients.
proof fn lemma_div_sum(x: int, y: int)
    requires
        0 <= x,
        0 <= y,
    ensures
        x / 65535 + y / 65535 <= (x + y) / 65535 <= x / 65535 + y / 65535 + 1,
{
    vstd::arithmetic::div_mod::lemma_fundamental_div_mod(x, 65535);
    vstd::arithmetic::div_mod::lemma_fundamental_div_mod(y, 65535);
    vstd::arithmetic::div_mod::lemma_fundamental_div_mod(x + y, 65535);
    vstd::arithmetic::div_mod::lemma_mod_pos_bound(x, 65535);
    vstd::arithmetic::div_mod::lemma_mod_pos_bound(y, 65535);
    vstd::arithmetic::div_mod::lemma_mod_pos_bound(x + y, 65535);
}

/// Moving a ramp position forward by at most six moves the ramped value up by at most
/// `c * 6 / 65535 + 1`.
proof fn lemma_ramp_step(c: int, a: int, k: int)
    requires
        0 <= c <= 65535,
        0 <= a,
        0 <= k <= 6,
    ensures
        0 <= (c * (a + k)) / 65535 - (c * a) / 65535 <= (c * 6) / 65535 + 1,
{
    assert(c * (a + k) == c * a + c * k && 0 <= c * a && 0 <= c * k <= c * 6)
        by (nonlinear_arith)
        requires
            0 <= c,
            0 <= a,
            0 <= k <= 6,
    ;
    lemma_div_sum(c * a, c * k);
    vstd::arithmetic::div_mod::lemma_div_is_ordered(c * k, c * 6, 65535);
    vstd::arithmetic::div_mod::lemma_div_is_ordered(0, c * k, 65535);
}

/// A ramp within six of its top lies within `c * 6 / 65535 + 1` below `c`, and one within
/// six of its bottom lies within that much above zero.
proof fn lemma_ramp_ends(c: int, d: int)
    requires
        0 <= c <= 65535,
        0 <= d <= 6,
    ensures
        0 <= c - (c * (65535 - d)) / 65535 <= (c * 6) / 65535 + 1,
        0 <= (c * d) / 65535 <= (c * 6) / 65535,
{
    assert(c * (65535 - d) + c * d == 65535 * c && 0 <= c * d <= c * 6 && 0 <= c * (65535 - d))
        by (nonlinear_arith)
        requires
            0 <= c,
            0 <= d <= 6,
    ;
    lemma_div_sum(c * (65535 - d), c * d);
    vstd::arithmetic::div_mod::lemma_div_multiples_vanish(c, 65535);
    vstd::arithmetic::div_mod::lemma_div_is_ordered(c * d, c * 6, 65535);
    vstd::arithmetic::div_mod::lemma_div_is_ordered(0, c * d, 65535);
    vstd::arithmetic::div_mod::lemma_div_is_ordered(c * (65535 - d), 65535 * c, 65535);
}

/// The largest step any channel may take between neighbouring hues: six sectors of
/// chroma spread over the 65536 hues, plus one unit of rounding.
pub open spec fn hue_step_bound(saturation: u16, value: u16) -> int {
    (((value as int * saturation as int) / 65535) * 6) / 65535 + 1
}

/// Whether two colors differ by at most `bound` in every channel.
pub open spec fn within(a: Rgb, b: Rgb, bound: int) -> bool {
    &&& -bound <= a.r - b.r <= bound
    &&& -bound <= a.g - b.g <= bound
    &&& -bound <= a.b - b.b <= bound
}

/// The color wheel is continuous: stepping the hue by one unit moves every channel by at
/// most [`hue_step_bound`] - there is no jump at any sector boundary - and the wheel
/// closes up, the last hue lying just as close to hue zero.
pub proof fn lemma_hsv_continuous(hue: u16, saturation: u16, value: u16)
    ensures
        hue < 65535 ==> within(
            hsv_spec((hue + 1) as u16, saturation, value),
            hsv_spec(hue, saturation, value),
            hue_step_bound(saturation, value),
        ),
        within(
            hsv_spec(0, saturation, value),
            hsv_spec(65535, saturation, value),
            hue_step_bound(saturation, value),
        ),
{
    let c = chroma(saturation, value);
    lemma_channel_product(value as int, saturation as int);
    assert(hue_step_bound(saturation, value) == (c * 6) / 65535 + 1);
    lemma_hsv_channels(hue, saturation, value);
    lemma_hsv_channels(65535, saturation, value);
    lemma_hsv_channels(0, saturation, value);
    // The wrap: hue 65535 is in the last sector, six units short of its end.
    assert(hue_sector(65535) == 5 && hue_rising(65535) == 65530) by {
        vstd::arithmetic::div_mod::lemma_fundamental_div_mod_converse(393210, 65536, 5, 65530);
    }
    assert(hue_sector(0) == 0 && hue_rising(0) == 0);
    lemma_ramp_ends(c, 5);
    lemma_ramp_ends(c, 0);
    assert((c * 0) / 65535 == 0);
    if hue < 65535 {
        lemma_hsv_step(hue, saturation, value);
    }
}

/// The channels of an HSV color before the grey floor `value - chroma` is added.
spec fn wheel(sector: int, c: int, up: int, down: int) -> (int, int, int) {
    if sector == 0 {
        (c, up, 0)
    } else if sector == 1 {
        (down, c, 0)
    } else if sector == 2 {
        (0, c, up)
    } else if sector == 3 {
        (0, down, c)
    } else if sector == 4 {
        (up, 0, c)
    } else {
        (c, 0, down)
    }
}

/// An HSV color is its wheel channels lifted by the grey floor.
proof fn lemma_hsv_wheel(hue: u16, saturation: u16, value: u16)
    ensures
        ({
            let c = chroma(saturation, value);
            let m = value - c;
            let w = wheel(
                hue_sector(hue),
                c,
                (c * hue_rising(hue)) / 65535,
                (c * (65535 - hue_rising(hue))) / 65535,
            );
            let x = hsv_spec(hue, saturation, value);
            &&& x.r == w.0 + m
            &&& x.g == w.1 + m
            &&& x.b == w.2 + m
        }),
{
    let c = chroma(saturation, value);
    lemma_channel_product(value as int, saturation as int);
    assert(0 <= hue_rising(hue) < 65536);
    lemma_channel_product(c, hue_rising(hue));
    lemma_channel_product(c, 65535 - hue_rising(hue));
    let q = hue_sector(hue);
    if q == 0 {
    } else if q == 1 {
    } else if q == 2 {
    } else if q == 3 {
    } else if q == 4 {
    } else {
    }
}

/// One step of hue, within the wheel.
proof fn lemma_hsv_step(hue: u16, saturation: u16, value: u16)
    requires
        hue < 65535,
    ensures
        within(
            hsv_spec((hue + 1) as u16, saturation, value),
            hsv_spec(hue, saturation, value),
            hue_step_bound(saturation, value),
        ),
{
    let c = chroma(saturation, value);
    lemma_channel_product(value as int, saturation as int);
    let bound = (c * 6) / 65535 + 1;
    assert(hue_step_bound(saturation, value) == bound);
    let h = hue as int;
    let h1 = (hue + 1) as u16;
    lemma_hsv_wheel(hue, saturation, value);
    lemma_hsv_wheel(h1, saturation, value);
    let q0 = hue_sector(hue);
    let r0 = hue_rising(hue);
    vstd::arithmetic::div_mod::lemma_fundamental_div_mod(h * 6, 65536);
    vstd::arithmetic::div_mod::lemma_mod_pos_bound(h * 6, 65536);
    assert(h1 as int * 6 == 65536 * q0 + r0 + 6);
    assert(0 <= q0 <= 5) by {
        vstd::arithmetic::div_mod::lemma_div_is_ordered(h * 6, 393210, 65536);
        vstd::arithmetic::div_mod::lemma_div_is_ordered(0, h * 6, 65536);
        vstd::arithmetic::div_mod::lemma_fundamental_div_mod_converse(393210, 65536, 5, 65530);
    }
    let up0 = (c * r0) / 65535;
    let down0 = (c * (65535 - r0)) / 65535;
    if r0 + 6 < 65536 {
        vstd::arithmetic::div_mod::lemma_fundamental_div_mod_converse(h1 as int * 6, 65536, q0, r0 + 6);
        let up1 = (c * (r0 + 6)) / 65535;
        let down1 = (c * (65535 - (r0 + 6))) / 65535;
        assert(hue_sector(h1) == q0 && hue_rising(h1) == r0 + 6);
        lemma_ramp_step(c, r0, 6);
        lemma_ramp_step(c, 65535 - r0 - 6, 6);
        assert(65535 - r0 - 6 + 6 == 65535 - r0);
        assert(0 <= up1 - up0 <= bound);
        assert(0 <= down0 - down1 <= bound);
    } else {
        let r1 = r0 + 6 - 65536;
        vstd::arithmetic::div_mod::lemma_fundamental_div_mod_converse(h1 as int * 6, 65536, q0 + 1, r1);
        assert(hue_sector(h1) == q0 + 1 && hue_rising(h1) == r1);
        assert(0 <= r1 <= 5 && 0 <= 65535 - r0 <= 5);
        let up1 = (c * r1) / 65535;
        let down1 = (c * (65535 - r1)) / 65535;
        lemma_ramp_ends(c, r1);
        lemma_ramp_ends(c, 65535 - r0);
        assert(65535 - (65535 - r0) == r0);
        assert(0 <= c - up0 <= bound);
        assert(0 <= down0 <= bound);
        assert(0 <= up1 <= bound);
        assert(0 <= c - down1 <= bound);
    }
}

/// Hue units wrap: degrees a full turn apart name the same hue.
pub proof fn lemma_degrees_wrap(deg: u16)
    requires
        deg >= 360,
    ensures
        degrees_spec(deg) == degrees_spec((deg - 360) as u16),
{
    vstd::arithmetic::div_mod::lemma_mod_sub_multiples_vanish(deg as int, 360);
}

} // verus!

//! Fixed-point arithmetic primitives.
//!
//! Progress and easing use Q0.15: an unsigned 15-bit fraction in a `u16`, where
//! [`ONE`] represents 1.0. Q0.15 rather than Q0.16 so that squaring stays inside a
//! `u32` (`32768^2` is 2^30; `65536^2` is not). Every intermediate here is 32-bit.
use vstd::prelude::*;
use vstd::arithmetic::power2::{pow2, lemma_pow2_pos, lemma_pow2_unfold, lemma2_to64};
use vstd::arithmetic::div_mod::lemma_div_is_ordered;
use vstd::bits::{lemma_u64_shr_is_div, lemma_u32_shl_is_mul};
use vstd::std_specs::bits::u64_leading_zeros;

use crate::types::TransitionStyle;

verus! {

/// 1.0 in Q0.15 format.
pub const ONE: u16 = 32768;

/// 0.5 in Q0.15 format.
pub const HALF: u16 = ONE / 2;

/// Fractional bit count of the Q0.15 format.
pub const SHIFT: u32 = 15;

/// Bit width the operands of [`progress_q15`] are reduced to before dividing.
///
/// The widest numerator whose 15-bit shift still fits a `u32`.
pub const OPERAND_BITS: u32 = 17;

// ---------------------------------------------------------------------------
// Specifications
// ---------------------------------------------------------------------------

/// Product of two Q0.15 fractions, truncated.
pub open spec fn mul_q15_spec(a: int, b: int) -> int {
    (a * b) / 32768
}

/// Number of significant bits of `x` (0 for 0).
pub open spec fn bit_len(x: nat) -> nat
    decreases x,
{
    if x == 0 {
        0
    } else {
        1 + bit_len(x / 2)
    }
}

/// The shared right shift that reduces a duration to at most 17 significant bits.
pub open spec fn progress_shift(duration_ms: u64) -> nat {
    if bit_len(duration_ms as nat) > OPERAND_BITS {
        (bit_len(duration_ms as nat) - OPERAND_BITS) as nat
    } else {
        0
    }
}

/// Elapsed-within-step progress in Q0.15, saturating at [`ONE`].
///
/// Both operands are divided by `2^progress_shift(duration)` before the quotient
/// `time * 2^15 / duration` is taken; a zero duration or a time at or past the end
/// reports fully complete.
pub open spec fn progress_spec(time_ms: u64, duration_ms: u64) -> int {
    if duration_ms == 0 || time_ms >= duration_ms {
        ONE as int
    } else {
        let s = progress_shift(duration_ms);
        ((time_ms as nat / pow2(s)) * 32768) as int / (duration_ms as nat / pow2(s)) as int
    }
}

/// One channel linearly interpolated from `from` toward `to` by the Q0.15 factor `t`.
pub open spec fn lerp_channel_spec(from: int, to: int, t: int) -> int {
    if to >= from {
        from + ((to - from) * t) / 32768
    } else {
        from - ((from - to) * t) / 32768
    }
}

/// A channel scaled by `factor / 65535`, rounded to nearest.
pub open spec fn scale_channel_spec(value: int, factor: int) -> int {
    (value * factor + 32767) / 65535
}

/// The eased Q0.15 progress for a transition style (quadratic curves).
pub open spec fn ease_spec(t: int, style: TransitionStyle) -> int {
    match style {
        TransitionStyle::Step => t,
        TransitionStyle::Linear => t,
        TransitionStyle::EaseIn => (t * t) / 32768,
        TransitionStyle::EaseOut => (t * (65536 - t)) / 32768,
        TransitionStyle::EaseInOut => if t < HALF {
            (t * t) / 16384
        } else {
            32768 - ((32768 - t) * (32768 - t)) / 16384
        },
        TransitionStyle::EaseOutIn => if t < HALF {
            (t * (32768 - t)) / 16384
        } else {
            16384 + ((t - 16384) * (t - 16384)) / 16384
        },
    }
}

// ---------------------------------------------------------------------------
// Lemmas
// ---------------------------------------------------------------------------

/// `64 - leading_zeros(x)` is the bit length of `x`.
proof fn lemma_leading_zeros_bit_len(x: u64)
    ensures
        64 - u64_leading_zeros(x) == bit_len(x as nat),
    decreases x,
{
    reveal(u64_leading_zeros);
    if x != 0 {
        lemma_leading_zeros_bit_len(x / 2);
    }
}

/// A positive number lies in `[2^(len-1), 2^len)` where `len` is its bit length.
proof fn lemma_bit_len_bounds(x: nat)
    ensures
        x < pow2(bit_len(x)),
        x > 0 ==> bit_len(x) >= 1 && pow2((bit_len(x) - 1) as nat) <= x,
    decreases x,
{
    if x == 0 {
        lemma_pow2_pos(0);
    } else {
        let h = x / 2;
        lemma_bit_len_bounds(h);
        let b = bit_len(h);
        assert(bit_len(x) == b + 1);
        lemma_pow2_unfold(b + 1);
        assert(pow2(b + 1) == 2 * pow2(b));
        assert(x < pow2(bit_len(x)));
        if h > 0 {
            lemma_pow2_unfold(b);
            assert(pow2(b) == 2 * pow2((b - 1) as nat));
        } else {
            assert(x == 1);
            assert(pow2(0) == 1) by {
                lemma2_to64();
            }
        }
    }
}

/// Powers of two are monotone in the exponent.
proof fn lemma_pow2_le(e1: nat, e2: nat)
    requires
        e1 <= e2,
    ensures
        pow2(e1) <= pow2(e2),
{
    if e1 < e2 {
        vstd::arithmetic::power2::lemma_pow2_strictly_increases(e1, e2);
    }
}

/// Bit lengths of `u64` values are at most 64.
proof fn lemma_bit_len_u64(x: u64)
    ensures
        bit_len(x as nat) <= 64,
{
    lemma_leading_zeros_bit_len(x);
    vstd::std_specs::bits::axiom_u64_leading_zeros(x);
}

/// `(x + (x >> 16) + 1) >> 16` divides by 65535 for any product of two channels.
proof fn lemma_div_65535(x: u32)
    requires
        x <= 65535 * 65535,
    ensures
        ((x + (x >> 16) + 1) as u32) >> 16 == x / 65535,
{
    assert(x >> 16u32 == x / 65536) by (bit_vector);
    let y: u32 = (x + (x >> 16) + 1) as u32;
    assert(y >> 16u32 == y / 65536) by (bit_vector);
    let a: int = x as int / 65536;
    let b: int = x as int % 65536;
    assert(x == 65536 * a + b);
    assert(a <= 65534);
    if a + b < 65535 {
        assert(x as int / 65535 == a);
        assert(y as int / 65536 == a);
    } else {
        assert(x as int / 65535 == a + 1);
        assert(y as int / 65536 == a + 1);
    }
}

/// The rounding bias folded into the same reciprocal series yields round-to-nearest.
proof fn lemma_scale_65535(p: u32, x: u32)
    requires
        p <= 65535 * 65535,
        x == p + 32768,
    ensures
        ((x + (x >> 16)) as u32) >> 16 == (p + 32767) / 65535,
{
    assert(x >> 16u32 == x / 65536) by (bit_vector);
    let y: u32 = (x + (x >> 16)) as u32;
    assert(y >> 16u32 == y / 65536) by (bit_vector);
    let a: int = x as int / 65536;
    let b: int = x as int % 65536;
    assert(x == 65536 * a + b);
    assert(a <= 65534);
    if a + b < 65536 {
        assert((p + 32767) as int / 65535 == a);
        assert(y as int / 65536 == a);
    } else {
        assert((p + 32767) as int / 65535 == a + 1);
        assert(y as int / 65536 == a + 1);
    }
}

/// Integer division by a positive constant is monotone in the numerator.
proof fn lemma_div_mono(a: int, b: int, d: int)
    requires
        0 <= a <= b,
        0 < d,
    ensures
        a / d <= b / d,
{
    lemma_div_is_ordered(a, b, d);
}

/// Squares are monotone on non-negative numbers.
proof fn lemma_square_mono(a: int, b: int)
    requires
        0 <= a <= b,
    ensures
        a * a <= b * b,
{
    assert(a * a <= b * b) by (nonlinear_arith)
        requires
            0 <= a <= b,
    ;
}

/// Easing keeps progress within `0..=ONE`, fixes both endpoints and never reverses.
pub proof fn lemma_ease_bounds(t: int, style: TransitionStyle)
    requires
        0 <= t <= ONE,
    ensures
        0 <= ease_spec(t, style) <= ONE,
        t == 0 ==> ease_spec(t, style) == 0,
        t == ONE ==> ease_spec(t, style) == ONE,
{
    assert(0 <= t * t <= 32768 * 32768) by (nonlinear_arith)
        requires
            0 <= t <= 32768,
    ;
    assert(0 <= t * (65536 - t) <= 32768 * 32768) by (nonlinear_arith)
        requires
            0 <= t <= 32768,
    ;
    assert(0 <= (32768 - t) * (32768 - t) <= 32768 * 32768) by (nonlinear_arith)
        requires
            0 <= t <= 32768,
    ;
    if t == ONE {
        assert(t * t == 1073741824 && t * (65536 - t) == 1073741824 && (t - 16384) * (t - 16384)
            == 268435456 && (32768 - t) * (32768 - t) == 0) by (nonlinear_arith)
            requires
                t == 32768,
        ;
        assert(ease_spec(t, style) == ONE);
    }
    if t < HALF {
        assert(0 <= t * t <= 16384 * 16384) by (nonlinear_arith)
            requires
                0 <= t <= 16384,
        ;
        assert(0 <= t * (32768 - t) <= 16384 * 32768) by (nonlinear_arith)
            requires
                0 <= t <= 16384,
        ;
    } else {
        assert(0 <= (t - 16384) * (t - 16384) <= 16384 * 16384) by (nonlinear_arith)
            requires
                16384 <= t <= 32768,
        ;
        assert(0 <= (32768 - t) * (32768 - t) <= 16384 * 16384) by (nonlinear_arith)
            requires
                16384 <= t <= 32768,
        ;
    }
}

/// Every easing curve is monotone: later progress never eases to an earlier value.
pub proof fn lemma_ease_monotone(t1: int, t2: int, style: TransitionStyle)
    requires
        0 <= t1 <= t2 <= ONE,
    ensures
        ease_spec(t1, style) <= ease_spec(t2, style),
{
    lemma_ease_bounds(t1, style);
    lemma_ease_bounds(t2, style);
    match style {
        TransitionStyle::Step => {},
        TransitionStyle::Linear => {},
        TransitionStyle::EaseIn => {
            lemma_square_mono(t1, t2);
            lemma_div_mono(t1 * t1, t2 * t2, 32768);
        },
        TransitionStyle::EaseOut => {
            assert(t1 * (65536 - t1) <= t2 * (65536 - t2)) by (nonlinear_arith)
                requires
                    0 <= t1 <= t2 <= 32768,
            ;
            assert(0 <= t1 * (65536 - t1)) by (nonlinear_arith)
                requires
                    0 <= t1 <= 32768,
            ;
            lemma_div_mono(t1 * (65536 - t1), t2 * (65536 - t2), 32768);
        },
        TransitionStyle::EaseInOut => {
            if t2 < HALF {
                lemma_square_mono(t1, t2);
                lemma_div_mono(t1 * t1, t2 * t2, 16384);
            } else if t1 >= HALF {
                lemma_square_mono(32768 - t2, 32768 - t1);
                lemma_div_mono((32768 - t2) * (32768 - t2), (32768 - t1) * (32768 - t1), 16384);
            } else {
                lemma_square_mono(t1, 16384);
                lemma_div_mono(t1 * t1, 268435456int, 16384);
                lemma_square_mono(32768 - t2, 16384);
                lemma_div_mono((32768 - t2) * (32768 - t2), 268435456int, 16384);
            }
        },
        TransitionStyle::EaseOutIn => {
            if t2 < HALF {
                assert(t1 * (32768 - t1) <= t2 * (32768 - t2)) by (nonlinear_arith)
                    requires
                        0 <= t1 <= t2 <= 16384,
                ;
                assert(0 <= t1 * (32768 - t1)) by (nonlinear_arith)
                    requires
                        0 <= t1 <= 16384,
                ;
                lemma_div_mono(t1 * (32768 - t1), t2 * (32768 - t2), 16384);
            } else if t1 >= HALF {
                lemma_square_mono(t1 - 16384, t2 - 16384);
                lemma_div_mono((t1 - 16384) * (t1 - 16384), (t2 - 16384) * (t2 - 16384), 16384);
            } else {
                assert(0 <= t1 * (32768 - t1) <= 16384 * 16384 - 1) by (nonlinear_arith)
                    requires
                        0 <= t1 < 16384,
                ;
                lemma_div_mono(t1 * (32768 - t1), 268435455int, 16384);
            }
        },
    }
}

/// Progress never exceeds [`ONE`], is exact for short steps, and is monotone in time.
pub proof fn lemma_progress_bounds(time_ms: u64, duration_ms: u64)
    ensures
        0 <= progress_spec(time_ms, duration_ms) <= ONE,
        time_ms == 0 && duration_ms > 0 ==> progress_spec(time_ms, duration_ms) == 0,
        0 < duration_ms < 0x20000 && time_ms < duration_ms ==> progress_spec(time_ms, duration_ms)
            == (time_ms * 32768) / (duration_ms as int),
{
    if duration_ms != 0 && time_ms < duration_ms {
        let s = progress_shift(duration_ms);
        lemma_shift_operands(time_ms, duration_ms);
        let n: int = (time_ms as nat / pow2(s)) as int;
        let d: int = (duration_ms as nat / pow2(s)) as int;
        lemma_pow2_pos(s);
        assert(0 <= n * 32768 <= d * 32768) by (nonlinear_arith)
            requires
                0 <= n <= d,
        ;
        lemma_div_mono(n * 32768, d * 32768, d);
        assert((d * 32768) / d == 32768) by (nonlinear_arith)
            requires
                d > 0,
        ;
        if time_ms == 0 {
            assert(n == 0) by {
                lemma_pow2_pos(s);
            }
        }
        if duration_ms < 0x20000 {
            lemma_bit_len_bounds(duration_ms as nat);
            if bit_len(duration_ms as nat) > 17 {
                lemma_pow2_le(17, (bit_len(duration_ms as nat) - 1) as nat);
                assert(pow2(17) == 0x20000) by {
                    lemma2_to64();
                }
            }
            assert(s == 0);
            assert(pow2(0) == 1) by {
                lemma2_to64();
            }
        }
    }
}

/// Progress is monotone in elapsed time for a fixed duration.
pub proof fn lemma_progress_monotone(t1: u64, t2: u64, duration_ms: u64)
    requires
        t1 <= t2,
    ensures
        progress_spec(t1, duration_ms) <= progress_spec(t2, duration_ms),
{
    lemma_progress_bounds(t1, duration_ms);
    lemma_progress_bounds(t2, duration_ms);
    if duration_ms != 0 && t2 < duration_ms {
        let s = progress_shift(duration_ms);
        lemma_shift_operands(t1, duration_ms);
        lemma_shift_operands(t2, duration_ms);
        lemma_pow2_pos(s);
        let n1: int = (t1 as nat / pow2(s)) as int;
        let n2: int = (t2 as nat / pow2(s)) as int;
        let d: int = (duration_ms as nat / pow2(s)) as int;
        lemma_div_mono(t1 as int, t2 as int, pow2(s) as int);
        assert(n1 * 32768 <= n2 * 32768) by (nonlinear_arith)
            requires
                n1 <= n2,
        ;
        lemma_div_mono(n1 * 32768, n2 * 32768, d);
    }
}

/// The shared shift leaves a nonzero denominator of at most 17 bits and a numerator
/// no larger than it.
proof fn lemma_shift_operands(time_ms: u64, duration_ms: u64)
    requires
        duration_ms > 0,
        time_ms <= duration_ms,
    ensures
        progress_shift(duration_ms) < 64,
        0 < duration_ms as nat / pow2(progress_shift(duration_ms)) < 0x20000,
        time_ms as nat / pow2(progress_shift(duration_ms)) <= duration_ms as nat / pow2(
            progress_shift(duration_ms),
        ),
{
    let len = bit_len(duration_ms as nat);
    let s = progress_shift(duration_ms);
    lemma_bit_len_u64(duration_ms);
    lemma_bit_len_bounds(duration_ms as nat);
    lemma_pow2_pos(s);
    lemma_div_mono(time_ms as int, duration_ms as int, pow2(s) as int);
    vstd::arithmetic::power2::lemma_pow2_adds(s, 17);
    assert(pow2(17) == 0x20000 && pow2(16) == 0x10000) by {
        lemma2_to64();
    }
    if len > 17 {
        // duration < 2^(s + 17), so duration / 2^s < 2^17.
        assert(len == s + 17);
        assert(duration_ms < pow2(s) * pow2(17));
        vstd::arithmetic::div_mod::lemma_div_by_multiple_is_strongly_ordered(
            duration_ms as int, (pow2(s) * pow2(17)) as int, pow2(17) as int, pow2(s) as int);
        assert((pow2(s) * pow2(17)) as int / (pow2(s) as int) == pow2(17)) by {
            vstd::arithmetic::div_mod::lemma_div_by_multiple(pow2(17) as int, pow2(s) as int);
            vstd::arithmetic::mul::lemma_mul_is_commutative(pow2(s) as int, pow2(17) as int);
        }
        // duration >= 2^(s + 16), so duration / 2^s >= 2^16.
        vstd::arithmetic::power2::lemma_pow2_adds(s, 16);
        assert(pow2((len - 1) as nat) == pow2(s) * pow2(16));
        vstd::arithmetic::div_mod::lemma_div_by_multiple(pow2(16) as int, pow2(s) as int);
        vstd::arithmetic::mul::lemma_mul_is_commutative(pow2(s) as int, pow2(16) as int);
        lemma_div_mono((pow2(s) * pow2(16)) as int, duration_ms as int, pow2(s) as int);
    } else {
        assert(s == 0);
        assert(pow2(0) == 1) by {
            lemma2_to64();
        }
        if len < 17 {
            lemma_pow2_le(len, 17);
        }
    }
}

// ---------------------------------------------------------------------------
// Executable primitives
// ---------------------------------------------------------------------------

/// Multiplies two Q0.15 values. Both operands must be in `0..=ONE`; the result is too.
#[inline]
pub fn mul_q15(a: u16, b: u16) -> (r: u16)
    requires
        a <= ONE,
        b <= ONE,
    ensures
        r == mul_q15_spec(a as int, b as int),
        r <= ONE,
{
    assert((a as u32) * (b as u32) <= 32768 * 32768) by (nonlinear_arith)
        requires
            a <= 32768,
            b <= 32768,
    ;
    let p: u32 = a as u32 * b as u32;
    assert(p >> 15u32 == p / 32768) by (bit_vector);
    proof {
        lemma_div_mono(p as int, 1073741824int, 32768);
    }
    (p >> SHIFT) as u16
}

/// Computes elapsed-within-step progress as a Q0.15 fraction, saturating at [`ONE`].
///
/// A zero duration reports fully complete. Both operands are reduced by a shared right
/// shift before dividing, so a 32-bit divide always suffices however long the step is.
#[inline]
pub fn progress_q15(time_ms: u64, duration_ms: u64) -> (r: u16)
    ensures
        r == progress_spec(time_ms, duration_ms),
        r <= ONE,
{
    proof {
        lemma_progress_bounds(time_ms, duration_ms);
    }
    if duration_ms == 0 || time_ms >= duration_ms {
        return ONE;
    }
    let lz: u32 = duration_ms.leading_zeros();
    proof {
        lemma_leading_zeros_bit_len(duration_ms);
        vstd::std_specs::bits::axiom_u64_leading_zeros(duration_ms);
    }
    let significant_bits: u32 = u64::BITS - lz;
    let shift: u32 = significant_bits.saturating_sub(OPERAND_BITS);
    assert(shift == progress_shift(duration_ms));
    proof {
        lemma_shift_operands(time_ms, duration_ms);
        lemma_u64_shr_is_div(time_ms, shift as u64);
        lemma_u64_shr_is_div(duration_ms, shift as u64);
    }
    let numerator: u32 = (time_ms >> shift) as u32;
    let denominator: u32 = (duration_ms >> shift) as u32;
    proof {
        assert(numerator * pow2(15) <= u32::MAX) by {
            assert(pow2(15) == 32768) by {
                lemma2_to64();
            }
            assert(numerator * 32768 <= 0x20000 * 32768) by (nonlinear_arith)
                requires
                    numerator < 0x20000,
            ;
        }
        lemma_u32_shl_is_mul(numerator, 15);
        assert(pow2(15) == 32768) by {
            lemma2_to64();
        }
    }
    ((numerator << SHIFT) / denominator) as u16
}

/// Linearly interpolates one color channel by a Q0.15 factor.
///
/// Branching on direction keeps the product unsigned. `t == ONE` lands exactly on
/// `to`, so transitions finish on their target color.
#[inline]
pub fn lerp_channel(from: u16, to: u16, t: u16) -> (r: u16)
    requires
        0 <= lerp_channel_spec(from as int, to as int, t as int) <= u16::MAX,
    ensures
        r == lerp_channel_spec(from as int, to as int, t as int),
{
    if to >= from {
        let d: u32 = (to - from) as u32;
        assert(d * (t as u32) <= 65535 * 65535) by (nonlinear_arith)
            requires
                d <= 65535,
                t <= 65535,
        ;
        let p: u32 = d * t as u32;
        assert(p >> 15u32 == p / 32768) by (bit_vector);
        from + (p >> SHIFT) as u16
    } else {
        let d: u32 = (from - to) as u32;
        assert(d * (t as u32) <= 65535 * 65535) by (nonlinear_arith)
            requires
                d <= 65535,
                t <= 65535,
        ;
        let p: u32 = d * t as u32;
        assert(p >> 15u32 == p / 32768) by (bit_vector);
        from - (p >> SHIFT) as u16
    }
}

/// A factor within `0..=ONE` never moves a channel past its target.
pub proof fn lemma_lerp_channel_in_range(from: int, to: int, t: int)
    requires
        0 <= from <= u16::MAX,
        0 <= to <= u16::MAX,
        0 <= t <= ONE,
    ensures
        0 <= lerp_channel_spec(from, to, t) <= u16::MAX,
        from <= to ==> from <= lerp_channel_spec(from, to, t) <= to,
        to <= from ==> to <= lerp_channel_spec(from, to, t) <= from,
        t == 0 ==> lerp_channel_spec(from, to, t) == from,
        t == ONE ==> lerp_channel_spec(from, to, t) == to,
{
    if to >= from {
        assert(0 <= (to - from) * t <= (to - from) * 32768) by (nonlinear_arith)
            requires
                0 <= to - from,
                0 <= t <= 32768,
        ;
        lemma_div_mono((to - from) * t, (to - from) * 32768, 32768);
        assert(((to - from) * 32768) / 32768 == to - from) by (nonlinear_arith);
    } else {
        assert(0 <= (from - to) * t <= (from - to) * 32768) by (nonlinear_arith)
            requires
                0 <= from - to,
                0 <= t <= 32768,
        ;
        lemma_div_mono((from - to) * t, (from - to) * 32768, 32768);
        assert(((from - to) * 32768) / 32768 == from - to) by (nonlinear_arith);
    }
}

/// A larger factor moves a channel further toward its target.
pub proof fn lemma_lerp_channel_monotone(from: int, to: int, t1: int, t2: int)
    requires
        0 <= from <= to <= u16::MAX,
        0 <= t1 <= t2 <= ONE,
    ensures
        lerp_channel_spec(from, to, t1) <= lerp_channel_spec(from, to, t2),
{
    assert((to - from) * t1 <= (to - from) * t2) by (nonlinear_arith)
        requires
            0 <= to - from,
            t1 <= t2,
    ;
    assert(0 <= (to - from) * t1) by (nonlinear_arith)
        requires
            0 <= to - from,
            0 <= t1,
    ;
    lemma_div_mono((to - from) * t1, (to - from) * t2, 32768);
}

/// A larger factor moves a channel further toward a lower target.
pub proof fn lemma_lerp_channel_monotone_down(from: int, to: int, t1: int, t2: int)
    requires
        0 <= to <= from <= u16::MAX,
        0 <= t1 <= t2 <= ONE,
    ensures
        lerp_channel_spec(from, to, t1) >= lerp_channel_spec(from, to, t2),
{
    if to < from {
        assert((from - to) * t1 <= (from - to) * t2) by (nonlinear_arith)
            requires
                0 <= from - to,
                t1 <= t2,
        ;
        assert(0 <= (from - to) * t1) by (nonlinear_arith)
            requires
                0 <= from - to,
                0 <= t1,
        ;
        lemma_div_mono((from - to) * t1, (from - to) * t2, 32768);
    }
}

/// Scales a channel by a 16-bit factor where 65535 is unity, rounding to nearest.
///
/// Divides by 65535 via the series `1/65535 = (1 + 2^-16 + 2^-32 + ...) / 65536`. The
/// widest intermediate is `65535 * 65535 + 32768 + 65534`, short of `u32::MAX`.
#[inline]
pub fn scale_channel(value: u16, factor: u16) -> (r: u16)
    ensures
        r == scale_channel_spec(value as int, factor as int),
        r <= value,
        r <= factor,
{
    assert((value as u32) * (factor as u32) <= 65535 * 65535) by (nonlinear_arith)
        requires
            value <= 65535,
            factor <= 65535,
    ;
    let p: u32 = value as u32 * factor as u32;
    // 32768 is the round-to-nearest bias - half a divisor, rounded up.
    let x: u32 = p + 32768;
    proof {
        lemma_scale_65535(p, x);
        lemma_scale_bounds(value as int, factor as int);
    }
    assert(x + (x >> 16u32) <= u32::MAX) by (bit_vector)
        requires
            x <= 65535 * 65535 + 32768,
    ;
    ((x + (x >> 16)) >> 16) as u16
}

/// Rounded scaling never exceeds either operand, and full scale is the identity.
pub proof fn lemma_scale_bounds(value: int, factor: int)
    requires
        0 <= value <= u16::MAX,
        0 <= factor <= u16::MAX,
    ensures
        0 <= scale_channel_spec(value, factor) <= value,
        scale_channel_spec(value, factor) <= factor,
        factor == u16::MAX ==> scale_channel_spec(value, factor) == value,
        factor == 0 ==> scale_channel_spec(value, factor) == 0,
{
    assert(0 <= value * factor <= value * 65535) by (nonlinear_arith)
        requires
            0 <= value,
            0 <= factor <= 65535,
    ;
    assert(value * factor <= 65535 * factor) by (nonlinear_arith)
        requires
            0 <= factor,
            value <= 65535,
    ;
    assert((value * 65535 + 32767) / 65535 == value) by (nonlinear_arith)
        requires
            0 <= value,
    ;
    assert((factor * 65535 + 32767) / 65535 == factor) by (nonlinear_arith)
        requires
            0 <= factor,
    ;
    lemma_div_mono(value * factor + 32767, value * 65535 + 32767, 65535);
    lemma_div_mono(value * factor + 32767, 65535 * factor + 32767, 65535);
}

/// Divides by 65535, truncating, for products of two values in `0..=65535`.
///
/// The same reciprocal series as [`scale_channel`] but without the rounding bias, so
/// it reproduces a plain `/ 65535` bit for bit while costing only shifts.
#[inline]
pub fn div_65535(x: u32) -> (r: u32)
    requires
        x <= 65535 * 65535,
    ensures
        r == x / 65535,
{
    proof {
        lemma_div_65535(x);
    }
    assert(x + (x >> 16u32) + 1 <= u32::MAX) by (bit_vector)
        requires
            x <= 65535 * 65535,
    ;
    (x + (x >> 16) + 1) >> 16
}

/// Applies a transition's easing curve to linear Q0.15 progress.
#[inline]
pub fn ease_q15(t: u16, transition: TransitionStyle) -> (r: u16)
    requires
        t <= ONE,
    ensures
        r == ease_spec(t as int, transition),
        r <= ONE,
{
    proof {
        lemma_ease_bounds(t as int, transition);
    }
    let tt: u32 = t as u32;
    assert(tt * tt <= 32768 * 32768) by (nonlinear_arith)
        requires
            tt <= 32768,
    ;
    match transition {
        TransitionStyle::Step => t,
        TransitionStyle::Linear => t,
        TransitionStyle::EaseIn => mul_q15(t, t),
        TransitionStyle::EaseOut => {
            assert(tt * (65536 - tt) <= 32768 * 32768) by (nonlinear_arith)
                requires
                    tt <= 32768,
            ;
            ((tt * (65536 - tt)) / 32768) as u16
        },
        TransitionStyle::EaseInOut => {
            if t < HALF {
                ((tt * tt) / 16384) as u16
            } else {
                let u: u32 = 32768 - tt;
                assert(u * u <= 16384 * 16384) by (nonlinear_arith)
                    requires
                        u <= 16384,
                ;
                (32768 - (u * u) / 16384) as u16
            }
        },
        TransitionStyle::EaseOutIn => {
            if t < HALF {
                assert(tt * (32768 - tt) <= 16384 * 32768) by (nonlinear_arith)
                    requires
                        tt <= 16384,
                ;
                ((tt * (32768 - tt)) / 16384) as u16
            } else {
                let u: u32 = tt - 16384;
                assert(u * u <= 16384 * 16384) by (nonlinear_arith)
                    requires
                        u <= 16384,
                ;
                (16384 + (u * u) / 16384) as u16
            }
        },
    }
}

} // verus!

//! The three brightness scaling curves.
//!
//! Each curve maps a logical brightness `val` from the logical range
//! `[in_min, in_max]` onto the hardware range `[hw_min, hw_max]`.  All three
//! are total: a degenerate hardware range yields `max(hw_min, 0)`, and values
//! outside the logical range are clamped to the hardware endpoints.

use vstd::prelude::*;
use vstd::arithmetic::div_mod::{
    lemma_div_is_ordered, lemma_div_pos_is_pos, lemma_multiply_divide_le, lemma_multiply_divide_lt,
};
use vstd::arithmetic::mul::{lemma_mul_inequality, lemma_mul_nonnegative, lemma_mul_upper_bound};

verus! {

/// Larger of two integers.
pub open spec fn spec_max(a: int, b: int) -> int {
    if a >= b {
        a
    } else {
        b
    }
}

/// `x` forced into `[lo, hi]`.
pub open spec fn spec_clamp(x: int, lo: int, hi: int) -> int
    recommends
        lo <= hi,
{
    if x < lo {
        lo
    } else if x > hi {
        hi
    } else {
        x
    }
}

/// Nearest integer to the exact quotient `a / b` (for `b > 0`), with ties
/// rounded away from zero.
pub open spec fn spec_div_round(a: int, b: int) -> int
    recommends
        b > 0,
{
    if a >= 0 {
        (2 * a + b) / (2 * b)
    } else {
        -((2 * (-a) + b) / (2 * b))
    }
}

/// The fixed three-segment perceptual table: a percentage 0..=100 of the
/// logical range becomes a position on the 0..511 internal scale.  Inputs
/// outside 0..=100 saturate at the top of the scale.
pub open spec fn spec_curved_internal(percent: int) -> int {
    if 0 <= percent && percent <= 70 {
        1 + 56 * percent / 70
    } else if 71 <= percent && percent <= 90 {
        57 + 197 * (percent - 70) / 20
    } else if 91 <= percent && percent <= 100 {
        254 + 257 * (percent - 90) / 10
    } else {
        511
    }
}

/// Perceptual curve: percentage into the logical range, through the internal
/// table, rescaled onto the hardware range.  A degenerate logical range is
/// first narrowed to the non-empty range `[min(in_min, in_max - 1), in_max]`.
pub open spec fn spec_scale_curved(val: int, hw_min: int, hw_max: int, in_min: int, in_max: int) -> int {
    if hw_min >= hw_max {
        spec_max(hw_min, 0)
    } else {
        let lo = if in_min <= in_max - 1 {
            in_min
        } else {
            in_max - 1
        };
        if val <= lo {
            hw_min
        } else if val >= in_max {
            hw_max
        } else {
            let percent = (val - lo) * 100 / (in_max - lo);
            spec_clamp(
                hw_min + spec_curved_internal(percent) * (hw_max - hw_min) / 511,
                hw_min,
                hw_max,
            )
        }
    }
}

/// Straight proportional map, rounded to the nearest hardware step.
pub open spec fn spec_scale_linear(val: int, hw_min: int, hw_max: int, in_min: int, in_max: int) -> int {
    if hw_min >= hw_max {
        spec_max(hw_min, 0)
    } else if val <= in_min {
        hw_min
    } else if val >= in_max {
        hw_max
    } else {
        hw_min + spec_div_round((val - in_min) * (hw_max - hw_min), in_max - in_min)
    }
}

/// Two-segment map with a knee: 75% of the logical range is pinned to the
/// fixed mid-point output 255; below the knee the output runs over
/// `[hw_min, 255]`, above it over `[255, hw_max]`.
pub open spec fn spec_scale_custom(val: int, hw_min: int, hw_max: int, in_min: int, in_max: int) -> int {
    if hw_min >= hw_max {
        spec_max(hw_min, 0)
    } else if val <= in_min {
        hw_min
    } else if val >= in_max {
        hw_max
    } else {
        let d = in_max - in_min;
        let num = val - in_min;
        if 4 * num <= 3 * d {
            hw_min + spec_div_round(4 * num * (255 - hw_min), 3 * d)
        } else {
            255 + spec_div_round((4 * num - 3 * d) * (hw_max - 255), d)
        }
    }
}

/// Law: with valid ranges the curved scale pins values at or below `in_min`
/// to `hw_min`, values at or above `in_max` to `hw_max`, and never leaves
/// `[hw_min, hw_max]`.
pub proof fn lemma_scale_curved_clamps(val: int, hw_min: int, hw_max: int, in_min: int, in_max: int)
    requires
        hw_min < hw_max,
        in_min < in_max,
    ensures
        val <= in_min ==> spec_scale_curved(val, hw_min, hw_max, in_min, in_max) == hw_min,
        val >= in_max ==> spec_scale_curved(val, hw_min, hw_max, in_min, in_max) == hw_max,
        hw_min <= spec_scale_curved(val, hw_min, hw_max, in_min, in_max) <= hw_max,
{
}

/// Law: with valid ranges the curved scale is monotone non-decreasing in the
/// input value.
pub proof fn lemma_scale_curved_monotone(v1: int, v2: int, hw_min: int, hw_max: int, in_min: int, in_max: int)
    requires
        hw_min < hw_max,
        in_min < in_max,
        v1 <= v2,
    ensures
        spec_scale_curved(v1, hw_min, hw_max, in_min, in_max)
            <= spec_scale_curved(v2, hw_min, hw_max, in_min, in_max),
{
    lemma_scale_curved_clamps(v1, hw_min, hw_max, in_min, in_max);
    lemma_scale_curved_clamps(v2, hw_min, hw_max, in_min, in_max);
    if in_min < v1 && v2 < in_max {
        let d = in_max - in_min;
        let a1 = (v1 - in_min) * 100;
        let a2 = (v2 - in_min) * 100;
        let p1 = a1 / d;
        let p2 = a2 / d;
        lemma_div_is_ordered(a1, a2, d);
        lemma_div_pos_is_pos(a1, d);
        lemma_multiply_divide_lt(a2, d, 100);
        lemma_curved_internal_monotone(p1, p2);
        lemma_curved_internal_bounds(p1);
        lemma_curved_internal_bounds(p2);
        let hwd = hw_max - hw_min;
        lemma_mul_inequality(spec_curved_internal(p1), spec_curved_internal(p2), hwd);
        lemma_div_is_ordered(
            spec_curved_internal(p1) * hwd,
            spec_curved_internal(p2) * hwd,
            511,
        );
    }
}

/// Law: with valid ranges the linear scale pins values at or below `in_min`
/// to `hw_min`, values at or above `in_max` to `hw_max`, and never leaves
/// `[hw_min, hw_max]`.
pub proof fn lemma_scale_linear_clamps(val: int, hw_min: int, hw_max: int, in_min: int, in_max: int)
    requires
        hw_min < hw_max,
        in_min < in_max,
    ensures
        val <= in_min ==> spec_scale_linear(val, hw_min, hw_max, in_min, in_max) == hw_min,
        val >= in_max ==> spec_scale_linear(val, hw_min, hw_max, in_min, in_max) == hw_max,
        hw_min <= spec_scale_linear(val, hw_min, hw_max, in_min, in_max) <= hw_max,
{
    if in_min < val && val < in_max {
        let d = in_max - in_min;
        let hwd = hw_max - hw_min;
        lemma_mul_nonnegative(val - in_min, hwd);
        lemma_mul_inequality(val - in_min, d, hwd);
        lemma_div_round_le((val - in_min) * hwd, d, hwd);
    }
}

/// Law: with valid ranges the linear scale is monotone non-decreasing in the
/// input value.
pub proof fn lemma_scale_linear_monotone(v1: int, v2: int, hw_min: int, hw_max: int, in_min: int, in_max: int)
    requires
        hw_min < hw_max,
        in_min < in_max,
        v1 <= v2,
    ensures
        spec_scale_linear(v1, hw_min, hw_max, in_min, in_max)
            <= spec_scale_linear(v2, hw_min, hw_max, in_min, in_max),
{
    lemma_scale_linear_clamps(v1, hw_min, hw_max, in_min, in_max);
    lemma_scale_linear_clamps(v2, hw_min, hw_max, in_min, in_max);
    if in_min < v1 && v2 < in_max {
        let d = in_max - in_min;
        let hwd = hw_max - hw_min;
        lemma_mul_nonnegative(v1 - in_min, hwd);
        lemma_mul_inequality(v1 - in_min, v2 - in_min, hwd);
        lemma_div_round_ordered((v1 - in_min) * hwd, (v2 - in_min) * hwd, d);
    }
}

/// Law: the custom scale pins values at or below `in_min` to `hw_min` and
/// values at or above `in_max` to `hw_max` whenever the hardware range is
/// valid.
pub proof fn lemma_scale_custom_endpoints(val: int, hw_min: int, hw_max: int, in_min: int, in_max: int)
    requires
        hw_min < hw_max,
        in_min < in_max,
    ensures
        val <= in_min ==> spec_scale_custom(val, hw_min, hw_max, in_min, in_max) == hw_min,
        val >= in_max ==> spec_scale_custom(val, hw_min, hw_max, in_min, in_max) == hw_max,
{
}

/// The interior value of the custom scale sits in `[hw_min, 255]` below the
/// knee and in `[255, hw_max]` above it, once the fixed mid-point 255 lies
/// inside the hardware range.
proof fn lemma_scale_custom_interior(val: int, hw_min: int, hw_max: int, in_min: int, in_max: int)
    requires
        hw_min <= 255 <= hw_max,
        hw_min < hw_max,
        in_min < val < in_max,
    ensures
        4 * (val - in_min) <= 3 * (in_max - in_min) ==> hw_min <= spec_scale_custom(
            val,
            hw_min,
            hw_max,
            in_min,
            in_max,
        ) <= 255,
        4 * (val - in_min) > 3 * (in_max - in_min) ==> 255 <= spec_scale_custom(
            val,
            hw_min,
            hw_max,
            in_min,
            in_max,
        ) <= hw_max,
{
    let d = in_max - in_min;
    let num = val - in_min;
    if 4 * num <= 3 * d {
        lemma_mul_nonnegative(4 * num, 255 - hw_min);
        lemma_mul_inequality(4 * num, 3 * d, 255 - hw_min);
        lemma_div_round_le(4 * num * (255 - hw_min), 3 * d, 255 - hw_min);
    } else {
        let e = 4 * num - 3 * d;
        lemma_mul_nonnegative(e, hw_max - 255);
        lemma_mul_inequality(e, d, hw_max - 255);
        lemma_div_round_le(e * (hw_max - 255), d, hw_max - 255);
    }
}

/// Law: once the fixed mid-point 255 lies inside a valid hardware range, the
/// custom scale never leaves `[hw_min, hw_max]`.
pub proof fn lemma_scale_custom_bounds(val: int, hw_min: int, hw_max: int, in_min: int, in_max: int)
    requires
        hw_min <= 255 <= hw_max,
        hw_min < hw_max,
        in_min < in_max,
    ensures
        hw_min <= spec_scale_custom(val, hw_min, hw_max, in_min, in_max) <= hw_max,
{
    if in_min < val && val < in_max {
        lemma_scale_custom_interior(val, hw_min, hw_max, in_min, in_max);
    }
}

/// Law: once the fixed mid-point 255 lies inside a valid hardware range, the
/// custom scale is monotone non-decreasing in the input value.
pub proof fn lemma_scale_custom_monotone(v1: int, v2: int, hw_min: int, hw_max: int, in_min: int, in_max: int)
    requires
        hw_min <= 255 <= hw_max,
        hw_min < hw_max,
        in_min < in_max,
        v1 <= v2,
    ensures
        spec_scale_custom(v1, hw_min, hw_max, in_min, in_max)
            <= spec_scale_custom(v2, hw_min, hw_max, in_min, in_max),
{
    lemma_scale_custom_bounds(v1, hw_min, hw_max, in_min, in_max);
    lemma_scale_custom_bounds(v2, hw_min, hw_max, in_min, in_max);
    if in_min < v1 && v2 < in_max {
        lemma_scale_custom_interior(v1, hw_min, hw_max, in_min, in_max);
        lemma_scale_custom_interior(v2, hw_min, hw_max, in_min, in_max);
        let d = in_max - in_min;
        let n1 = v1 - in_min;
        let n2 = v2 - in_min;
        if 4 * n2 <= 3 * d {
            lemma_mul_nonnegative(4 * n1, 255 - hw_min);
            lemma_mul_inequality(4 * n1, 4 * n2, 255 - hw_min);
            lemma_div_round_ordered(4 * n1 * (255 - hw_min), 4 * n2 * (255 - hw_min), 3 * d);
        } else if 4 * n1 > 3 * d {
            lemma_mul_nonnegative(4 * n1 - 3 * d, hw_max - 255);
            lemma_mul_inequality(4 * n1 - 3 * d, 4 * n2 - 3 * d, hw_max - 255);
            lemma_div_round_ordered(
                (4 * n1 - 3 * d) * (hw_max - 255),
                (4 * n2 - 3 * d) * (hw_max - 255),
                d,
            );
        }
    }
}

/// Rounded division on machine words, for numerators that fit comfortably
/// below `u128::MAX / 4`.
fn div_round_exec(a: u128, b: u128) -> (r: u128)
    requires
        1 <= b <= u128::MAX / 4,
        a <= u128::MAX / 4,
    ensures
        r as int == spec_div_round(a as int, b as int),
{
    (2 * a + b) / (2 * b)
}

/// The nearest integer to `a / b` lies in `[0, m]` whenever `0 <= a <= b * m`.
proof fn lemma_div_round_le(a: int, b: int, m: int)
    requires
        b > 0,
        0 <= a,
        a <= b * m,
    ensures
        0 <= spec_div_round(a, b) <= m,
{
    lemma_div_pos_is_pos(2 * a + b, 2 * b);
    assert(2 * a + b < (2 * b) * (m + 1)) by (nonlinear_arith)
        requires
            b > 0,
            0 <= a,
            a <= b * m,
    ;
    lemma_multiply_divide_lt(2 * a + b, 2 * b, m + 1);
}

/// Rounded division is monotone in the numerator.
proof fn lemma_div_round_ordered(a1: int, a2: int, b: int)
    requires
        b > 0,
        0 <= a1 <= a2,
    ensures
        spec_div_round(a1, b) <= spec_div_round(a2, b),
{
    lemma_div_is_ordered(2 * a1 + b, 2 * a2 + b, 2 * b);
}

/// The internal table always lands on the 1..=511 scale.
pub proof fn lemma_curved_internal_bounds(percent: int)
    ensures
        1 <= spec_curved_internal(percent) <= 511,
{
    if 0 <= percent && percent <= 70 {
        lemma_div_pos_is_pos(56 * percent, 70);
        lemma_multiply_divide_le(56 * percent, 70, 56);
    } else if 71 <= percent && percent <= 90 {
        lemma_div_pos_is_pos(197 * (percent - 70), 20);
        lemma_multiply_divide_le(197 * (percent - 70), 20, 197);
    } else if 91 <= percent && percent <= 100 {
        lemma_div_pos_is_pos(257 * (percent - 90), 10);
        lemma_multiply_divide_le(257 * (percent - 90), 10, 257);
    }
}

/// On the percentage domain the internal table never steps downward.
pub proof fn lemma_curved_internal_monotone(p1: int, p2: int)
    requires
        0 <= p1 <= p2 <= 100,
    ensures
        spec_curved_internal(p1) <= spec_curved_internal(p2),
{
    lemma_curved_internal_bounds(p1);
    lemma_curved_internal_bounds(p2);
    if p2 <= 70 {
        lemma_div_is_ordered(56 * p1, 56 * p2, 70);
    } else if 71 <= p1 && p2 <= 90 {
        lemma_div_is_ordered(197 * (p1 - 70), 197 * (p2 - 70), 20);
    } else if 91 <= p1 {
        lemma_div_is_ordered(257 * (p1 - 90), 257 * (p2 - 90), 10);
    } else if p1 <= 70 && 71 <= p2 && p2 <= 90 {
        // table value at or below 70 tops out at 57, and the middle segment
        // starts no lower than 57 + 197/20
        lemma_multiply_divide_le(56 * p1, 70, 56);
        lemma_div_pos_is_pos(197 * (p2 - 70), 20);
    } else if p1 <= 70 && 91 <= p2 {
        lemma_multiply_divide_le(56 * p1, 70, 56);
        lemma_div_pos_is_pos(257 * (p2 - 90), 10);
    } else if 71 <= p1 && p1 <= 90 && 91 <= p2 {
        lemma_multiply_divide_le(197 * (p1 - 70), 20, 197);
        lemma_div_pos_is_pos(257 * (p2 - 90), 10);
    }
}

/// The internal perceptual table as executable code.
pub fn curved_internal_value(percent: i32) -> (r: i32)
    ensures
        r as int == spec_curved_internal(percent as int),
{
    if 0 <= percent && percent <= 70 {
        1 + 56 * percent / 70
    } else if 71 <= percent && percent <= 90 {
        57 + 197 * (percent - 70) / 20
    } else if 91 <= percent && percent <= 100 {
        254 + 257 * (percent - 90) / 10
    } else {
        511
    }
}

/// Perceptual gamma-compression curve over the fixed piecewise table.
pub fn scale_brightness_curved(val: i32, hw_min: i32, hw_max: i32, input_min: i32, input_max: i32) -> (r: i32)
    ensures
        r as int == spec_scale_curved(
            val as int,
            hw_min as int,
            hw_max as int,
            input_min as int,
            input_max as int,
        ),
{
    if hw_min >= hw_max {
        return if hw_min >= 0 {
            hw_min
        } else {
            0
        };
    }
    let v: i64 = val as i64;
    let imax: i64 = input_max as i64;
    let lo: i64 = if (input_min as i64) <= imax - 1 {
        input_min as i64
    } else {
        imax - 1
    };
    if v <= lo {
        return hw_min;
    }
    if v >= imax {
        return hw_max;
    }
    let num: u64 = (v - lo) as u64;
    let den: u64 = (imax - lo) as u64;
    let percent: u64 = num * 100 / den;
    proof {
        lemma_div_pos_is_pos(num as int * 100, den as int);
        assert(num as int * 100 < den as int * 100) by (nonlinear_arith)
            requires
                num < den,
        ;
        lemma_multiply_divide_lt(num as int * 100, den as int, 100);
    }
    proof {
        lemma_curved_internal_bounds(percent as int);
    }
    let internal: u64 = curved_internal_value(percent as i32) as u64;
    let hwd: u64 = (hw_max as i64 - hw_min as i64) as u64;
    proof {
        assert(internal as int * hwd as int <= 511 * 0x1_0000_0000) by (nonlinear_arith)
            requires
                0 <= internal as int <= 511,
                0 <= hwd as int <= 0x1_0000_0000,
        ;
    }
    let q: u64 = internal * hwd / 511;
    proof {
        lemma_div_pos_is_pos(internal as int * hwd as int, 511);
        assert(internal as int * hwd as int <= 511 * hwd as int) by (nonlinear_arith)
            requires
                0 <= internal as int <= 511,
                0 <= hwd as int,
        ;
        lemma_multiply_divide_le(internal as int * hwd as int, 511, hwd as int);
    }
    let mut r: i64 = hw_min as i64 + q as i64;
    if r < hw_min as i64 {
        r = hw_min as i64;
    }
    if r > hw_max as i64 {
        r = hw_max as i64;
    }
    r as i32
}

/// Straight proportional map, rounded to the nearest hardware step.
pub fn scale_brightness_linear(val: i32, hw_min: i32, hw_max: i32, input_min: i32, input_max: i32) -> (r: i32)
    ensures
        r as int == spec_scale_linear(
            val as int,
            hw_min as int,
            hw_max as int,
            input_min as int,
            input_max as int,
        ),
{
    if hw_min >= hw_max {
        return if hw_min >= 0 {
            hw_min
        } else {
            0
        };
    }
    if val <= input_min {
        return hw_min;
    }
    if val >= input_max {
        return hw_max;
    }
    let num: u128 = (val as i64 - input_min as i64) as u128;
    let d: u128 = (input_max as i64 - input_min as i64) as u128;
    let hwd: u128 = (hw_max as i64 - hw_min as i64) as u128;
    proof {
        lemma_mul_upper_bound(num as int, 0x1_0000_0000, hwd as int, 0x1_0000_0000);
        lemma_mul_inequality(num as int, d as int, hwd as int);
    }
    let q: u128 = div_round_exec(num * hwd, d);
    proof {
        lemma_div_round_le(num as int * hwd as int, d as int, hwd as int);
    }
    (hw_min as i64 + q as i64) as i32
}

/// Two-segment map with the fixed knee at 75% of the logical range.
pub fn scale_brightness_custom(val: i32, hw_min: i32, hw_max: i32, input_min: i32, input_max: i32) -> (r: i32)
    ensures
        r as int == spec_scale_custom(
            val as int,
            hw_min as int,
            hw_max as int,
            input_min as int,
            input_max as int,
        ),
{
    if hw_min >= hw_max {
        return if hw_min >= 0 {
            hw_min
        } else {
            0
        };
    }
    if val <= input_min {
        return hw_min;
    }
    if val >= input_max {
        return hw_max;
    }
    let ghost vv: int = val as int;
    let ghost hm: int = hw_min as int;
    let ghost hx: int = hw_max as int;
    let ghost im: int = input_min as int;
    let ghost ix: int = input_max as int;
    let num: u128 = (val as i64 - input_min as i64) as u128;
    let d: u128 = (input_max as i64 - input_min as i64) as u128;
    if 4 * num <= 3 * d {
        if hw_min <= 255 {
            let mag: u128 = (255i64 - hw_min as i64) as u128;
            proof {
                assert(4 * num as int * mag as int <= 4 * 0x1_0000_0000 * 0x1_0000_0000
                    && 0 <= 4 * num as int * mag as int) by (nonlinear_arith)
                    requires
                        0 <= num as int <= 0x1_0000_0000,
                        0 <= mag as int <= 0x1_0000_0000,
                ;
                lemma_mul_inequality(4 * num as int, 3 * d as int, mag as int);
                assert(4 * (vv - im) * (255 - hm) == 4 * num as int * mag as int) by (nonlinear_arith)
                    requires
                        num as int == vv - im,
                        mag as int == 255 - hm,
                ;
            }
            let q: u128 = div_round_exec(4 * num * mag, 3 * d);
            proof {
                lemma_div_round_le(4 * num as int * mag as int, 3 * d as int, mag as int);
            }
            (hw_min as i64 + q as i64) as i32
        } else {
            let mag: u128 = (hw_min as i64 - 255i64) as u128;
            proof {
                assert(4 * num as int * mag as int <= 4 * 0x1_0000_0000 * 0x1_0000_0000
                    && 0 < 4 * num as int * mag as int) by (nonlinear_arith)
                    requires
                        1 <= num as int <= 0x1_0000_0000,
                        1 <= mag as int <= 0x1_0000_0000,
                ;
                lemma_mul_inequality(4 * num as int, 3 * d as int, mag as int);
                assert(4 * (vv - im) * (255 - hm) == -(4 * num as int * mag as int)) by (nonlinear_arith)
                    requires
                        num as int == vv - im,
                        mag as int == hm - 255,
                ;
            }
            let q: u128 = div_round_exec(4 * num * mag, 3 * d);
            proof {
                lemma_div_round_le(4 * num as int * mag as int, 3 * d as int, mag as int);
            }
            (hw_min as i64 - q as i64) as i32
        }
    } else {
        let e: u128 = 4 * num - 3 * d;
        proof {
            assert(e as int <= d as int) by {
                assert(4 * num as int <= 4 * d as int - 4);
            }
        }
        if hw_max >= 255 {
            let mag: u128 = (hw_max as i64 - 255i64) as u128;
            proof {
                assert(e as int * mag as int <= 4 * 0x1_0000_0000 * 0x1_0000_0000
                    && 0 <= e as int * mag as int) by (nonlinear_arith)
                    requires
                        0 <= e as int <= 4 * 0x1_0000_0000,
                        0 <= mag as int <= 0x1_0000_0000,
                ;
                lemma_mul_inequality(e as int, d as int, mag as int);
                assert((4 * (vv - im) - 3 * (ix - im)) * (hx - 255) == e as int * mag as int)
                    by (nonlinear_arith)
                    requires
                        e as int == 4 * (vv - im) - 3 * (ix - im),
                        mag as int == hx - 255,
                ;
            }
            let q: u128 = div_round_exec(e * mag, d);
            proof {
                lemma_div_round_le(e as int * mag as int, d as int, mag as int);
            }
            (255i64 + q as i64) as i32
        } else {
            let mag: u128 = (255i64 - hw_max as i64) as u128;
            proof {
                assert(e as int * mag as int <= 4 * 0x1_0000_0000 * 0x1_0000_0000
                    && 0 < e as int * mag as int) by (nonlinear_arith)
                    requires
                        1 <= e as int <= 4 * 0x1_0000_0000,
                        1 <= mag as int <= 0x1_0000_0000,
                ;
                lemma_mul_inequality(e as int, d as int, mag as int);
                assert((4 * (vv - im) - 3 * (ix - im)) * (hx - 255) == -(e as int * mag as int))
                    by (nonlinear_arith)
                    requires
                        e as int == 4 * (vv - im) - 3 * (ix - im),
                        mag as int == 255 - hx,
                ;
            }
            let q: u128 = div_round_exec(e * mag, d);
            proof {
                lemma_div_round_le(e as int * mag as int, d as int, mag as int);
            }
            (255i64 - q as i64) as i32
        }
    }
}

} // verus!

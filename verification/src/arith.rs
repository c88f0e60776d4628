//! Small integer helpers shared by the color model and the analog sampler:
//! truncating and round-to-nearest division with a positive divisor, and
//! clamping into the `i32` range.

use vstd::prelude::*;

verus! {

/// Truncating division (rounds toward zero), the behaviour of Rust's `/`
/// on signed integers, for a positive divisor.
pub open spec fn trunc_div(n: int, d: int) -> int
    recommends
        1 <= d,
{
    if n >= 0 {
        n / d
    } else {
        -((-n) / d)
    }
}

/// Division rounded to the nearest integer, ties away from zero, for a
/// positive divisor.
pub open spec fn round_div(n: int, d: int) -> int
    recommends
        1 <= d,
{
    if n >= 0 {
        (n + d / 2) / d
    } else {
        -((-n + d / 2) / d)
    }
}

/// Clamp an integer into the `i32` range.
pub open spec fn sat_i32(x: int) -> int {
    if x < i32::MIN {
        i32::MIN as int
    } else if x > i32::MAX {
        i32::MAX as int
    } else {
        x
    }
}

pub fn trunc_div_i64(n: i64, d: i64) -> (r: i64)
    requires
        1 <= d,
        i64::MIN < n,
    ensures
        r == trunc_div(n as int, d as int),
        n >= 0 ==> 0 <= r <= n,
        n < 0 ==> n <= r <= 0,
{
    if n >= 0 {
        n / d
    } else {
        -((-n) / d)
    }
}

pub fn trunc_div_i128(n: i128, d: i128) -> (r: i128)
    requires
        1 <= d,
        i128::MIN < n,
    ensures
        r == trunc_div(n as int, d as int),
        n >= 0 ==> 0 <= r <= n,
        n < 0 ==> n <= r <= 0,
{
    if n >= 0 {
        n / d
    } else {
        -((-n) / d)
    }
}

pub fn round_div_i64(n: i64, d: i64) -> (r: i64)
    requires
        1 <= d,
        -0x100_0000_0000 <= n <= 0x100_0000_0000,
    ensures
        r == round_div(n as int, d as int),
{
    if n >= 0 {
        (n + d / 2) / d
    } else {
        -((-n + d / 2) / d)
    }
}

pub fn clamp_to_i32(x: i64) -> (r: i32)
    ensures
        r == sat_i32(x as int),
{
    if x < i32::MIN as i64 {
        i32::MIN
    } else if x > i32::MAX as i64 {
        i32::MAX
    } else {
        x as i32
    }
}

/// Rounding toward nearest never strays further from zero than the exact
/// quotient's ceiling; in particular a quotient of magnitude at most `b`
/// rounds to a value of magnitude at most `b` whenever `|n| <= b * d`.
pub proof fn lemma_round_div_bound(n: int, d: int, b: int)
    requires
        1 <= d,
        0 <= b,
        -(b * d) <= n <= b * d,
    ensures
        -b <= round_div(n, d) <= b,
{
    if n >= 0 {
        assert(n + d / 2 <= b * d + d / 2);
        assert((n + d / 2) / d <= (b * d + d / 2) / d) by {
            vstd::arithmetic::div_mod::lemma_div_is_ordered(n + d / 2, b * d + d / 2, d);
        }
        assert((b * d + d / 2) / d == b + (d / 2) / d) by {
            vstd::arithmetic::div_mod::lemma_hoist_over_denominator(d / 2, b, d as nat);
        }
        assert((d / 2) / d == 0) by {
            vstd::arithmetic::div_mod::lemma_basic_div(d / 2, d);
        }
        assert((n + d / 2) / d >= 0) by {
            vstd::arithmetic::div_mod::lemma_div_pos_is_pos(n + d / 2, d);
        }
    } else {
        assert(-n + d / 2 <= b * d + d / 2);
        assert((-n + d / 2) / d <= (b * d + d / 2) / d) by {
            vstd::arithmetic::div_mod::lemma_div_is_ordered(-n + d / 2, b * d + d / 2, d);
        }
        assert((b * d + d / 2) / d == b + (d / 2) / d) by {
            vstd::arithmetic::div_mod::lemma_hoist_over_denominator(d / 2, b, d as nat);
        }
        assert((d / 2) / d == 0) by {
            vstd::arithmetic::div_mod::lemma_basic_div(d / 2, d);
        }
        assert((-n + d / 2) / d >= 0) by {
            vstd::arithmetic::div_mod::lemma_div_pos_is_pos(-n + d / 2, d);
        }
    }
}

/// A truncated quotient has magnitude at most `b` whenever `|n| <= b * d`.
pub proof fn lemma_trunc_div_bound(n: int, d: int, b: int)
    requires
        1 <= d,
        0 <= b,
        -(b * d) <= n <= b * d,
    ensures
        -b <= trunc_div(n, d) <= b,
{
    if n >= 0 {
        assert(n / d <= (b * d) / d) by {
            vstd::arithmetic::div_mod::lemma_div_is_ordered(n, b * d, d);
        }
        assert((b * d) / d == b) by {
            vstd::arithmetic::div_mod::lemma_div_by_multiple(b, d);
        }
        assert(n / d >= 0) by {
            vstd::arithmetic::div_mod::lemma_div_pos_is_pos(n, d);
        }
    } else {
        assert((-n) / d <= (b * d) / d) by {
            vstd::arithmetic::div_mod::lemma_div_is_ordered(-n, b * d, d);
        }
        assert((b * d) / d == b) by {
            vstd::arithmetic::div_mod::lemma_div_by_multiple(b, d);
        }
        assert((-n) / d >= 0) by {
            vstd::arithmetic::div_mod::lemma_div_pos_is_pos(-n, d);
        }
    }
}

} // verus!

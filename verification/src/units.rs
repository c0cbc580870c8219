//! Byte counts, megabytes and rounding.

use vstd::prelude::*;

verus! {

/// Bytes in one megabyte.
pub const MB: u64 = 1048576;

/// The smaller of two integers.
pub open spec fn min_int(a: int, b: int) -> int {
    if a <= b {
        a
    } else {
        b
    }
}

/// The larger of two integers.
pub open spec fn max_int(a: int, b: int) -> int {
    if a >= b {
        a
    } else {
        b
    }
}

/// `value` moved into `low..=high`.
pub open spec fn clamp_int(value: int, low: int, high: int) -> int {
    if value < low {
        low
    } else if value > high {
        high
    } else {
        value
    }
}

/// `value` cut off at the largest `u64`.
pub open spec fn saturated(value: int) -> int {
    min_int(value, u64::MAX as int)
}

/// `a / b`, rounded up.
pub open spec fn ceil_div(a: int, b: int) -> int {
    (a + b - 1) / b
}

pub fn min_u64(a: u64, b: u64) -> (r: u64)
    ensures
        r == min_int(a as int, b as int),
{
    if a <= b {
        a
    } else {
        b
    }
}

pub fn max_u64(a: u64, b: u64) -> (r: u64)
    ensures
        r == max_int(a as int, b as int),
{
    if a >= b {
        a
    } else {
        b
    }
}

pub fn min_usize(a: usize, b: usize) -> (r: usize)
    ensures
        r == min_int(a as int, b as int),
{
    if a <= b {
        a
    } else {
        b
    }
}

pub fn max_usize(a: usize, b: usize) -> (r: usize)
    ensures
        r == max_int(a as int, b as int),
{
    if a >= b {
        a
    } else {
        b
    }
}

/// The product of `a` and `b`, or the largest `u64` where that does not fit.
pub fn saturating_mul_u64(a: u64, b: u64) -> (r: u64)
    ensures
        r == saturated(a * b),
{
    match a.checked_mul(b) {
        Some(v) => v,
        None => u64::MAX,
    }
}

/// `a / b`, rounded up.
pub fn div_ceil_u64(a: u64, b: u64) -> (r: u64)
    requires
        b > 0,
    ensures
        r == ceil_div(a as int, b as int),
        r <= a,
        r * b >= a,
        a > 0 ==> (r - 1) * b < a,
{
    let q: u64 = a / b;
    let rem: u64 = a % b;
    proof {
        let (x, y, z) = (a as int, b as int, q as int);
        assert(x == y * (x / y) + x % y && 0 <= x % y < y) by (nonlinear_arith)
            requires
                y > 0,
        ;
        if rem == 0 {
            assert((x + y - 1) / y == z && z * y == x && (x > 0 ==> (z - 1) * y < x) && z <= x) by (nonlinear_arith)
                requires
                    x == y * z,
                    y > 0,
                    x >= 0,
                    z >= 0,
            ;
        } else {
            let m = x % y;
            assert((x + y - 1) / y == z + 1 && (z + 1) * y >= x && z * y < x && z + 1 <= x) by (nonlinear_arith)
                requires
                    x == y * z + m,
                    0 < m < y,
                    x >= 0,
                    z >= 0,
            ;
        }
    }
    if rem == 0 {
        q
    } else {
        q + 1
    }
}

/// The largest multiple of `alignment` that does not exceed `value`; `value`
/// itself where there is no alignment.
pub open spec fn aligned_down(value: int, alignment: int) -> int {
    if alignment == 0 {
        value
    } else {
        value - value % alignment
    }
}

pub fn align_down(value: u64, alignment: u64) -> (r: u64)
    ensures
        r == aligned_down(value as int, alignment as int),
        r <= value,
{
    if alignment == 0 {
        value
    } else {
        assert(0 <= value as int % alignment as int <= value) by (nonlinear_arith)
            requires
                alignment > 0,
                value >= 0,
        ;
        value - (value % alignment)
    }
}

/// Megabytes needed to hold `bytes`.
pub fn bytes_to_ceiling_mb(bytes: u64) -> (r: u64)
    ensures
        r == ceil_div(bytes as int, MB as int),
{
    div_ceil_u64(bytes, MB)
}

/// Whole megabytes in `bytes`.
pub fn bytes_to_floor_mb(bytes: u64) -> (r: u64)
    ensures
        r == bytes as int / MB as int,
{
    bytes / MB
}

/// Megabits per second as bytes per second; zero stands for no limit.
pub fn mbps_to_bps(mbps: u64) -> (r: u64)
    ensures
        r == saturated(mbps * 1000000) / 8,
{
    saturating_mul_u64(mbps, 1_000_000) / 8
}

} // verus!

//! The fixed-point scale and the integer arithmetic that the other modules share.

use vstd::prelude::*;

verus! {

/// Ticks in one unit: of length, of time (a second) and of a plain ratio.
pub const UNIT: i64 = 1_000_000;

/// Denominator of a product of two fixed-point numbers that is kept exact.
pub const UNIT_SQUARED: u64 = 1_000_000_000_000;

/// Absolute value.
pub open spec fn magnitude(v: int) -> int {
    if v < 0 {
        -v
    } else {
        v
    }
}

/// The quotient `p / d`, rounded away from zero (for `d > 0`): it is zero
/// only where `p` is.
pub open spec fn quotient_away_from_zero(p: int, d: int) -> int {
    if p >= 0 {
        (p + d - 1) / d
    } else {
        -((-p + d - 1) / d)
    }
}

/// Absolute value of a machine integer, widened so that it always fits.
pub fn magnitude_of(v: i64) -> (m: u128)
    ensures
        m == magnitude(v as int),
{
    if v < 0 {
        (-(v as i128)) as u128
    } else {
        v as u128
    }
}

/// The product `a * n`, which may take 192 bits, in two parts: the part
/// above the lowest 64 bits, and those 64 bits.
pub fn wide_product(a: u64, n: u128) -> (parts: (u128, u64))
    ensures
        a * n == parts.0 * 0x1_0000_0000_0000_0000 + parts.1,
{
    let high: u128 = n / 0x1_0000_0000_0000_0000;
    let low: u128 = n % 0x1_0000_0000_0000_0000;
    assert(a * high <= 0xffff_ffff_ffff_ffff * 0xffff_ffff_ffff_ffff && a * low
        <= 0xffff_ffff_ffff_ffff * 0xffff_ffff_ffff_ffff && a * n == (a * high)
        * 0x1_0000_0000_0000_0000 + a * low) by (nonlinear_arith)
        requires
            0 <= a <= 0xffff_ffff_ffff_ffff,
            0 <= high <= 0xffff_ffff_ffff_ffff,
            0 <= low <= 0xffff_ffff_ffff_ffff,
            n == high * 0x1_0000_0000_0000_0000 + low,
    ;
    let upper: u128 = (a as u128) * high;
    let lower: u128 = (a as u128) * low;
    (upper + lower / 0x1_0000_0000_0000_0000, (lower % 0x1_0000_0000_0000_0000) as u64)
}

/// Whether `a * n <= b * m`, where neither product need fit a machine
/// integer.
pub fn product_le(a: u64, n: u128, b: u64, m: u128) -> (le: bool)
    ensures
        le == (a * n <= b * m),
{
    let (left_high, left_low): (u128, u64) = wide_product(a, n);
    let (right_high, right_low): (u128, u64) = wide_product(b, m);
    left_high < right_high || (left_high == right_high && left_low <= right_low)
}

} // verus!

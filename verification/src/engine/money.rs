//! Integer money and geometry helpers of the quote engine.
//!
//! All engine money is `i64` micro-units: `1 EUR = 1_000_000`, one minor
//! unit (cent) `= 10_000` micro-units. No fractional numbers anywhere.
use vstd::prelude::*;

verus! {

/// Bleed added per side when computing imposition footprints, in mm.
pub const BLEED_MM: u32 = 3;

/// Micro-units per minor unit (cent).
pub const MICRO_PER_MINOR: i64 = 10_000;

/// Integer division rounding toward zero, as machine division does.
pub open spec fn tdiv(a: int, b: int) -> int {
    if a >= 0 {
        if b > 0 { a / b } else { -(a / (-b)) }
    } else {
        if b > 0 { -((-a) / b) } else { (-a) / (-b) }
    }
}

pub open spec fn fits_i64(x: int) -> bool {
    i64::MIN <= x <= i64::MAX
}

/// Machine division of `a` by `b`.
pub fn div_toward_zero(a: i64, b: i64) -> (r: i64)
    requires
        b != 0,
        !(a == i64::MIN && b == -1),
    ensures
        r == tdiv(a as int, b as int),
{
    if b > 0 {
        a / b
    } else if b == i64::MIN {
        if a == i64::MIN { 1 } else { 0 }
    } else {
        let q = a / (-b);
        assert(q == tdiv(a as int, -(b as int)));
        proof {
            let d = -(b as int);
            if a >= 0 {
                assert((a as int) / d <= a) by (nonlinear_arith)
                    requires a >= 0, d >= 1;
            } else {
                assert((-(a as int)) / d <= -(a as int)) by (nonlinear_arith)
                    requires -(a as int) >= 0, d >= 1;
                if d == 1 {
                    assert(a != i64::MIN);
                } else {
                    assert((-(a as int)) / d < -(a as int)) by (nonlinear_arith)
                        requires -(a as int) > 0, d >= 2;
                }
            }
        }
        -q
    }
}

/// `ceil(a / b)` for non-negative operands, computed as `(a + b - 1) / b`.
pub open spec fn spec_ceil_div(a: int, b: int) -> int {
    tdiv(a + b - 1, b)
}

/// `a / b` rounded half up for non-negative operands, computed as
/// `(a + b / 2) / b`.
pub open spec fn spec_round_half_up(a: int, b: int) -> int {
    tdiv(a + tdiv(b, 2), b)
}

pub fn ceil_div(a: i64, b: i64) -> (r: i64)
    requires
        b != 0,
        fits_i64(a + b),
        fits_i64(a + b - 1),
        !(a + b - 1 == i64::MIN && b == -1),
    ensures
        r == spec_ceil_div(a as int, b as int),
{
    div_toward_zero(a + b - 1, b)
}

pub fn round_half_up(a: i64, b: i64) -> (r: i64)
    requires
        b != 0,
        fits_i64(a + tdiv(b as int, 2)),
        !(a + tdiv(b as int, 2) == i64::MIN && b == -1),
    ensures
        r == spec_round_half_up(a as int, b as int),
{
    let half = div_toward_zero(b, 2);
    div_toward_zero(a + half, b)
}

} // verus!

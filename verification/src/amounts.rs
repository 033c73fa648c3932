//! Fixed-point amounts.
//!
//! Quantities, prices and money amounts are signed integers counted in
//! millionths (`SCALE` units make one whole share, or one unit of currency).
//! The notional value of a position, `|quantity| * price`, is then counted in
//! `SCALE * SCALE` units and held in an `i128`, so that no product is rounded.

use vstd::prelude::*;

verus! {

/// Number of fixed-point units in one whole unit.
pub const SCALE: i64 = 1_000_000;

pub open spec fn abs(x: int) -> int {
    if x < 0 { -x } else { x }
}

/// `x`, pulled into the range of `i64`.
pub open spec fn clamp_i64(x: int) -> int {
    if x < i64::MIN { i64::MIN as int } else if x > i64::MAX { i64::MAX as int } else { x }
}

/// `x`, pulled into the range of `i128`.
pub open spec fn clamp_i128(x: int) -> int {
    if x < i128::MIN { i128::MIN as int } else if x > i128::MAX { i128::MAX as int } else { x }
}

/// Notional value of holding `quantity` at `price`, in `SCALE * SCALE` units.
pub open spec fn notional(quantity: int, price: int) -> int {
    abs(quantity) * price
}

/// A limit given in `SCALE` units, compared with notionals in `SCALE * SCALE` units.
pub open spec fn limit_notional(limit: int) -> int {
    limit * SCALE
}

/// `a + b`, saturating at the bounds of `i64`.
pub fn add_clamped_i64(a: i64, b: i64) -> (r: i64)
    ensures
        r == clamp_i64(a + b),
{
    if b >= 0 {
        if a > i64::MAX - b { i64::MAX } else { a + b }
    } else {
        if a < i64::MIN - b { i64::MIN } else { a + b }
    }
}

/// `a + b`, saturating at the bounds of `i128`.
pub fn add_clamped_i128(a: i128, b: i128) -> (r: i128)
    ensures
        r == clamp_i128(a + b),
{
    if b >= 0 {
        if a > i128::MAX - b { i128::MAX } else { a + b }
    } else {
        if a < i128::MIN - b { i128::MIN } else { a + b }
    }
}

/// `|quantity| * price`, exactly.
pub fn notional_of(quantity: i64, price: i64) -> (r: i128)
    ensures
        r == notional(quantity as int, price as int),
{
    let q: i128 = quantity as i128;
    let a: i128 = if q < 0 { -q } else { q };
    let p: i128 = price as i128;
    assert(0 <= a <= 0x8000_0000_0000_0000);
    assert(-0x8000_0000_0000_0000 <= p < 0x8000_0000_0000_0000);
    assert(-0x4000_0000_0000_0000_0000_0000_0000_0000 <= a * p <= 0x4000_0000_0000_0000_0000_0000_0000_0000)
        by (nonlinear_arith)
        requires
            0 <= a <= 0x8000_0000_0000_0000,
            -0x8000_0000_0000_0000 <= p < 0x8000_0000_0000_0000,
    ;
    a * p
}

/// A limit in `SCALE` units, as a notional in `SCALE * SCALE` units.
pub fn limit_as_notional(limit: i64) -> (r: i128)
    ensures
        r == limit_notional(limit as int),
{
    let l: i128 = limit as i128;
    assert(-0x8000_0000_0000_0000_0000_0000 <= l * 1_000_000 <= 0x8000_0000_0000_0000_0000_0000)
        by (nonlinear_arith)
        requires
            -0x8000_0000_0000_0000 <= l < 0x8000_0000_0000_0000,
    ;
    l * 1_000_000
}

} // verus!

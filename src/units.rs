//! Fixed-point quantities.
//!
//! Money, shares, net asset values and fee rates are all held as `u64`
//! counts of `1 / UNIT`: the value 1.05 is `105_000_000`. Products and
//! quotients round toward zero.
use vstd::prelude::*;

verus! {

/// Number of stored units in one whole unit of money, share, price or rate.
pub const UNIT: u64 = 100_000_000;

/// `a * b` for two fixed-point values, rounded toward zero.
pub open spec fn mul_floor(a: int, b: int) -> int {
    a * b / (UNIT as int)
}

/// `a / b` for two fixed-point values, rounded toward zero.
pub open spec fn div_floor(a: int, b: int) -> int {
    a * (UNIT as int) / b
}

/// Fixed-point product, or `None` where it does not fit in a `u64`.
pub fn mul_units(a: u64, b: u64) -> (r: Option<u64>)
    ensures
        r == (if mul_floor(a as int, b as int) <= u64::MAX {
            Some(mul_floor(a as int, b as int) as u64)
        } else {
            None
        }),
{
    proof {
        assert((a as int) * (b as int) <= (u64::MAX as int) * (u64::MAX as int)) by (nonlinear_arith)
            requires a <= u64::MAX, b <= u64::MAX;
    }
    let p: u128 = (a as u128) * (b as u128);
    let q: u128 = p / (UNIT as u128);
    if q <= u64::MAX as u128 {
        Some(q as u64)
    } else {
        None
    }
}

/// Fixed-point quotient, or `None` where it does not fit in a `u64`.
pub fn div_units(a: u64, b: u64) -> (r: Option<u64>)
    requires
        b > 0,
    ensures
        r == (if div_floor(a as int, b as int) <= u64::MAX {
            Some(div_floor(a as int, b as int) as u64)
        } else {
            None
        }),
{
    proof {
        assert((a as int) * (UNIT as int) <= (u64::MAX as int) * (UNIT as int)) by (nonlinear_arith)
            requires a <= u64::MAX;
    }
    let p: u128 = (a as u128) * (UNIT as u128);
    let q: u128 = p / (b as u128);
    if q <= u64::MAX as u128 {
        Some(q as u64)
    } else {
        None
    }
}

/// A rate of at most one whole unit never makes a product larger than its
/// other factor.
pub proof fn lemma_rate_bounded(a: int, rate: int)
    requires
        a >= 0,
        0 <= rate <= UNIT,
    ensures
        0 <= mul_floor(a, rate) <= a,
{
    assert(0 <= a * rate <= a * (UNIT as int)) by (nonlinear_arith)
        requires a >= 0, 0 <= rate <= UNIT;
    assert(a * (UNIT as int) / (UNIT as int) == a) by (nonlinear_arith);
    assert(a * rate / (UNIT as int) <= a * (UNIT as int) / (UNIT as int)) by (nonlinear_arith)
        requires a * rate <= a * (UNIT as int), a * rate >= 0;
}

} // verus!

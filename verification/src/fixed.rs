//! Decimal fixed-point scalars.
//!
//! A coordinate of the complex plane is an `i64` that counts multiples of
//! `1 / SCALE`.  Products of two coordinates are formed in `i128` and reduced
//! by a truncated (round-toward-zero) division by `SCALE`.

use vstd::prelude::*;

verus! {

/// Number of fixed-point units in one real unit.
pub const SCALE: i64 = 100_000_000;

/// Largest coordinate magnitude the library accepts: 10^7 real units.
pub const COORD_MAX: i64 = 1_000_000_000_000_000;

/// Truncated (round-toward-zero) division by a positive divisor, the
/// rounding rule every fixed-point product is reduced by.
pub open spec fn tdiv(a: int, d: int) -> int
    recommends
        d > 0,
{
    if a >= 0 {
        a / d
    } else {
        -((-a) / d)
    }
}

/// A bound on the dividend gives the matching bound on a truncated quotient.
pub proof fn lemma_tdiv_bound(a: int, d: int, b: int)
    requires
        d > 0,
        b >= 0,
        -(b * d) <= a <= b * d,
    ensures
        -b <= tdiv(a, d) <= b,
{
    vstd::arithmetic::mul::lemma_mul_is_commutative(b, d);
    if a >= 0 {
        vstd::arithmetic::div_mod::lemma_div_pos_is_pos(a, d);
        vstd::arithmetic::div_mod::lemma_multiply_divide_le(a, d, b);
    } else {
        vstd::arithmetic::div_mod::lemma_div_pos_is_pos(-a, d);
        vstd::arithmetic::div_mod::lemma_multiply_divide_le(-a, d, b);
    }
}

/// Truncated division, executed through nonnegative `u128` division.
pub fn tdiv128(a: i128, d: i128) -> (r: i128)
    requires
        d > 0,
        i128::MIN < a,
    ensures
        r == tdiv(a as int, d as int),
{
    if a >= 0 {
        proof {
            vstd::arithmetic::div_mod::lemma_div_pos_is_pos(a as int, d as int);
            vstd::arithmetic::div_mod::lemma_div_nonincreasing(a as int, d as int);
        }
        ((a as u128) / (d as u128)) as i128
    } else {
        proof {
            vstd::arithmetic::div_mod::lemma_div_pos_is_pos((-a) as int, d as int);
            vstd::arithmetic::div_mod::lemma_div_nonincreasing((-a) as int, d as int);
        }
        -((((-a) as u128) / (d as u128)) as i128)
    }
}

/// Euclidean division of nonnegative values, as plain `i64` arithmetic.
pub fn div_pos(a: i64, d: i64) -> (r: i64)
    requires
        a >= 0,
        d > 0,
    ensures
        r == a as int / d as int,
{
    proof {
        vstd::arithmetic::div_mod::lemma_div_pos_is_pos(a as int, d as int);
        vstd::arithmetic::div_mod::lemma_div_nonincreasing(a as int, d as int);
    }
    ((a as u64) / (d as u64)) as i64
}

} // verus!

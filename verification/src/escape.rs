//! The escape-time model.
//!
//! The orbit of a point `c` is `z_0 = 0`, `z_{k+1} = z_k^2 + c`, carried out
//! in fixed-point arithmetic: every product is reduced by a truncated
//! division by `SCALE`.  A point has escaped once its squared magnitude
//! reaches `ESCAPE_SQR`, the fixed-point rendering of `|z|^2 >= 4`, and the
//! escape time is the index of the first escaping orbit point, capped at the
//! iteration budget.

use vstd::prelude::*;
use crate::fixed::{COORD_MAX, SCALE, tdiv, lemma_tdiv_bound};

verus! {

/// Squared escape radius in squared fixed-point units: `(2 * SCALE)^2`.
pub const ESCAPE_SQR: i128 = 40_000_000_000_000_000;

/// Magnitude bound on the components of any orbit point the evaluator can
/// reach: `4 * SCALE + COORD_MAX`.
pub const ORBIT_BOUND: i64 = 1_000_000_400_000_000;

/// Real part of one orbit step `z^2 + c`.
pub open spec fn step_re(zre: int, zim: int, cre: int) -> int {
    tdiv(zre * zre - zim * zim, SCALE as int) + cre
}

/// Imaginary part of one orbit step `z^2 + c`.
pub open spec fn step_im(zre: int, zim: int, cim: int) -> int {
    tdiv(2 * (zre * zim), SCALE as int) + cim
}

/// The `k`-th point of the orbit of `c`.
pub open spec fn orbit(cre: int, cim: int, k: nat) -> (int, int)
    decreases k,
{
    if k == 0 {
        (0int, 0int)
    } else {
        let z = orbit(cre, cim, (k - 1) as nat);
        (step_re(z.0, z.1, cre), step_im(z.0, z.1, cim))
    }
}

/// Whether the orbit of `c` is outside the escape circle at step `k`.
pub open spec fn escaped_at(cre: int, cim: int, k: nat) -> bool {
    let z = orbit(cre, cim, k);
    z.0 * z.0 + z.1 * z.1 >= ESCAPE_SQR as int
}

/// The index of the first escaping orbit point, capped at `budget`.
pub open spec fn escape_time(cre: int, cim: int, budget: nat) -> nat
    decreases budget,
{
    if budget == 0 {
        0
    } else {
        let prev = escape_time(cre, cim, (budget - 1) as nat);
        if prev < budget - 1 {
            prev
        } else if escaped_at(cre, cim, (budget - 1) as nat) {
            (budget - 1) as nat
        } else {
            budget
        }
    }
}

/// The escape time never exceeds the budget.
pub proof fn lemma_escape_time_le(cre: int, cim: int, budget: nat)
    ensures
        escape_time(cre, cim, budget) <= budget,
    decreases budget,
{
    if budget > 0 {
        lemma_escape_time_le(cre, cim, (budget - 1) as nat);
    }
}

/// If no orbit point below `budget` escapes, the whole budget is spent.
pub proof fn lemma_escape_time_saturates(cre: int, cim: int, budget: nat)
    requires
        forall|k: nat| k < budget ==> !escaped_at(cre, cim, k),
    ensures
        escape_time(cre, cim, budget) == budget,
    decreases budget,
{
    if budget > 0 {
        lemma_escape_time_saturates(cre, cim, (budget - 1) as nat);
        assert(!escaped_at(cre, cim, (budget - 1) as nat));
    }
}

/// The first escaping step decides the escape time for every larger budget.
pub proof fn lemma_escape_time_hits(cre: int, cim: int, n: nat, budget: nat)
    requires
        escaped_at(cre, cim, n),
        forall|k: nat| k < n ==> !escaped_at(cre, cim, k),
        n < budget,
    ensures
        escape_time(cre, cim, budget) == n,
    decreases budget,
{
    if budget - 1 == n {
        lemma_escape_time_saturates(cre, cim, n);
    } else {
        lemma_escape_time_hits(cre, cim, n, (budget - 1) as nat);
    }
}

/// A larger iteration budget never lowers the count, and a count that came in
/// under its budget is already settled: any larger budget returns it again.
pub proof fn lemma_escape_time_monotonic(cre: int, cim: int, b1: nat, b2: nat)
    requires
        b1 <= b2,
    ensures
        escape_time(cre, cim, b1) <= escape_time(cre, cim, b2),
        escape_time(cre, cim, b1) < b1 ==> escape_time(cre, cim, b2) == escape_time(cre, cim, b1),
    decreases b2,
{
    if b1 < b2 {
        lemma_escape_time_monotonic(cre, cim, b1, (b2 - 1) as nat);
        lemma_escape_time_le(cre, cim, (b2 - 1) as nat);
    }
}

/// The orbit of the origin stays at the origin.
pub proof fn lemma_orbit_origin(k: nat)
    ensures
        orbit(0, 0, k) == (0int, 0int),
    decreases k,
{
    if k > 0 {
        lemma_orbit_origin((k - 1) as nat);
        vstd::arithmetic::div_mod::lemma_div_of0(SCALE as int);
    }
}

/// The origin never escapes: every budget is spent in full.
pub proof fn lemma_origin_exhausts_budget(budget: nat)
    ensures
        escape_time(0, 0, budget) == budget,
{
    assert forall|k: nat| k < budget implies !escaped_at(0, 0, k) by {
        lemma_orbit_origin(k);
    }
    lemma_escape_time_saturates(0, 0, budget);
}

/// A point on or outside the escape circle leaves after a single orbit step,
/// well under any budget that allows that step at all.
pub proof fn lemma_outside_escapes_immediately(cre: int, cim: int, budget: nat)
    requires
        cre * cre + cim * cim >= ESCAPE_SQR as int,
        budget >= 2,
    ensures
        escape_time(cre, cim, budget) == 1,
        escape_time(cre, cim, budget) < budget,
{
    vstd::arithmetic::div_mod::lemma_div_of0(SCALE as int);
    assert(orbit(cre, cim, 0) == (0int, 0int));
    assert(orbit(cre, cim, 1) == (cre, cim));
    assert(escaped_at(cre, cim, 1));
    assert(!escaped_at(cre, cim, 0));
    assert(forall|k: nat| k < 1 ==> !escaped_at(cre, cim, k));
    lemma_escape_time_hits(cre, cim, 1, budget);
}

/// One orbit step from inside the escape circle, with `c` a coordinate of
/// the plane, stays within `ORBIT_BOUND` on both components.
pub proof fn lemma_step_in_bounds(zre: int, zim: int, cre: int, cim: int)
    requires
        -COORD_MAX <= cre <= COORD_MAX,
        -COORD_MAX <= cim <= COORD_MAX,
        zre * zre + zim * zim < ESCAPE_SQR as int,
    ensures
        -(ESCAPE_SQR as int) < zre * zre - zim * zim < ESCAPE_SQR as int,
        -(ESCAPE_SQR as int) < 2 * (zre * zim) < ESCAPE_SQR as int,
        -ORBIT_BOUND <= step_re(zre, zim, cre) <= ORBIT_BOUND,
        -ORBIT_BOUND <= step_im(zre, zim, cim) <= ORBIT_BOUND,
{
    assert(zre * zre >= 0 && zim * zim >= 0) by (nonlinear_arith);
    assert(-(zre * zre + zim * zim) <= 2 * (zre * zim) <= zre * zre + zim * zim)
        by (nonlinear_arith);
    lemma_tdiv_bound(zre * zre - zim * zim, SCALE as int, 400_000_000);
    lemma_tdiv_bound(2 * (zre * zim), SCALE as int, 400_000_000);
}

} // verus!

//! Fixed-point plane coordinates and the exact arithmetic of one
//! Mandelbrot-style iteration step.
//!
//! A coordinate is an `i64` counting units of `1 / FIXED_ONE`; a product of
//! two coordinates therefore counts units of `1 / FIXED_ONE_SQ`.  The step
//! `z * z + c` divides the product terms back down to coordinate units with
//! truncation toward zero.

use vstd::prelude::*;

verus! {

/// Number of fixed-point units in 1.0 plane unit.
pub const FIXED_ONE: i64 = 10_000_000;

/// `FIXED_ONE * FIXED_ONE`: the unit of a product of two coordinates.
pub const FIXED_ONE_SQ: i64 = 100_000_000_000_000;

/// Squared-magnitude escape threshold, 4.0 in product units.
pub const ESCAPE_THRESHOLD: i64 = 400_000_000_000_000;

/// Largest coordinate magnitude (100.0 plane units) a starting point may have.
pub const COORD_LIMIT: i64 = 1_000_000_000;

/// Largest coordinate magnitude an orbit iterate can reach: one step from a
/// non-escaped iterate moves each component by at most `4.0` plane units
/// before the starting point's component is added.
pub const ORBIT_LIMIT: i64 = 1_040_000_000;

/// A point of the complex plane in fixed-point representation.
#[derive(Clone, Copy, Debug, PartialEq, Eq, Hash, Structural)]
pub struct Complex {
    pub re: i64,
    pub im: i64,
}

/// Squared magnitude of `(re, im)` in product units.
pub open spec fn norm_sq(re: int, im: int) -> int {
    re * re + im * im
}

/// Division of a product back to coordinate units, truncating toward zero.
pub open spec fn div_trunc_unit(x: int) -> int {
    if x >= 0 {
        x / (FIXED_ONE as int)
    } else {
        -((-x) / (FIXED_ONE as int))
    }
}

/// Real part of `z * z + c` for `z = (z_re, z_im)`.
pub open spec fn step_re(z_re: int, z_im: int, c_re: int) -> int {
    div_trunc_unit(z_re * z_re - z_im * z_im) + c_re
}

/// Imaginary part of `z * z + c` for `z = (z_re, z_im)`.
pub open spec fn step_im(z_re: int, z_im: int, c_im: int) -> int {
    div_trunc_unit(2 * z_re * z_im) + c_im
}

/// A coordinate a starting point may have.
pub open spec fn bounded_coord(x: int) -> bool {
    -(COORD_LIMIT as int) <= x && x <= COORD_LIMIT as int
}

/// A starting point the evaluator accepts.
pub open spec fn valid_point(z: Complex) -> bool {
    bounded_coord(z.re as int) && bounded_coord(z.im as int)
}

/// A coordinate an orbit iterate can have.
pub open spec fn orbit_coord(x: int) -> bool {
    -(ORBIT_LIMIT as int) <= x && x <= ORBIT_LIMIT as int
}

/// Bound on an orbit iterate.
pub open spec fn orbit_point(z: Complex) -> bool {
    orbit_coord(z.re as int) && orbit_coord(z.im as int)
}

/// Truncating division of a product by `FIXED_ONE`.
fn div_unit(x: i64) -> (r: i64)
    requires
        i64::MIN < x,
    ensures
        r == div_trunc_unit(x as int),
{
    if x >= 0 {
        x / FIXED_ONE
    } else {
        -((-x) / FIXED_ONE)
    }
}

/// Squared magnitude of an orbit iterate, computed exactly.
pub fn norm_sq_exec(z: Complex) -> (r: i64)
    requires
        orbit_point(z),
    ensures
        r == norm_sq(z.re as int, z.im as int),
{
    proof {
        assert((z.re as int) * (z.re as int) <= (ORBIT_LIMIT as int) * (ORBIT_LIMIT as int)
            && (z.re as int) * (z.re as int) >= 0 && (z.im as int) * (z.im as int) <= (
        ORBIT_LIMIT as int) * (ORBIT_LIMIT as int) && (z.im as int) * (z.im as int) >= 0)
            by (nonlinear_arith)
            requires
                orbit_coord(z.re as int),
                orbit_coord(z.im as int),
        ;
    }
    z.re * z.re + z.im * z.im
}

/// One iteration step `z * z + c`, defined for a not-yet-escaped iterate.
pub fn orbit_step(z: Complex, c: Complex) -> (r: Complex)
    requires
        valid_point(c),
        orbit_point(z),
        norm_sq(z.re as int, z.im as int) <= ESCAPE_THRESHOLD as int,
    ensures
        r.re as int == step_re(z.re as int, z.im as int, c.re as int),
        r.im as int == step_im(z.re as int, z.im as int, c.im as int),
        orbit_point(r),
{
    proof {
        lemma_components_bounded(z.re as int, z.im as int);
    }
    let sq_diff: i64 = z.re * z.re - z.im * z.im;
    let cross: i64 = 2 * z.re * z.im;
    proof {
        lemma_div_trunc_bound(sq_diff as int);
        lemma_div_trunc_bound(cross as int);
    }
    let re: i64 = div_unit(sq_diff) + c.re;
    let im: i64 = div_unit(cross) + c.im;
    Complex { re, im }
}

/// A component of a not-yet-escaped iterate is at most `2.0` in magnitude,
/// and the step's product terms stay within `4.0 * 4.0`.
proof fn lemma_components_bounded(re: int, im: int)
    requires
        norm_sq(re, im) <= ESCAPE_THRESHOLD as int,
    ensures
        -(2 * FIXED_ONE as int) <= re && re <= 2 * FIXED_ONE as int,
        -(2 * FIXED_ONE as int) <= im && im <= 2 * FIXED_ONE as int,
        0 <= re * re <= ESCAPE_THRESHOLD as int,
        0 <= im * im <= ESCAPE_THRESHOLD as int,
        -(ESCAPE_THRESHOLD as int) <= re * re - im * im <= ESCAPE_THRESHOLD as int,
        -(ESCAPE_THRESHOLD as int) <= 2 * re * im <= ESCAPE_THRESHOLD as int,
{
    assert(re * re >= 0 && im * im >= 0) by (nonlinear_arith);
    assert(re > 2 * FIXED_ONE as int ==> re * re > ESCAPE_THRESHOLD as int) by (nonlinear_arith);
    assert(re < -(2 * FIXED_ONE as int) ==> re * re > ESCAPE_THRESHOLD as int)
        by (nonlinear_arith);
    assert(im > 2 * FIXED_ONE as int ==> im * im > ESCAPE_THRESHOLD as int) by (nonlinear_arith);
    assert(im < -(2 * FIXED_ONE as int) ==> im * im > ESCAPE_THRESHOLD as int)
        by (nonlinear_arith);
    assert(re * re <= ESCAPE_THRESHOLD as int) by (nonlinear_arith)
        requires
            -(2 * FIXED_ONE as int) <= re <= 2 * FIXED_ONE as int,
    ;
    assert(im * im <= ESCAPE_THRESHOLD as int) by (nonlinear_arith)
        requires
            -(2 * FIXED_ONE as int) <= im <= 2 * FIXED_ONE as int,
    ;
    assert(2 * re * im <= re * re + im * im && -(re * re + im * im) <= 2 * re * im)
        by (nonlinear_arith);
}

/// Truncating division by `FIXED_ONE` shrinks magnitude by that factor.
proof fn lemma_div_trunc_bound(x: int)
    requires
        -(ESCAPE_THRESHOLD as int) <= x && x <= ESCAPE_THRESHOLD as int,
    ensures
        -(4 * FIXED_ONE as int) <= div_trunc_unit(x) && div_trunc_unit(x) <= 4 * FIXED_ONE as int,
{
    if x >= 0 {
        assert(x / (FIXED_ONE as int) <= (ESCAPE_THRESHOLD as int) / (FIXED_ONE as int))
            by (nonlinear_arith)
            requires
                0 <= x <= ESCAPE_THRESHOLD as int,
        ;
        assert(x / (FIXED_ONE as int) >= 0) by (nonlinear_arith)
            requires
                x >= 0,
        ;
    } else {
        assert((-x) / (FIXED_ONE as int) <= (ESCAPE_THRESHOLD as int) / (FIXED_ONE as int))
            by (nonlinear_arith)
            requires
                0 <= -x <= ESCAPE_THRESHOLD as int,
        ;
        assert((-x) / (FIXED_ONE as int) >= 0) by (nonlinear_arith)
            requires
                -x >= 0,
        ;
    }
}

} // verus!

//! The escape-time evaluator.
//!
//! Given a starting point `c`, the evaluator decides how many iterations of
//! `z * z + c` (from `z = 0`) the orbit survives before its squared magnitude
//! exceeds `4.0`, and hands back an iterator over the orbit tail
//! `z_1 ... z_n`.  Two closed-form pre-checks (the main cardioid and the
//! period-2 bulb) and Brent's cycle detection classify non-escaping points
//! without a full iteration budget; a safety cap bounds every evaluation.

use vstd::prelude::*;
use crate::fixed::{
    Complex, FIXED_ONE, ESCAPE_THRESHOLD, norm_sq, step_re, step_im, div_trunc_unit, valid_point,
    orbit_point, norm_sq_exec, orbit_step,
};

verus! {

/// Safety cap on the number of iteration steps of one evaluation; a
/// configured cap above it is lowered to it.
pub const CAP_LIMIT: u64 = 16_777_216;

/// The iteration budget that a configured optional cap yields.
pub open spec fn effective_cap(m: Option<u64>) -> nat {
    match m {
        Option::Some(v) => if v <= CAP_LIMIT {
            v as nat
        } else {
            CAP_LIMIT as nat
        },
        Option::None => CAP_LIMIT as nat,
    }
}

/// The orbit iterate `z_n` of the starting point `c`, as a pair of exact
/// fixed-point integers.
pub open spec fn orbit_pt(c: Complex, n: nat) -> (int, int)
    decreases n,
{
    if n == 0 {
        (0int, 0int)
    } else {
        let p = orbit_pt(c, (n - 1) as nat);
        (step_re(p.0, p.1, c.re as int), step_im(p.0, p.1, c.im as int))
    }
}

/// Whether the orbit of `c` has escaped at step `n`.
pub open spec fn escaped(c: Complex, n: nat) -> bool {
    norm_sq(orbit_pt(c, n).0, orbit_pt(c, n).1) > ESCAPE_THRESHOLD as int
}

/// Whether `c` lies within the main cardioid, by the closed-form inequality
/// `q * (q + (re - 1/4)) < (1/4) * im^2` with `q = (re - 1/4)^2 + im^2`,
/// written over fixed-point integers.
pub open spec fn in_cardioid(c: Complex) -> bool {
    let a = c.re as int - (FIXED_ONE as int) / 4;
    let q = a * a + (c.im as int) * (c.im as int);
    q * (q + a * (FIXED_ONE as int)) < ((FIXED_ONE as int) * (FIXED_ONE as int) / 4) * ((
    c.im as int) * (c.im as int))
}

/// Whether `c` lies within the period-2 bulb of radius `1/4` around
/// `(-1, 0)`: `(re + 1)^2 + im^2 < 1/16`.
pub open spec fn in_bulb(c: Complex) -> bool {
    let xr = c.re as int + FIXED_ONE as int;
    xr * xr + (c.im as int) * (c.im as int) < (FIXED_ONE as int) * (FIXED_ONE as int) / 16
}

/// The first index in `[i, cap)` at which the orbit of `c` has escaped, or
/// `0` if there is none.
pub open spec fn first_escape_from(c: Complex, i: nat, cap: nat) -> nat
    decreases cap - i,
{
    if i >= cap {
        0
    } else if escaped(c, i) {
        i
    } else {
        first_escape_from(c, (i + 1) as nat, cap)
    }
}

/// The length of the orbit tail the evaluator produces for `c` under the
/// configured cap: zero for a point ruled out by a pre-check or never judged
/// escaping within the budget, and the escape time otherwise.
pub open spec fn tail_len(c: Complex, m: Option<u64>) -> nat {
    if in_cardioid(c) || in_bulb(c) {
        0
    } else {
        first_escape_from(c, 0, effective_cap(m))
    }
}

/// Closed-form test for the main cardioid.
pub fn cardioid_check(c: Complex) -> (r: bool)
    requires
        valid_point(c),
    ensures
        r == in_cardioid(c),
{
    let a: i128 = c.re as i128 - 2_500_000;
    let y: i128 = c.im as i128;
    proof {
        assert(-2_000_000_000 <= a <= 2_000_000_000);
        assert(0 <= a * a <= 4_000_000_000_000_000_000i128 && 0 <= y * y
            <= 4_000_000_000_000_000_000i128) by (nonlinear_arith)
            requires
                -2_000_000_000 <= a <= 2_000_000_000,
                -2_000_000_000 <= y <= 2_000_000_000,
        ;
    }
    let q: i128 = a * a + y * y;
    proof {
        let t = q + a * (FIXED_ONE as i128);
        assert(q * t <= 0x40000000000000000000000000000000i128 && q * t
            >= -0x40000000000000000000000000000000i128) by (nonlinear_arith)
            requires
                0 <= q <= 8_000_000_000_000_000_000i128,
                -2_000_000_000 <= a <= 2_000_000_000,
                t == q + a * 10_000_000i128,
        ;
        assert(((FIXED_ONE as i128) * (FIXED_ONE as i128) / 4) * (y * y)
            <= 0x40000000000000000000000000000000i128 && ((FIXED_ONE as i128) * (FIXED_ONE
            as i128) / 4) * (y * y) >= 0) by (nonlinear_arith)
            requires
                0 <= y * y <= 4_000_000_000_000_000_000i128,
        ;
    }
    q * (q + a * (FIXED_ONE as i128)) < ((FIXED_ONE as i128) * (FIXED_ONE as i128) / 4) * (y * y)
}

/// Closed-form test for the period-2 bulb.
pub fn bulb_check(c: Complex) -> (r: bool)
    requires
        valid_point(c),
    ensures
        r == in_bulb(c),
{
    let xr: i128 = c.re as i128 + FIXED_ONE as i128;
    let y: i128 = c.im as i128;
    proof {
        assert(0 <= xr * xr <= 4_100_000_000_000_000_000i128 && 0 <= y * y
            <= 4_000_000_000_000_000_000i128) by (nonlinear_arith)
            requires
                -2_000_000_000 <= xr <= 2_000_000_000,
                -2_000_000_000 <= y <= 2_000_000_000,
        ;
    }
    xr * xr + y * y < (FIXED_ONE as i128) * (FIXED_ONE as i128) / 16
}

/// Brent's cycle detection ("teleporting turtle"): a checkpoint value, a step
/// count since the checkpoint, and a doubling step budget.  Fed one orbit
/// value per step, it reports a repeat the moment the newest value equals the
/// checkpoint.
#[derive(Clone, Copy, Debug, PartialEq, Eq, Structural)]
pub struct CycleDetector {
    pub power: u64,
    pub lambda: u64,
    pub turtle: Option<Complex>,
    pub hare: Option<Complex>,
}

impl CycleDetector {
    /// A fresh detector: no checkpoint yet, initial step budget 32.
    pub fn new() -> (r: CycleDetector)
        ensures
            r.power == 32,
            r.lambda == 0,
            r.turtle is None,
            r.hare is None,
    {
        CycleDetector { power: 32, lambda: 0, turtle: Option::None, hare: Option::None }
    }

    /// Feeds the next orbit value; reports `true` exactly when it equals the
    /// (possibly just-teleported) checkpoint.
    pub fn check(&mut self, next_value: Complex) -> (r: bool)
        requires
            old(self).power >= 1,
            old(self).power <= 0x4000_0000_0000_0000,
            old(self).lambda <= old(self).power,
        ensures
            old(self).lambda == old(self).power ==> final(self).turtle == old(self).hare
                && final(self).power == 2 * old(self).power && final(self).lambda == 1,
            old(self).lambda != old(self).power ==> final(self).turtle == old(self).turtle
                && final(self).power == old(self).power && final(self).lambda == old(self).lambda
                + 1,
            final(self).hare == Option::Some(next_value),
            r == (final(self).turtle == Option::Some(next_value)),
    {
        if self.lambda == self.power {
            self.turtle = self.hare;
            self.power = self.power * 2;
            self.lambda = 0;
        }
        self.hare = Option::Some(next_value);
        self.lambda = self.lambda + 1;
        match (self.turtle, self.hare) {
            (Option::Some(t), Option::Some(h)) => t.re == h.re && t.im == h.im,
            _ => false,
        }
    }
}

impl Default for CycleDetector {
    /// The same state as `new`.
    fn default() -> (r: CycleDetector)
        ensures
            r.power == 32,
            r.lambda == 0,
            r.turtle is None,
            r.hare is None,
    {
        CycleDetector::new()
    }
}

/// The finite orbit tail `z_1 ... z_n` of an escaping starting point,
/// produced lazily by re-iterating the map.
#[derive(Clone, Copy, Debug, PartialEq, Eq, Hash, Structural)]
pub struct PathIterator {
    pub z: Complex,
    pub c: Complex,
    pub remaining: u64,
}

impl PathIterator {
    fn new(c: Complex, size: u64) -> (r: PathIterator)
        ensures
            r.z == (Complex { re: 0, im: 0 }),
            r.c == c,
            r.remaining == size,
    {
        PathIterator { z: Complex { re: 0, im: 0 }, c, remaining: size }
    }

    /// The next orbit point, or `None` once the tail is exhausted.
    pub fn next(&mut self) -> (r: Option<Complex>)
        requires
            old(self).remaining > 0 ==> valid_point(old(self).c) && orbit_point(old(self).z)
                && norm_sq(old(self).z.re as int, old(self).z.im as int)
                <= ESCAPE_THRESHOLD as int,
        ensures
            old(self).remaining == 0 ==> r is None && *final(self) == *old(self),
            old(self).remaining > 0 ==> {
                &&& final(self).c == old(self).c
                &&& final(self).remaining == old(self).remaining - 1
                &&& final(self).z.re as int == step_re(
                    old(self).z.re as int,
                    old(self).z.im as int,
                    old(self).c.re as int,
                )
                &&& final(self).z.im as int == step_im(
                    old(self).z.re as int,
                    old(self).z.im as int,
                    old(self).c.im as int,
                )
                &&& orbit_point(final(self).z)
                &&& r == Option::Some(final(self).z)
            },
    {
        if self.remaining == 0 {
            Option::None
        } else {
            self.z = orbit_step(self.z, self.c);
            self.remaining = self.remaining - 1;
            Option::Some(self.z)
        }
    }

    /// Number of points left, as the usual iterator size hint.
    pub fn size_hint(&self) -> (r: (usize, Option<usize>))
        ensures
            self.remaining <= usize::MAX ==> r == (
                self.remaining as usize,
                Option::Some(self.remaining as usize),
            ),
            self.remaining > usize::MAX ==> r == (usize::MAX, Option::<usize>::None),
    {
        if self.remaining <= usize::MAX as u64 {
            (self.remaining as usize, Option::Some(self.remaining as usize))
        } else {
            (usize::MAX, Option::None)
        }
    }
}

/// Evaluates the orbit of `c`: the result replays exactly the orbit tail of
/// length `tail_len(c, max_iterations)`, which is the escape time of `c`
/// when one exists within the budget and neither pre-check ruled `c` out,
/// and zero otherwise.
pub fn iterate(c: Complex, max_iterations: Option<u64>) -> (r: PathIterator)
    requires
        valid_point(c),
    ensures
        r.c == c,
        r.z == (Complex { re: 0, im: 0 }),
        r.remaining as nat == tail_len(c, max_iterations),
        (in_cardioid(c) || in_bulb(c)) ==> r.remaining == 0,
        !(in_cardioid(c) || in_bulb(c)) && (exists|n: nat|
            n < effective_cap(max_iterations) && escaped(c, n)) ==> {
            &&& 1 <= r.remaining < effective_cap(max_iterations)
            &&& escaped(c, r.remaining as nat)
            &&& forall|k: nat| k < r.remaining ==> !escaped(c, k)
        },
        !(in_cardioid(c) || in_bulb(c)) && !(exists|n: nat|
            n < effective_cap(max_iterations) && escaped(c, n)) ==> r.remaining == 0,
{
    if cardioid_check(c) || bulb_check(c) {
        return PathIterator::new(c, 0);
    }
    let cap: u64 = match max_iterations {
        Option::Some(v) => if v <= CAP_LIMIT {
            v
        } else {
            CAP_LIMIT
        },
        Option::None => CAP_LIMIT,
    };
    assert(cap as nat == effective_cap(max_iterations));
    let mut z = Complex { re: 0, im: 0 };
    let mut detector = CycleDetector::new();
    let mut i: u64 = 0;
    let ghost mut turtle_idx: nat = 0;
    while i < cap
        invariant
            valid_point(c),
            i <= cap,
            cap <= CAP_LIMIT,
            cap as nat == effective_cap(max_iterations),
            !in_cardioid(c) && !in_bulb(c),
            z.re as int == orbit_pt(c, i as nat).0,
            z.im as int == orbit_pt(c, i as nat).1,
            orbit_point(z),
            forall|k: nat| k < i as nat ==> !escaped(c, k),
            detector.power >= 1,
            detector.lambda <= detector.power,
            detector.power as int <= 64 + 2 * (i as int),
            detector.lambda <= i,
            i == 0 ==> detector.hare is None,
            i > 0 ==> (detector.hare matches Option::Some(h) && h.re as int == orbit_pt(
                c,
                (i - 1) as nat,
            ).0 && h.im as int == orbit_pt(c, (i - 1) as nat).1),
            detector.turtle matches Option::Some(w) ==> turtle_idx < i as nat && w.re as int
                == orbit_pt(c, turtle_idx).0 && w.im as int == orbit_pt(c, turtle_idx).1,
        decreases cap - i,
    {
        let ns = norm_sq_exec(z);
        if ns > ESCAPE_THRESHOLD {
            proof {
                assert(escaped(c, i as nat));
                assert(orbit_pt(c, 0).0 == 0 && orbit_pt(c, 0).1 == 0);
                assert(norm_sq(orbit_pt(c, 0).0, orbit_pt(c, 0).1) == 0);
                assert(!escaped(c, 0));
                lemma_first_escape_minimal(c, 0, i as nat, cap as nat);
            }
            return PathIterator::new(c, i);
        }
        proof {
            if detector.lambda == detector.power {
                turtle_idx = (i - 1) as nat;
            }
        }
        let cycled = detector.check(z);
        if cycled {
            proof {
                let t = turtle_idx;
                assert(orbit_pt(c, t) == orbit_pt(c, i as nat));
                assert(forall|k: nat| k <= i as nat ==> !escaped(c, k));
                lemma_cycle_no_escape(c, t, i as nat);
                lemma_first_escape_none(c, 0, cap as nat);
            }
            return PathIterator::new(c, 0);
        }
        z = orbit_step(z, c);
        i = i + 1;
    }
    proof {
        lemma_first_escape_none(c, 0, cap as nat);
    }
    PathIterator::new(c, 0)
}

/// `first_escape_from` finds exactly the least escape index.
proof fn lemma_first_escape_minimal(c: Complex, i: nat, n: nat, cap: nat)
    requires
        i <= n < cap,
        escaped(c, n),
        forall|k: nat| i <= k < n ==> !escaped(c, k),
    ensures
        first_escape_from(c, i, cap) == n,
    decreases n - i,
{
    if i < n {
        lemma_first_escape_minimal(c, i + 1, n, cap);
    }
}

/// With no escape in `[i, cap)`, `first_escape_from` yields zero.
proof fn lemma_first_escape_none(c: Complex, i: nat, cap: nat)
    requires
        forall|k: nat| i <= k < cap ==> !escaped(c, k),
    ensures
        first_escape_from(c, i, cap) == 0,
    decreases cap - i,
{
    if i < cap {
        lemma_first_escape_none(c, i + 1, cap);
    }
}

/// A repeat `z_t = z_{t+p}` shifts along the whole orbit: the map is
/// deterministic, so equal iterates have equal successors.
proof fn lemma_orbit_shift(c: Complex, t: nat, p: nat, j: nat)
    requires
        p >= 1,
        orbit_pt(c, t) == orbit_pt(c, (t + p) as nat),
    ensures
        orbit_pt(c, (t + j) as nat) == orbit_pt(c, (t + p + j) as nat),
    decreases j,
{
    if j > 0 {
        lemma_orbit_shift(c, t, p, (j - 1) as nat);
        assert(orbit_pt(c, (t + j) as nat) == (
            step_re(orbit_pt(c, (t + j - 1) as nat).0, orbit_pt(c, (t + j - 1) as nat).1, c.re as int),
            step_im(orbit_pt(c, (t + j - 1) as nat).0, orbit_pt(c, (t + j - 1) as nat).1, c.im as int),
        ));
        assert(orbit_pt(c, (t + p + j) as nat) == (
            step_re(
                orbit_pt(c, (t + p + j - 1) as nat).0,
                orbit_pt(c, (t + p + j - 1) as nat).1,
                c.re as int,
            ),
            step_im(
                orbit_pt(c, (t + p + j - 1) as nat).0,
                orbit_pt(c, (t + p + j - 1) as nat).1,
                c.im as int,
            ),
        ));
    }
}

/// Beyond a repeat, every orbit value already occurred at an index at most
/// `i`, so none can escape.
proof fn lemma_no_escape_at(c: Complex, t: nat, i: nat, m: nat)
    requires
        t < i,
        orbit_pt(c, t) == orbit_pt(c, i),
        forall|k: nat| k <= i ==> !escaped(c, k),
    ensures
        !escaped(c, m),
    decreases m,
{
    if m > i {
        let p = (i - t) as nat;
        lemma_orbit_shift(c, t, p, (m - i) as nat);
        assert(orbit_pt(c, (m - p) as nat) == orbit_pt(c, m));
        lemma_no_escape_at(c, t, i, (m - p) as nat);
    }
}

/// Law: a starting point beyond the escape radius lies in neither pre-check
/// region and its orbit escapes on the very first step, so the evaluator
/// returns the one-point tail `[c]` whenever the budget allows a step.
pub proof fn lemma_far_point_escapes(c: Complex)
    requires
        valid_point(c),
        norm_sq(c.re as int, c.im as int) > ESCAPE_THRESHOLD as int,
    ensures
        !in_cardioid(c),
        !in_bulb(c),
        !escaped(c, 0),
        escaped(c, 1),
{
    let x = c.re as int;
    let y = c.im as int;
    assert(orbit_pt(c, 0).0 == 0 && orbit_pt(c, 0).1 == 0);
    assert(norm_sq(orbit_pt(c, 0).0, orbit_pt(c, 0).1) == 0);
    assert(orbit_pt(c, 1).0 == div_trunc_unit(0) + x && orbit_pt(c, 1).1 == div_trunc_unit(0)
        + y);
    assert(orbit_pt(c, 1).0 == x && orbit_pt(c, 1).1 == y);
    // The bulb lies within the disk of radius 2.
    if in_bulb(c) {
        assert(x * x + y * y <= 400_000_000_000_000) by (nonlinear_arith)
            requires
                (x + 10_000_000) * (x + 10_000_000) + y * y < 6_250_000_000_000,
        ;
    }
    // So does the cardioid, by cases on the real part.
    let a = x - 2_500_000;
    let q = a * a + y * y;
    let t = q + a * 10_000_000;
    if x >= 15_000_000 {
        assert(q >= 156_250_000_000_000 && t >= y * y && y * y >= 0) by (nonlinear_arith)
            requires
                a >= 12_500_000,
                q == a * a + y * y,
                t == q + a * 10_000_000,
        ;
        assert(q * t >= 25_000_000_000_000 * (y * y)) by (nonlinear_arith)
            requires
                q >= 25_000_000_000_000,
                t >= y * y,
                y * y >= 0,
        ;
    } else if x <= -15_000_000 {
        assert(q >= 306_250_000_000_000 && t >= y * y && y * y >= 0) by (nonlinear_arith)
            requires
                a <= -17_500_000,
                q == a * a + y * y,
                t == q + a * 10_000_000,
        ;
        assert(q * t >= 25_000_000_000_000 * (y * y)) by (nonlinear_arith)
            requires
                q >= 25_000_000_000_000,
                t >= y * y,
                y * y >= 0,
        ;
    } else {
        assert(y * y > 175_000_000_000_000 && q >= y * y && t >= 25_000_000_000_000)
            by (nonlinear_arith)
            requires
                -15_000_000 < x < 15_000_000,
                x * x + y * y > 400_000_000_000_000,
                a == x - 2_500_000,
                q == a * a + y * y,
                t == q + a * 10_000_000,
        ;
        assert(q * t >= 25_000_000_000_000 * (y * y)) by (nonlinear_arith)
            requires
                q >= y * y,
                y * y >= 0,
                t >= 25_000_000_000_000,
        ;
    }
}

/// A detected repeat `z_t = z_i` among not-yet-escaped iterates shows the
/// orbit is periodic and never escapes.
proof fn lemma_cycle_no_escape(c: Complex, t: nat, i: nat)
    requires
        t < i,
        orbit_pt(c, t) == orbit_pt(c, i),
        forall|k: nat| k <= i ==> !escaped(c, k),
    ensures
        forall|m: nat| !escaped(c, m),
{
    assert forall|m: nat| !escaped(c, m) by {
        lemma_no_escape_at(c, t, i, m);
    }
}

} // verus!

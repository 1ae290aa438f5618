//! Render configuration, the coordinate transform, and the orchestration of
//! one computation.
//!
//! A `Setup` carries the caller's wishes; `build` validates them into a
//! `Buddhabrot`, the immutable configuration every worker shares.  The
//! verified accounting contract: accumulating a set of samples raises the
//! field's hit total by exactly the number of orbit-tail points that project
//! into the frame — a quantity of the samples alone, independent of how the
//! work is divided among workers.

use vstd::prelude::*;
use vstd::pervasive::unreached;
use crate::fixed::{
    Complex, FIXED_ONE, FIXED_ONE_SQ, COORD_LIMIT, ORBIT_LIMIT, valid_point, orbit_point,
};
use crate::escape::{
    iterate, tail_len, effective_cap, escaped, orbit_pt, first_escape_from, CAP_LIMIT,
};
use crate::field::{
    NonatomicBucketField, AtomicBucketField, RenderError, AREA_LIMIT, HITS_LIMIT,
};
use crate::sample::SampleSource;
use core::sync::atomic::AtomicU64;
use core::sync::atomic::Ordering;

verus! {

/// Largest accepted scale factor (pixels per plane unit, fixed-point).
pub const SCALE_LIMIT: i64 = 4_000_000_000_000;

/// Largest accepted sample budget; together with `CAP_LIMIT` it keeps every
/// hit total below `HITS_LIMIT`.
pub const POINTS_LIMIT: u64 = 2_147_483_648;

/// Default focus: the frame is centred at `(-0.7, 0.0)`.
pub const DEFAULT_XFOCUS: i64 = -7_000_000;

/// Default focus, imaginary part.
pub const DEFAULT_YFOCUS: i64 = 0;

/// The caller-facing builder of one computation's parameters.
#[derive(Clone, Copy, Debug, PartialEq, Eq, Hash)]
pub struct Setup {
    pub width: usize,
    pub height: usize,
    pub xfocus: i64,
    pub yfocus: i64,
    pub scale: Option<i64>,
    pub point_count: u64,
    pub max_iters_per_point: Option<u64>,
}

/// The validated, immutable configuration of one computation.
#[derive(Clone, Copy, Debug, PartialEq, Eq, Hash)]
pub struct Buddhabrot {
    pub width: usize,
    pub height: usize,
    pub xfocus: i64,
    pub yfocus: i64,
    pub scale: i64,
    pub point_count: u64,
    pub max_iters_per_point: Option<u64>,
}

/// The scale used when none is configured: `min(width, height) / 2.6`
/// pixels per plane unit, in fixed point.
pub open spec fn default_scale(w: int, h: int) -> int {
    (if w < h {
        w
    } else {
        h
    }) * (FIXED_ONE as int) * 10 / 26
}

impl Setup {
    /// Whether width and height describe a usable grid.
    pub open spec fn dims_ok(&self) -> bool {
        self.width >= 1 && self.height >= 1 && self.width * self.height <= AREA_LIMIT
    }

    /// Whether the sample budget is within range.
    pub open spec fn points_ok(&self) -> bool {
        self.point_count <= POINTS_LIMIT
    }

    /// Whether a configured scale is positive and within range.
    pub open spec fn scale_ok(&self) -> bool {
        match self.scale {
            Option::Some(s) => 1 <= s <= SCALE_LIMIT,
            Option::None => true,
        }
    }

    /// Whether the focus lies within the accepted part of the plane.
    pub open spec fn focus_ok(&self) -> bool {
        -COORD_LIMIT <= self.xfocus <= COORD_LIMIT && -COORD_LIMIT <= self.yfocus <= COORD_LIMIT
    }

    /// Sets the rendering dimensions to `width` and `height`, as well as
    /// `point_count`, the number of points to iterate; focus, scale and
    /// iteration cap start at their defaults.
    pub fn new(width: usize, height: usize, point_count: u64) -> (r: Setup)
        ensures
            r.width == width,
            r.height == height,
            r.xfocus == DEFAULT_XFOCUS,
            r.yfocus == DEFAULT_YFOCUS,
            r.scale is None,
            r.point_count == point_count,
            r.max_iters_per_point is None,
    {
        Setup {
            width,
            height,
            xfocus: DEFAULT_XFOCUS,
            yfocus: DEFAULT_YFOCUS,
            scale: Option::None,
            point_count,
            max_iters_per_point: Option::None,
        }
    }

    /// Sets the scale, the multiplier that maps plane units onto pixels;
    /// without it a default derived from the frame size is used.
    pub fn scale(&mut self, scale: i64)
        ensures
            *final(self) == (Setup { scale: Option::Some(scale), ..*old(self) }),
    {
        self.scale = Option::Some(scale);
    }

    /// Sets the cap on iterations per starting point; `None` leaves only the
    /// safety cap, under which a point iterates until it escapes or is judged
    /// non-escaping.
    pub fn max_iters_per_point(&mut self, max_iters_per_point: Option<u64>)
        ensures
            *final(self) == (Setup { max_iters_per_point, ..*old(self) }),
    {
        self.max_iters_per_point = max_iters_per_point;
    }

    /// Validates the settings into a computation-ready configuration,
    /// refusing a degenerate geometry rather than computing with it.
    pub fn build(self) -> (r: Result<Buddhabrot, RenderError>)
        ensures
            r is Ok <==> self.dims_ok() && self.points_ok() && self.scale_ok()
                && self.focus_ok(),
            !self.dims_ok() ==> r == Result::<Buddhabrot, RenderError>::Err(
                RenderError::InvalidDimensions,
            ),
            self.dims_ok() && !self.points_ok() ==> r == Result::<Buddhabrot, RenderError>::Err(
                RenderError::InvalidPointCount,
            ),
            self.dims_ok() && self.points_ok() && !self.scale_ok() ==> r == Result::<
                Buddhabrot,
                RenderError,
            >::Err(RenderError::InvalidScale),
            self.dims_ok() && self.points_ok() && self.scale_ok() && !self.focus_ok() ==> r
                == Result::<Buddhabrot, RenderError>::Err(RenderError::InvalidFocus),
            r matches Result::Ok(b) ==> {
                &&& b.wf()
                &&& b.width == self.width
                &&& b.height == self.height
                &&& b.xfocus == self.xfocus
                &&& b.yfocus == self.yfocus
                &&& b.point_count == self.point_count
                &&& b.max_iters_per_point == self.max_iters_per_point
                &&& b.scale as int == (match self.scale {
                    Option::Some(s) => s as int,
                    Option::None => default_scale(self.width as int, self.height as int),
                })
            },
    {
        if self.width < 1 || self.height < 1 {
            return Result::Err(RenderError::InvalidDimensions);
        }
        proof {
            lemma_area_div_bound(self.width as int, self.height as int);
        }
        if self.width > AREA_LIMIT / self.height {
            return Result::Err(RenderError::InvalidDimensions);
        }
        if self.point_count > POINTS_LIMIT {
            return Result::Err(RenderError::InvalidPointCount);
        }
        let scale: i64 = match self.scale {
            Option::Some(s) => {
                if s < 1 || s > SCALE_LIMIT {
                    return Result::Err(RenderError::InvalidScale);
                }
                s
            },
            Option::None => {
                let m: i64 = if self.width < self.height {
                    self.width as i64
                } else {
                    self.height as i64
                };
                proof {
                    lemma_min_within_scale(self.width as int, self.height as int);
                }
                m * FIXED_ONE * 10 / 26
            },
        };
        if self.xfocus < -COORD_LIMIT || self.xfocus > COORD_LIMIT || self.yfocus < -COORD_LIMIT
            || self.yfocus > COORD_LIMIT {
            return Result::Err(RenderError::InvalidFocus);
        }
        Result::Ok(
            Buddhabrot {
                width: self.width,
                height: self.height,
                xfocus: self.xfocus,
                yfocus: self.yfocus,
                scale,
                point_count: self.point_count,
                max_iters_per_point: self.max_iters_per_point,
            },
        )
    }
}

/// `width <= AREA_LIMIT / height` is exactly `width * height <= AREA_LIMIT`.
proof fn lemma_area_div_bound(w: int, h: int)
    requires
        w >= 1,
        h >= 1,
    ensures
        w <= (AREA_LIMIT as int) / h <==> w * h <= AREA_LIMIT as int,
{
    assert(w <= (AREA_LIMIT as int) / h ==> w * h <= AREA_LIMIT as int) by (nonlinear_arith)
        requires
            w >= 1,
            h >= 1,
    ;
    assert(w * h <= AREA_LIMIT as int ==> w <= (AREA_LIMIT as int) / h) by (nonlinear_arith)
        requires
            w >= 1,
            h >= 1,
    ;
}

/// On a usable grid the default scale is positive and within range.
proof fn lemma_min_within_scale(w: int, h: int)
    requires
        w >= 1,
        h >= 1,
        w * h <= AREA_LIMIT as int,
    ensures
        1 <= default_scale(w, h) <= SCALE_LIMIT as int,
        (if w < h {
            w
        } else {
            h
        }) * (FIXED_ONE as int) * 10 <= i64::MAX as int,
{
    let m = if w < h {
        w
    } else {
        h
    };
    assert(m * m <= w * h) by (nonlinear_arith)
        requires
            1 <= m,
            (m == w && m <= h) || (m == h && m <= w),
    ;
    assert(m <= 32768) by (nonlinear_arith)
        requires
            m * m <= AREA_LIMIT as int,
            m >= 1,
    ;
    assert(m * (FIXED_ONE as int) * 10 <= 32768 * (FIXED_ONE as int) * 10) by (nonlinear_arith)
        requires
            1 <= m <= 32768,
    ;
    assert(m * (FIXED_ONE as int) * 10 / 26 >= 1 * (FIXED_ONE as int) * 10 / 26)
        by (nonlinear_arith)
        requires
            m >= 1,
    ;
    assert(m * (FIXED_ONE as int) * 10 / 26 <= 32768 * (FIXED_ONE as int) * 10 / 26)
        by (nonlinear_arith)
        requires
            m * (FIXED_ONE as int) * 10 <= 32768 * (FIXED_ONE as int) * 10,
    ;
}

impl Buddhabrot {
    /// The configuration invariant `build` establishes.
    pub open spec fn wf(&self) -> bool {
        &&& self.width >= 1
        &&& self.height >= 1
        &&& self.width * self.height <= AREA_LIMIT
        &&& 1 <= self.scale <= SCALE_LIMIT
        &&& self.point_count <= POINTS_LIMIT
        &&& -COORD_LIMIT <= self.xfocus <= COORD_LIMIT
        &&& -COORD_LIMIT <= self.yfocus <= COORD_LIMIT
    }
}

/// Where an orbit point `(re, im)` lands on the pixel grid: shift by the
/// focus, add half the frame extent in plane units, scale to pixels, and
/// truncate; a point left of or above the frame (negative coordinate) or at
/// or past its far edges is `None`.
pub open spec fn project_spec(b: Buddhabrot, re: int, im: int) -> Option<(int, int)> {
    let nx = (re - b.xfocus) * (b.scale as int) + (b.width as int) * ((FIXED_ONE_SQ as int) / 2);
    let ny = (im + b.yfocus) * (b.scale as int) + (b.height as int) * ((FIXED_ONE_SQ as int) / 2);
    if nx >= 0 && ny >= 0 {
        let px = nx / (FIXED_ONE_SQ as int);
        let py = ny / (FIXED_ONE_SQ as int);
        if px < b.width as int && py < b.height as int {
            Option::Some((px, py))
        } else {
            Option::None
        }
    } else {
        Option::None
    }
}

/// Maps an orbit point to its pixel, or `None` when it falls outside the
/// frame.
pub fn project(b: &Buddhabrot, z: Complex) -> (r: Option<(usize, usize)>)
    requires
        b.wf(),
        orbit_point(z),
    ensures
        r is Some <==> project_spec(*b, z.re as int, z.im as int) is Some,
        r matches Option::Some(p) ==> {
            &&& project_spec(*b, z.re as int, z.im as int) matches Option::Some(q)
            &&& p.0 as int == q.0
            &&& p.1 as int == q.1
            &&& p.0 < b.width
            &&& p.1 < b.height
        },
{
    proof {
        assert(b.width as int <= AREA_LIMIT as int && b.height as int <= AREA_LIMIT as int)
            by (nonlinear_arith)
            requires
                b.width >= 1,
                b.height >= 1,
                (b.width as int) * (b.height as int) <= AREA_LIMIT as int,
        ;
        lemma_project_bounds(z.re as int, b.xfocus as int, b.scale as int, b.width as int);
        lemma_project_bounds(z.im as int, -(b.yfocus as int), b.scale as int, b.height as int);
    }
    let half: i128 = (FIXED_ONE_SQ / 2) as i128;
    let nx: i128 = (z.re as i128 - b.xfocus as i128) * (b.scale as i128) + (b.width as i128)
        * half;
    let ny: i128 = (z.im as i128 + b.yfocus as i128) * (b.scale as i128) + (b.height as i128)
        * half;
    if nx >= 0 && ny >= 0 {
        let px: i128 = nx / (FIXED_ONE_SQ as i128);
        let py: i128 = ny / (FIXED_ONE_SQ as i128);
        if px < b.width as i128 && py < b.height as i128 {
            Option::Some((px as usize, py as usize))
        } else {
            Option::None
        }
    } else {
        Option::None
    }
}

/// The transform's intermediate values stay far inside 128 bits.
proof fn lemma_project_bounds(zc: int, focus: int, scale: int, extent: int)
    requires
        -(ORBIT_LIMIT as int) <= zc <= ORBIT_LIMIT as int,
        -(COORD_LIMIT as int) <= focus <= COORD_LIMIT as int,
        1 <= scale <= SCALE_LIMIT as int,
        0 <= extent <= AREA_LIMIT as int,
    ensures
        -0x1000_0000_0000_0000_0000_0000 <= (zc - focus) * scale,
        (zc - focus) * scale <= 0x1000_0000_0000_0000_0000_0000,
        0 <= extent * ((FIXED_ONE_SQ as int) / 2) <= 0x1000_0000_0000_0000_0000_0000,
        -0x1000_0000_0000_0000_0000_0000 <= (zc - focus) * scale + extent * ((
        FIXED_ONE_SQ as int) / 2),
        (zc - focus) * scale + extent * ((FIXED_ONE_SQ as int) / 2)
            <= 0x2000_0000_0000_0000_0000_0000,
{
    assert((zc - focus) * scale <= 3_000_000_000 * (SCALE_LIMIT as int) && (zc - focus) * scale
        >= -3_000_000_000 * (SCALE_LIMIT as int)) by (nonlinear_arith)
        requires
            -3_000_000_000 <= zc - focus <= 3_000_000_000,
            1 <= scale <= SCALE_LIMIT as int,
    ;
    assert(0 <= extent * ((FIXED_ONE_SQ as int) / 2) <= (AREA_LIMIT as int) * ((
    FIXED_ONE_SQ as int) / 2)) by (nonlinear_arith)
        requires
            0 <= extent <= AREA_LIMIT as int,
    ;
}

/// The counters after the first `k` tail points of `c` are recorded into
/// `s`: each in-frame point raises the counter of its pixel by one.
pub open spec fn record_tail_spec(b: Buddhabrot, s: Seq<u64>, c: Complex, k: nat) -> Seq<u64>
    decreases k,
{
    if k == 0 {
        s
    } else {
        let prev = record_tail_spec(b, s, c, (k - 1) as nat);
        match project_spec(b, orbit_pt(c, k).0, orbit_pt(c, k).1) {
            Option::Some(p) => prev.update(
                p.1 * b.width + p.0,
                (prev[p.1 * b.width + p.0] + 1) as u64,
            ),
            Option::None => prev,
        }
    }
}

/// The counters after every sample of `pts` is evaluated, in order, against
/// the counters `s`.
pub open spec fn record_points_spec(b: Buddhabrot, s: Seq<u64>, pts: Seq<Complex>) -> Seq<u64>
    decreases pts.len(),
{
    if pts.len() == 0 {
        s
    } else {
        record_tail_spec(
            b,
            record_points_spec(b, s, pts.drop_last()),
            pts.last(),
            tail_len(pts.last(), b.max_iters_per_point),
        )
    }
}

/// How many of the first `k` orbit-tail points of `c` project into the
/// frame.
pub open spec fn orbit_inbound_count(b: Buddhabrot, c: Complex, k: nat) -> nat
    decreases k,
{
    if k == 0 {
        0
    } else {
        orbit_inbound_count(b, c, (k - 1) as nat) + (if project_spec(
            b,
            orbit_pt(c, k).0,
            orbit_pt(c, k).1,
        ) is Some {
            1nat
        } else {
            0nat
        })
    }
}

/// How many hits one evaluated sample contributes: the in-frame points of
/// its whole orbit tail.
pub open spec fn sample_hits(b: Buddhabrot, c: Complex) -> nat {
    orbit_inbound_count(b, c, tail_len(c, b.max_iters_per_point))
}

/// The hits a set of samples contributes, summed in order.
pub open spec fn total_hits(b: Buddhabrot, pts: Seq<Complex>) -> int
    decreases pts.len(),
{
    if pts.len() == 0 {
        0
    } else {
        total_hits(b, pts.drop_last()) + sample_hits(b, pts.last())
    }
}

/// At most `k` of the first `k` tail points can land in the frame.
pub proof fn lemma_orbit_inbound_le(b: Buddhabrot, c: Complex, k: nat)
    ensures
        orbit_inbound_count(b, c, k) <= k,
    decreases k,
{
    if k > 0 {
        lemma_orbit_inbound_le(b, c, (k - 1) as nat);
    }
}

/// A tail never exceeds the safety cap.
pub proof fn lemma_tail_len_le_cap(c: Complex, m: Option<u64>)
    ensures
        tail_len(c, m) <= CAP_LIMIT,
{
    lemma_first_escape_le(c, 0, effective_cap(m));
}

/// `first_escape_from` stays below the cap it searches.
proof fn lemma_first_escape_le(c: Complex, i: nat, cap: nat)
    ensures
        first_escape_from(c, i, cap) <= cap,
    decreases cap - i,
{
    if i < cap {
        lemma_first_escape_le(c, (i + 1) as nat, cap);
    }
}

/// Law: a set of samples contributes at least zero and at most
/// `count * CAP_LIMIT` hits — the hit total is bounded by the number of
/// points generated times the longest possible orbit tail.
pub proof fn lemma_total_hits_bound(b: Buddhabrot, pts: Seq<Complex>)
    ensures
        0 <= total_hits(b, pts),
        total_hits(b, pts) <= pts.len() * CAP_LIMIT,
    decreases pts.len(),
{
    if pts.len() > 0 {
        lemma_total_hits_bound(b, pts.drop_last());
        lemma_orbit_inbound_le(b, pts.last(), tail_len(pts.last(), b.max_iters_per_point));
        lemma_tail_len_le_cap(pts.last(), b.max_iters_per_point);
        assert(pts.drop_last().len() * CAP_LIMIT + CAP_LIMIT == pts.len() * CAP_LIMIT)
            by (nonlinear_arith)
            requires
                pts.len() >= 1,
                pts.drop_last().len() == pts.len() - 1,
        ;
    }
}

impl Buddhabrot {
    /// Evaluates one sample and records every in-frame tail point in the
    /// consolidated field; the hit total rises by exactly the sample's
    /// in-frame tail-point count.
    pub fn accumulate_sample(&self, c: Complex, field: &mut NonatomicBucketField)
        requires
            self.wf(),
            valid_point(c),
            old(field).wf(),
            old(field).width == self.width,
            old(field).height == self.height,
            old(field).hits + CAP_LIMIT <= u64::MAX,
        ensures
            final(field).wf(),
            final(field).width == old(field).width,
            final(field).height == old(field).height,
            final(field).hits == old(field).hits + sample_hits(*self, c),
            final(field).field@ == record_tail_spec(
                *self,
                old(field).field@,
                c,
                tail_len(c, self.max_iters_per_point),
            ),
            sample_hits(*self, c) <= CAP_LIMIT,
    {
        proof {
            lemma_tail_len_le_cap(c, self.max_iters_per_point);
            lemma_orbit_inbound_le(*self, c, tail_len(c, self.max_iters_per_point));
        }
        let ghost entry_field: Seq<u64> = field.field@;
        let ghost n: nat = tail_len(c, self.max_iters_per_point);
        let ghost entry_hits: u64 = field.hits;
        let mut it = iterate(c, self.max_iters_per_point);
        let mut j: u64 = 0;
        while it.remaining > 0
            invariant
                self.wf(),
                valid_point(c),
                it.c == c,
                n <= CAP_LIMIT,
                j as nat + it.remaining as nat == n,
                it.z.re as int == orbit_pt(c, j as nat).0,
                it.z.im as int == orbit_pt(c, j as nat).1,
                orbit_point(it.z),
                forall|k: nat| k < n ==> !escaped(c, k),
                field.wf(),
                field.width == self.width,
                field.height == self.height,
                field.hits as int == entry_hits + orbit_inbound_count(*self, c, j as nat),
                field.field@ == record_tail_spec(*self, entry_field, c, j as nat),
                orbit_inbound_count(*self, c, j as nat) <= j,
                entry_hits + CAP_LIMIT <= u64::MAX,
            decreases it.remaining,
        {
            proof {
                assert(!escaped(c, j as nat));
            }
            let z = match it.next() {
                Option::Some(z) => z,
                Option::None => unreached(),
            };
            j = j + 1;
            proof {
                lemma_orbit_inbound_le(*self, c, j as nat);
            }
            match project(self, z) {
                Option::Some((px, py)) => {
                    field.hit(px, py);
                },
                Option::None => {},
            }
        }
    }

    /// Evaluates a given set of samples in order.  The accounting law: the
    /// field's hit total — and with it, by the field's invariant, the sum of
    /// all its counters — rises by exactly the number of in-frame orbit-tail
    /// points of those samples, a quantity of the samples alone.
    pub fn accumulate(&self, points: &Vec<Complex>, field: &mut NonatomicBucketField)
        requires
            self.wf(),
            forall|j: int| 0 <= j < points@.len() ==> valid_point(points@[j]),
            points@.len() <= POINTS_LIMIT,
            old(field).wf(),
            old(field).width == self.width,
            old(field).height == self.height,
            old(field).hits + points@.len() * CAP_LIMIT <= u64::MAX,
        ensures
            final(field).wf(),
            final(field).width == old(field).width,
            final(field).height == old(field).height,
            final(field).hits as int == old(field).hits + total_hits(*self, points@),
            final(field).field@ == record_points_spec(*self, old(field).field@, points@),
    {
        let ghost entry_hits: u64 = field.hits;
        let ghost entry_field: Seq<u64> = field.field@;
        let n: usize = points.len();
        let mut i: usize = 0;
        while i < n
            invariant
                self.wf(),
                n == points@.len(),
                n <= POINTS_LIMIT,
                i <= n,
                forall|j: int| 0 <= j < points@.len() ==> valid_point(points@[j]),
                field.wf(),
                field.width == self.width,
                field.height == self.height,
                field.hits as int == entry_hits + total_hits(*self, points@.take(i as int)),
                field.field@ == record_points_spec(*self, entry_field, points@.take(i as int)),
                field.hits as int <= entry_hits + (i as int) * CAP_LIMIT,
                entry_hits + (n as int) * CAP_LIMIT <= u64::MAX,
            decreases n - i,
        {
            proof {
                assert((i as int) * CAP_LIMIT + CAP_LIMIT == (i as int + 1) * CAP_LIMIT)
                    by (nonlinear_arith);
                assert((i as int + 1) * CAP_LIMIT <= (n as int) * CAP_LIMIT) by (nonlinear_arith)
                    requires
                        i as int + 1 <= n as int,
                        CAP_LIMIT > 0,
                ;
                assert(points@.take(i as int + 1).drop_last() =~= points@.take(i as int));
            }
            self.accumulate_sample(points[i], field);
            i = i + 1;
        }
        proof {
            assert(points@.take(n as int) =~= points@);
        }
    }

    /// Computes the whole density map single-threadedly: draws the full
    /// sample budget from `source` and accumulates every orbit tail.  The
    /// result accounts exactly for some set of that many samples.
    pub fn compute(&self, source: &mut SampleSource) -> (r: NonatomicBucketField)
        requires
            self.wf(),
        ensures
            r.wf(),
            r.width == self.width,
            r.height == self.height,
            r.hits <= HITS_LIMIT,
            exists|pts: Seq<Complex>|
                pts.len() == self.point_count && r.hits as int == total_hits(*self, pts)
                    && r.field@ == record_points_spec(
                    *self,
                    Seq::new((self.width * self.height) as nat, (|i: int| 0u64)),
                    pts,
                ),
    {
        let mut field = NonatomicBucketField::new(self.width, self.height);
        let ghost zero_field: Seq<u64> = Seq::new(
            (self.width * self.height) as nat,
            (|i: int| 0u64),
        );
        proof {
            assert(field.field@ =~= zero_field);
        }
        let ghost mut pts: Seq<Complex> = Seq::empty();
        let mut p: u64 = 0;
        while p < self.point_count
            invariant
                self.wf(),
                p <= self.point_count,
                pts.len() == p,
                field.wf(),
                field.width == self.width,
                field.height == self.height,
                field.hits as int == total_hits(*self, pts),
                field.field@ == record_points_spec(*self, zero_field, pts),
                field.hits as int <= (p as int) * CAP_LIMIT,
            decreases self.point_count - p,
        {
            proof {
                assert((p as int) * CAP_LIMIT + CAP_LIMIT == (p as int + 1) * CAP_LIMIT)
                    by (nonlinear_arith);
                assert((p as int + 1) * CAP_LIMIT <= (POINTS_LIMIT as int) * CAP_LIMIT)
                    by (nonlinear_arith)
                    requires
                        p as int + 1 <= POINTS_LIMIT as int,
                        CAP_LIMIT > 0,
                ;
            }
            let c = source.draw();
            self.accumulate_sample(c, &mut field);
            proof {
                assert(pts.push(c).drop_last() =~= pts);
                pts = pts.push(c);
            }
            p = p + 1;
        }
        proof {
            assert((self.point_count as int) * CAP_LIMIT <= (POINTS_LIMIT as int) * CAP_LIMIT)
                by (nonlinear_arith)
                requires
                    self.point_count as int <= POINTS_LIMIT as int,
                    CAP_LIMIT > 0,
            ;
        }
        field
    }

    /// Computes the density map and tone-maps it into the 8-bit intensity
    /// buffer, row-major.  A run whose field took no hit at all — as with an
    /// empty sample budget — is refused as degenerate rather than divided by
    /// zero.
    pub fn render(&self, source: &mut SampleSource) -> (r: Result<Vec<u8>, RenderError>)
        requires
            self.wf(),
        ensures
            r is Err ==> r == Result::<Vec<u8>, RenderError>::Err(RenderError::ZeroHitCount),
            r matches Result::Ok(p) ==> p@.len() == self.width * self.height,
            exists|pts: Seq<Complex>|
                pts.len() == self.point_count && (r is Err <==> total_hits(*self, pts) == 0),
            self.point_count == 0 ==> r == Result::<Vec<u8>, RenderError>::Err(
                RenderError::ZeroHitCount,
            ),
    {
        let field = self.compute(source);
        proof {
            let pts = choose|pts: Seq<Complex>|
                pts.len() == self.point_count && field.hits as int == total_hits(*self, pts);
            assert(field.hits as int == total_hits(*self, pts));
        }
        field.tone_map()
    }
}

/// The monotone claim counter the workers race on: each claim hands out the
/// next sample index exactly once.
#[derive(Debug)]
pub struct SampleCounter {
    counter: AtomicU64,
}

impl SampleCounter {
    /// A counter starting at index zero.
    pub fn new() -> SampleCounter {
        SampleCounter { counter: AtomicU64::new(0) }
    }

    /// Claims the next sample index with a single atomic fetch-and-add, so
    /// two workers never evaluate the same index.
    pub fn claim(&self) -> u64 {
        self.counter.fetch_add(1, Ordering::Relaxed)
    }
}

/// One worker's whole share of a computation: claim indices until the budget
/// is exhausted, and for each claim draw a sample, evaluate its orbit tail,
/// and record every in-frame point in the shared concurrent field.
pub fn worker_loop(
    b: &Buddhabrot,
    field: &AtomicBucketField,
    claims: &SampleCounter,
    source: &mut SampleSource,
)
    requires
        b.wf(),
        field.wf(),
        field.width == b.width,
        field.height == b.height,
{
    let mut own: u64 = 0;
    while own < POINTS_LIMIT
        invariant
            b.wf(),
            field.wf(),
            field.width == b.width,
            field.height == b.height,
        decreases POINTS_LIMIT - own,
    {
        let idx = claims.claim();
        if idx >= b.point_count {
            return ;
        }
        let c = source.draw();
        record_tail_atomic(b, c, field);
        own = own + 1;
    }
}

/// Evaluates one sample against the concurrent field.
fn record_tail_atomic(b: &Buddhabrot, c: Complex, field: &AtomicBucketField)
    requires
        b.wf(),
        valid_point(c),
        field.wf(),
        field.width == b.width,
        field.height == b.height,
{
    proof {
        lemma_tail_len_le_cap(c, b.max_iters_per_point);
    }
    let mut it = iterate(c, b.max_iters_per_point);
    let ghost n: nat = tail_len(c, b.max_iters_per_point);
    let mut j: u64 = 0;
    while it.remaining > 0
        invariant
            b.wf(),
            valid_point(c),
            field.wf(),
            field.width == b.width,
            field.height == b.height,
            it.c == c,
            n <= CAP_LIMIT,
            j as nat + it.remaining as nat == n,
            it.z.re as int == orbit_pt(c, j as nat).0,
            it.z.im as int == orbit_pt(c, j as nat).1,
            orbit_point(it.z),
            forall|k: nat| k < n ==> !escaped(c, k),
        decreases it.remaining,
    {
        proof {
            assert(!escaped(c, j as nat));
        }
        let z = match it.next() {
            Option::Some(z) => z,
            Option::None => unreached(),
        };
        j = j + 1;
        match project(b, z) {
            Option::Some((px, py)) => {
                field.hit(px, py);
            },
            Option::None => {},
        }
    }
}

} // verus!

//! The histogram field: a `width x height` grid of hit counters.
//!
//! The concurrent form (`AtomicBucketField`) takes racing increments from any
//! number of worker threads; nothing can be said about the values inside its
//! atomics, so its contracts speak only of shape.  The consolidated form
//! (`NonatomicBucketField`) is plain data with the invariant that the running
//! hit total equals the sum of all counters, and it carries the verified tone
//! mapper that turns counters into 8-bit intensities.

use vstd::prelude::*;
use vstd::pervasive::VecAdditionalExecFns;
use vstd::arithmetic::div_mod::{lemma_div_by_multiple, lemma_div_is_ordered, lemma_basic_div};
use core::sync::atomic::AtomicU64;
use core::sync::atomic::Ordering;

verus! {

/// Largest permitted cell count of a field (so index and tone-map arithmetic
/// stay within machine integers).
pub const AREA_LIMIT: usize = 1_073_741_824;

/// Largest hit total the tone mapper accepts (so its 128-bit squaring cannot
/// overflow).
pub const HITS_LIMIT: u64 = 0x80_0000_0000_0000;

/// What can go wrong while building or rendering a configuration.
#[derive(Clone, Copy, Debug, PartialEq, Eq, Structural)]
pub enum RenderError {
    /// Width or height is zero, or the grid has more than `AREA_LIMIT` cells.
    InvalidDimensions,
    /// A configured scale is zero, negative, or above `SCALE_LIMIT`.
    InvalidScale,
    /// The focus lies outside the accepted part of the plane.
    InvalidFocus,
    /// The sample budget exceeds `POINTS_LIMIT`.
    InvalidPointCount,
    /// The accumulated field holds no hit at all, so no normalization exists.
    ZeroHitCount,
}

/// Sum of a sequence of counters.
pub open spec fn seq_sum(s: Seq<u64>) -> int
    decreases s.len(),
{
    if s.len() == 0 {
        0
    } else {
        seq_sum(s.drop_last()) + s.last()
    }
}

/// Appending a counter adds its value to the sum.
pub proof fn lemma_seq_sum_push(s: Seq<u64>, v: u64)
    ensures
        seq_sum(s.push(v)) == seq_sum(s) + v,
{
    assert(s.push(v).drop_last() =~= s);
    assert(s.push(v).last() == v);
}

/// Every counter is between zero and the sum.
pub proof fn lemma_seq_sum_bounds(s: Seq<u64>, j: int)
    requires
        0 <= j < s.len(),
    ensures
        seq_sum(s) >= 0,
        s[j] <= seq_sum(s),
    decreases s.len(),
{
    lemma_seq_sum_nonneg(s.drop_last());
    if j < s.len() - 1 {
        lemma_seq_sum_bounds(s.drop_last(), j);
    }
}

/// The sum of counters is non-negative.
pub proof fn lemma_seq_sum_nonneg(s: Seq<u64>)
    ensures
        seq_sum(s) >= 0,
    decreases s.len(),
{
    if s.len() > 0 {
        lemma_seq_sum_nonneg(s.drop_last());
    }
}

/// Raising one counter raises the sum by the same amount.
pub proof fn lemma_seq_sum_update(s: Seq<u64>, j: int, v: u64)
    requires
        0 <= j < s.len(),
    ensures
        seq_sum(s.update(j, v)) == seq_sum(s) - s[j] + v,
    decreases s.len(),
{
    if j == s.len() - 1 {
        assert(s.update(j, v).drop_last() =~= s.drop_last());
    } else {
        assert(s.update(j, v).drop_last() =~= s.drop_last().update(j, v));
        lemma_seq_sum_update(s.drop_last(), j, v);
    }
}

/// A prefix one longer sums to the prefix plus the next counter.
proof fn lemma_seq_sum_take(s: Seq<u64>, i: int)
    requires
        0 <= i < s.len(),
    ensures
        seq_sum(s.take(i + 1)) == seq_sum(s.take(i)) + s[i],
{
    assert(s.take(i + 1).drop_last() =~= s.take(i));
    assert(s.take(i + 1).last() == s[i]);
}

/// A grid position maps to an in-range row-major index.
proof fn lemma_index_bound(x: int, y: int, w: int, h: int)
    requires
        0 <= x < w,
        0 <= y < h,
    ensures
        0 <= y * w + x < w * h,
{
    assert(y * w + x < w * h) by (nonlinear_arith)
        requires
            0 <= x < w,
            0 <= y < h,
    ;
}

/// The consolidated histogram: plain counters and their running total.
#[derive(Clone, Debug, PartialEq, Eq, Hash)]
pub struct NonatomicBucketField {
    pub field: Vec<u64>,
    pub width: usize,
    pub height: usize,
    pub hits: u64,
}

impl NonatomicBucketField {
    /// Shape and accounting invariant: one counter per cell, and the hit
    /// total equals the sum of all counters.
    pub open spec fn wf(&self) -> bool {
        &&& self.width >= 1
        &&& self.height >= 1
        &&& self.width * self.height <= AREA_LIMIT
        &&& self.field@.len() == self.width * self.height
        &&& self.hits as int == seq_sum(self.field@)
    }

    /// A zeroed grid.
    pub fn new(width: usize, height: usize) -> (r: NonatomicBucketField)
        requires
            width >= 1,
            height >= 1,
            width * height <= AREA_LIMIT,
        ensures
            r.wf(),
            r.width == width,
            r.height == height,
            r.hits == 0,
            forall|j: int| 0 <= j < r.field@.len() ==> r.field@[j] == 0,
    {
        let n: usize = width * height;
        let mut field: Vec<u64> = Vec::new();
        let mut i: usize = 0;
        while i < n
            invariant
                i <= n,
                field@.len() == i,
                seq_sum(field@) == 0,
                forall|j: int| 0 <= j < i ==> field@[j] == 0,
            decreases n - i,
        {
            proof {
                lemma_seq_sum_push(field@, 0);
            }
            field.push(0);
            i = i + 1;
        }
        NonatomicBucketField { field, width, height, hits: 0 }
    }

    /// Counts one hit at `(x, y)`; a position outside the frame is silently
    /// ignored.
    pub fn hit(&mut self, x: usize, y: usize)
        requires
            old(self).wf(),
            old(self).hits < u64::MAX,
        ensures
            final(self).wf(),
            final(self).width == old(self).width,
            final(self).height == old(self).height,
            (x < old(self).width && y < old(self).height) ==> {
                &&& final(self).field@ == old(self).field@.update(
                    (y * old(self).width + x) as int,
                    (old(self).field@[(y * old(self).width + x) as int] + 1) as u64,
                )
                &&& final(self).hits == old(self).hits + 1
            },
            !(x < old(self).width && y < old(self).height) ==> *final(self) == *old(self),
    {
        if x < self.width && y < self.height {
            proof {
                lemma_index_bound(x as int, y as int, self.width as int, self.height as int);
            }
            let idx: usize = y * self.width + x;
            proof {
                lemma_seq_sum_bounds(self.field@, idx as int);
            }
            let cur: u64 = self.field[idx];
            proof {
                lemma_seq_sum_update(self.field@, idx as int, (cur + 1) as u64);
            }
            self.field.set(idx, cur + 1);
            self.hits = self.hits + 1;
        }
    }

    /// Consolidates a vector of counters read from the concurrent form,
    /// recomputing the total as their sum; `None` if that sum cannot be
    /// counted in 64 bits.
    pub fn from_counts(width: usize, height: usize, counts: Vec<u64>) -> (r: Option<
        NonatomicBucketField,
    >)
        requires
            width >= 1,
            height >= 1,
            width * height <= AREA_LIMIT,
            counts@.len() == width * height,
        ensures
            r is Some <==> seq_sum(counts@) <= u64::MAX,
            r matches Option::Some(f) ==> {
                &&& f.wf()
                &&& f.width == width
                &&& f.height == height
                &&& f.field@ == counts@
                &&& f.hits as int == seq_sum(counts@)
            },
    {
        let n: usize = counts.len();
        let mut total: u128 = 0;
        let mut i: usize = 0;
        while i < n
            invariant
                i <= n,
                n == counts@.len(),
                n <= AREA_LIMIT,
                total as int == seq_sum(counts@.take(i as int)),
                total <= (i as int) * (u64::MAX as int),
            decreases n - i,
        {
            proof {
                lemma_seq_sum_take(counts@, i as int);
            }
            total = total + counts[i] as u128;
            i = i + 1;
        }
        proof {
            assert(counts@.take(n as int) =~= counts@);
        }
        if total <= u64::MAX as u128 {
            Option::Some(
                NonatomicBucketField { field: counts, width, height, hits: total as u64 },
            )
        } else {
            Option::None
        }
    }

    /// Consolidates the concurrent form once all workers are done; `None` if
    /// the counters read sum to more than 64 bits can hold.
    pub fn from_atomic(source: &AtomicBucketField) -> (r: Option<NonatomicBucketField>)
        requires
            source.wf(),
        ensures
            r matches Option::Some(f) ==> {
                &&& f.wf()
                &&& f.width == source.width
                &&& f.height == source.height
            },
    {
        let counts = source.snapshot();
        NonatomicBucketField::from_counts(source.width, source.height, counts)
    }

    /// Normalizes the counters into 8-bit intensities, row-major: each cell
    /// becomes `min(255, round((counter * 2 * width * height / hits)^2))`.
    /// A field with no hits has no normalization factor and is refused.
    pub fn tone_map(&self) -> (r: Result<Vec<u8>, RenderError>)
        requires
            self.width >= 1,
            self.height >= 1,
            self.field@.len() == self.width * self.height,
            self.width * self.height <= AREA_LIMIT,
            self.hits <= HITS_LIMIT,
        ensures
            r is Err <==> self.hits == 0,
            r is Err ==> r == Result::<Vec<u8>, RenderError>::Err(RenderError::ZeroHitCount),
            r matches Result::Ok(p) ==> {
                &&& p@.len() == self.field@.len()
                &&& forall|j: int|
                    0 <= j < p@.len() ==> p@[j] as int == tone_value(
                        self.field@[j] as int,
                        self.width as int,
                        self.height as int,
                        self.hits as int,
                    )
            },
    {
        if self.hits == 0 {
            return Result::Err(RenderError::ZeroHitCount);
        }
        let n: usize = self.field.len();
        let mut pixels: Vec<u8> = Vec::new();
        let mut j: usize = 0;
        while j < n
            invariant
                j <= n,
                n == self.field@.len(),
                self.width >= 1,
                self.height >= 1,
                self.width * self.height <= AREA_LIMIT,
                1 <= self.hits <= HITS_LIMIT,
                pixels@.len() == j,
                forall|k: int|
                    0 <= k < j ==> pixels@[k] as int == tone_value(
                        self.field@[k] as int,
                        self.width as int,
                        self.height as int,
                        self.hits as int,
                    ),
            decreases n - j,
        {
            let v = tone_cell(self.field[j], self.width, self.height, self.hits);
            pixels.push(v);
            j = j + 1;
        }
        Result::Ok(pixels)
    }
}

/// The tone-mapped intensity of one counter `x`: with normalization factor
/// `2 * w * h / hits`, the value `min(255, round((x * factor)^2))`, written
/// over exact integers (`round(n/d)` as `(2n + d) / (2d)`).
pub open spec fn tone_value(x: int, w: int, h: int, hits: int) -> int {
    let a = 2 * x * w * h;
    let v = (2 * (a * a) + hits * hits) / (2 * (hits * hits));
    if v > 255 {
        255
    } else {
        v
    }
}

/// A counter at or past `8 * hits / (w * h)` saturates the intensity.
pub proof fn lemma_tone_saturates(x: int, w: int, h: int, hits: int)
    requires
        hits >= 1,
        x >= 0,
        w >= 1,
        h >= 1,
        2 * x * w * h >= 16 * hits,
    ensures
        tone_value(x, w, h, hits) == 255,
{
    let a = 2 * x * w * h;
    let hh = hits * hits;
    assert(a * a >= 256 * hh && hh >= 1) by (nonlinear_arith)
        requires
            a >= 16 * hits,
            hits >= 1,
            hh == hits * hits,
    ;
    lemma_div_by_multiple(256, 2 * hh);
    lemma_div_is_ordered(256 * (2 * hh), 2 * (a * a) + hh, 2 * hh);
    assert((2 * (a * a) + hh) / (2 * hh) >= 256);
}

/// The tone-mapped value of one cell.
fn tone_cell(x: u64, width: usize, height: usize, hits: u64) -> (r: u8)
    requires
        width >= 1,
        height >= 1,
        width * height <= AREA_LIMIT,
        1 <= hits <= HITS_LIMIT,
    ensures
        r as int == tone_value(x as int, width as int, height as int, hits as int),
{
    proof {
        let xi = x as int;
        let wi = width as int;
        let hi = height as int;
        assert(wi <= AREA_LIMIT as int && hi <= AREA_LIMIT as int) by (nonlinear_arith)
            requires
                wi >= 1,
                hi >= 1,
                wi * hi <= AREA_LIMIT as int,
        ;
        assert(0 <= 2 * xi * wi && 2 * xi * wi <= 2 * (u64::MAX as int) * (AREA_LIMIT as int))
            by (nonlinear_arith)
            requires
                0 <= xi <= u64::MAX as int,
                1 <= wi <= AREA_LIMIT as int,
        ;
        assert(0 <= 2 * xi * wi * hi && 2 * xi * wi * hi <= 2 * (u64::MAX as int) * (
        AREA_LIMIT as int) * (AREA_LIMIT as int)) by (nonlinear_arith)
            requires
                0 <= 2 * xi * wi <= 2 * (u64::MAX as int) * (AREA_LIMIT as int),
                1 <= hi <= AREA_LIMIT as int,
        ;
    }
    let a: u128 = 2 * (x as u128) * (width as u128) * (height as u128);
    if a >= 16 * (hits as u128) {
        proof {
            lemma_tone_saturates(x as int, width as int, height as int, hits as int);
        }
        255
    } else {
        proof {
            assert((hits as int) * (hits as int) <= 0x4000_0000_0000_0000_0000_0000_0000 && (
            hits as int) * (hits as int) >= 1) by (nonlinear_arith)
                requires
                    1 <= hits as int <= HITS_LIMIT as int,
            ;
        }
        let hh: u128 = (hits as u128) * (hits as u128);
        proof {
            assert(a * a < 0x1000_0000_0000_0000_0000_0000_0000_0000u128 && a * a >= 0)
                by (nonlinear_arith)
                requires
                    0 <= a < 16 * (hits as u128),
                    hits as int <= HITS_LIMIT as int,
            ;
        }
        let q: u128 = (2 * (a * a) + hh) / (2 * hh);
        if q > 255 {
            255
        } else {
            q as u8
        }
    }
}

/// Law: a field whose one nonzero counter holds half the hit total (on a
/// grid of at least 16 cells) maps to full intensity at that cell and zero
/// everywhere else.
pub proof fn lemma_tone_mapper_peak(v: int, w: int, h: int)
    requires
        v >= 1,
        w >= 1,
        h >= 1,
        w * h >= 16,
    ensures
        tone_value(v, w, h, 2 * v) == 255,
        tone_value(0, w, h, 2 * v) == 0,
{
    assert(2 * v * w * h >= 16 * (2 * v)) by (nonlinear_arith)
        requires
            v >= 1,
            w * h >= 16,
    ;
    lemma_tone_saturates(v, w, h, 2 * v);
    let hits = 2 * v;
    let hh = hits * hits;
    assert(hh >= 1) by (nonlinear_arith)
        requires
            hits >= 2,
            hh == hits * hits,
    ;
    assert(2 * 0 * w * h == 0) by (nonlinear_arith);
    let a0 = 2 * 0 * w * h;
    assert(2 * (a0 * a0) + hh == hh);
    lemma_basic_div(hh, 2 * hh);
    assert((2 * (a0 * a0) + hh) / (2 * hh) == 0);
}

/// The concurrent histogram: one atomic counter per cell, safely incremented
/// from any number of worker threads at once.
#[derive(Debug)]
pub struct AtomicBucketField {
    pub field: Vec<AtomicU64>,
    pub width: usize,
    pub height: usize,
}

impl AtomicBucketField {
    /// Shape invariant: one atomic counter per cell.
    pub open spec fn wf(&self) -> bool {
        &&& self.width >= 1
        &&& self.height >= 1
        &&& self.width * self.height <= AREA_LIMIT
        &&& self.field@.len() == self.width * self.height
    }

    /// A zeroed concurrent grid.
    pub fn new(width: usize, height: usize) -> (r: AtomicBucketField)
        requires
            width >= 1,
            height >= 1,
            width * height <= AREA_LIMIT,
        ensures
            r.wf(),
            r.width == width,
            r.height == height,
    {
        let n: usize = width * height;
        let mut field: Vec<AtomicU64> = Vec::new();
        let mut i: usize = 0;
        while i < n
            invariant
                i <= n,
                field@.len() == i,
            decreases n - i,
        {
            field.push(AtomicU64::new(0));
            i = i + 1;
        }
        AtomicBucketField { field, width, height }
    }

    /// Counts one hit at `(x, y)` with a single atomic fetch-and-add, so no
    /// concurrent increment is ever lost; a position outside the frame is
    /// silently ignored.
    pub fn hit(&self, x: usize, y: usize)
        requires
            self.wf(),
    {
        if x < self.width && y < self.height {
            proof {
                lemma_index_bound(x as int, y as int, self.width as int, self.height as int);
            }
            let idx: usize = y * self.width + x;
            let _previous: u64 = self.field[idx].fetch_add(1, Ordering::Relaxed);
        }
    }

    /// A concurrent grid primed with the counters of a consolidated field,
    /// ready for further accumulation.
    pub fn from_field(source: &NonatomicBucketField) -> (r: AtomicBucketField)
        requires
            source.wf(),
        ensures
            r.wf(),
            r.width == source.width,
            r.height == source.height,
    {
        let n: usize = source.field.len();
        let mut field: Vec<AtomicU64> = Vec::new();
        let mut i: usize = 0;
        while i < n
            invariant
                i <= n,
                n == source.field@.len(),
                field@.len() == i,
            decreases n - i,
        {
            field.push(AtomicU64::new(source.field[i]));
            i = i + 1;
        }
        AtomicBucketField { field, width: source.width, height: source.height }
    }

    /// Reads every counter once, row-major.  Meant for consolidation after
    /// all workers have joined; racing writers make the values, though not
    /// the shape, unpredictable.
    pub fn snapshot(&self) -> (r: Vec<u64>)
        requires
            self.wf(),
        ensures
            r@.len() == self.field@.len(),
    {
        let n: usize = self.field.len();
        let mut counts: Vec<u64> = Vec::new();
        let mut i: usize = 0;
        while i < n
            invariant
                i <= n,
                n == self.field@.len(),
                counts@.len() == i,
            decreases n - i,
        {
            counts.push(self.field[i].load(Ordering::Relaxed));
            i = i + 1;
        }
        counts
    }
}

} // verus!

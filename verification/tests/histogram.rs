//! Behaviour of the histogram field, the tone mapper, configuration
//! validation and the accumulation accounting on concrete values.

use bbrot::field::{NonatomicBucketField, AtomicBucketField, RenderError};
use bbrot::fixed::{Complex, FIXED_ONE};
use bbrot::sample::SampleSource;
use bbrot::setup::Setup;

fn fx(x: f64) -> i64 {
    (x * FIXED_ONE as f64).round() as i64
}

#[test]
fn field_counts_hits_and_ignores_out_of_frame() {
    let mut field = NonatomicBucketField::new(4, 3);
    assert_eq!(field.hits, 0);
    field.hit(0, 0);
    field.hit(3, 2);
    field.hit(3, 2);
    field.hit(4, 0); // out of frame
    field.hit(0, 3); // out of frame
    assert_eq!(field.hits, 3);
    assert_eq!(field.field[0], 1);
    assert_eq!(field.field[2 * 4 + 3], 2);
    let sum: u64 = field.field.iter().sum();
    assert_eq!(sum, field.hits);
}

#[test]
fn atomic_field_counts_like_plain_field() {
    let field = AtomicBucketField::new(4, 3);
    field.hit(1, 1);
    field.hit(1, 1);
    field.hit(9, 9); // out of frame
    let consolidated = NonatomicBucketField::from_atomic(&field).unwrap();
    assert_eq!(consolidated.hits, 2);
    assert_eq!(consolidated.field[1 * 4 + 1], 2);
}

#[test]
fn consolidation_recomputes_total_as_sum() {
    let f = NonatomicBucketField::from_counts(2, 2, vec![1, 2, 3, 4]).unwrap();
    assert_eq!(f.hits, 10);
    assert_eq!(f.field, vec![1, 2, 3, 4]);
}

#[test]
fn round_trip_through_atomic_form_keeps_counters() {
    let plain = NonatomicBucketField::from_counts(2, 2, vec![5, 0, 7, 1]).unwrap();
    let concurrent = AtomicBucketField::from_field(&plain);
    concurrent.hit(0, 1);
    let back = NonatomicBucketField::from_atomic(&concurrent).unwrap();
    assert_eq!(back.field, vec![5, 0, 8, 1]);
    assert_eq!(back.hits, 14);
}

#[test]
fn tone_mapper_peak_cell_saturates() {
    // One counter holding half the hit total maps to 255; empty cells to 0.
    let mut counts = vec![0u64; 25];
    counts[7] = 8;
    let field = NonatomicBucketField { field: counts, width: 5, height: 5, hits: 16 };
    let pixels = field.tone_map().unwrap();
    assert_eq!(pixels.len(), 25);
    for (j, p) in pixels.iter().enumerate() {
        if j == 7 {
            assert_eq!(*p, 255);
        } else {
            assert_eq!(*p, 0);
        }
    }
}

#[test]
fn tone_mapper_exact_midrange_value() {
    // counter 1, 2x2 grid, 8 hits: factor = 2*4/8 = 1, intensity round(1^2) = 1.
    let field = NonatomicBucketField { field: vec![1, 0, 0, 0], width: 2, height: 2, hits: 8 };
    let pixels = field.tone_map().unwrap();
    assert_eq!(pixels[0], 1);
    // counter 3 with the same factor: round(3^2) = 9.
    let field = NonatomicBucketField { field: vec![3, 0, 0, 0], width: 2, height: 2, hits: 8 };
    let pixels = field.tone_map().unwrap();
    assert_eq!(pixels[0], 9);
}

#[test]
fn tone_mapper_refuses_zero_hits() {
    let field = NonatomicBucketField::new(4, 4);
    assert_eq!(field.tone_map(), Err(RenderError::ZeroHitCount));
}

#[test]
fn build_validates_dimensions() {
    assert_eq!(
        Setup::new(0, 10, 5).build().unwrap_err(),
        RenderError::InvalidDimensions
    );
    assert_eq!(
        Setup::new(10, 0, 5).build().unwrap_err(),
        RenderError::InvalidDimensions
    );
    assert!(Setup::new(10, 10, 5).build().is_ok());
}

#[test]
fn build_accepts_exactly_the_largest_grid() {
    // 32768 x 32768 cells is the area limit; one more row is too many.
    assert!(Setup::new(32_768, 32_768, 1).build().is_ok());
    assert_eq!(
        Setup::new(65_536, 32_768, 1).build().unwrap_err(),
        RenderError::InvalidDimensions
    );
}

#[test]
fn build_validates_point_count() {
    let s = Setup::new(10, 10, u64::MAX);
    assert_eq!(s.build().unwrap_err(), RenderError::InvalidPointCount);
}

#[test]
fn build_validates_scale() {
    let mut s = Setup::new(10, 10, 5);
    s.scale(0);
    assert_eq!(s.build().unwrap_err(), RenderError::InvalidScale);
    let mut s = Setup::new(10, 10, 5);
    s.scale(-3);
    assert_eq!(s.build().unwrap_err(), RenderError::InvalidScale);
    let mut s = Setup::new(10, 10, 5);
    s.scale(fx(1.0));
    assert!(s.build().is_ok());
}

#[test]
fn build_validates_focus() {
    let mut s = Setup::new(10, 10, 5);
    s.xfocus = fx(5000.0);
    assert_eq!(s.build().unwrap_err(), RenderError::InvalidFocus);
}

#[test]
fn build_applies_default_scale() {
    // min(width, height) / 2.6 pixels per plane unit, truncated.
    let b = Setup::new(100, 260, 5).build().unwrap();
    assert_eq!(b.scale, 100i64 * FIXED_ONE * 10 / 26);
    assert_eq!(b.xfocus, fx(-0.7));
    assert_eq!(b.yfocus, 0);
}

#[test]
fn accumulate_projects_far_point_to_exact_pixel() {
    // c = (3, 0) has the one-point tail [c]; with scale 1 px/unit and focus
    // (-0.7, 0) on a 100x100 frame it lands at (53, 50):
    // x = (3 - (-0.7)) * 1 + 50 = 53.7 -> 53, y = (0 + 0) * 1 + 50 = 50.
    let mut s = Setup::new(100, 100, 0);
    s.scale(fx(1.0));
    let b = s.build().unwrap();
    let mut field = NonatomicBucketField::new(100, 100);
    let points = vec![Complex { re: fx(3.0), im: 0 }];
    b.accumulate(&points, &mut field);
    assert_eq!(field.hits, 1);
    assert_eq!(field.field[50 * 100 + 53], 1);
}

#[test]
fn accumulate_counts_only_in_frame_points() {
    // On a tiny frame the same tail point falls outside and is dropped.
    let mut s = Setup::new(4, 4, 0);
    s.scale(fx(1.0));
    let b = s.build().unwrap();
    let mut field = NonatomicBucketField::new(4, 4);
    let points = vec![Complex { re: fx(3.0), im: 0 }, Complex { re: 0, im: 0 }];
    b.accumulate(&points, &mut field);
    assert_eq!(field.hits, 0);
}

#[test]
fn accumulation_total_equals_counter_sum() {
    // The accounting invariant on a mixed bag of samples.
    let b = Setup::new(64, 64, 0).build().unwrap();
    let mut field = NonatomicBucketField::new(64, 64);
    let points = vec![
        Complex { re: fx(0.5), im: fx(0.5) },
        Complex { re: fx(-0.2), im: fx(0.8) },
        Complex { re: fx(3.0), im: 0 },
        Complex { re: 0, im: 0 },
        Complex { re: fx(0.3), im: fx(-0.6) },
    ];
    b.accumulate(&points, &mut field);
    let sum: u64 = field.field.iter().sum();
    assert_eq!(sum, field.hits);
    assert!(field.hits >= 1);
}

#[test]
fn zero_point_budget_is_degenerate() {
    // 10 x 10 with no samples: a zero-hit field must surface as an error,
    // not as a silently black image.
    let b = Setup::new(10, 10, 0).build().unwrap();
    let mut source = SampleSource::from_seed(5);
    assert_eq!(b.render(&mut source), Err(RenderError::ZeroHitCount));
}

#[test]
fn render_produces_full_frame() {
    let b = Setup::new(20, 20, 400).build().unwrap();
    let mut source = SampleSource::from_seed(11);
    let pixels = b.render(&mut source).unwrap();
    assert_eq!(pixels.len(), 400);
}

#[test]
fn compute_keeps_field_shape() {
    let b = Setup::new(16, 8, 50).build().unwrap();
    let mut source = SampleSource::from_seed(3);
    let field = b.compute(&mut source);
    assert_eq!(field.width, 16);
    assert_eq!(field.height, 8);
    assert_eq!(field.field.len(), 128);
    let sum: u64 = field.field.iter().sum();
    assert_eq!(sum, field.hits);
}

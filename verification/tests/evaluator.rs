//! Behaviour of the escape evaluator, the cycle detector and the sampler on
//! concrete points.

use bbrot::escape::{iterate, cardioid_check, bulb_check, CycleDetector};
use bbrot::fixed::{Complex, FIXED_ONE, ESCAPE_THRESHOLD, norm_sq_exec};
use bbrot::sample::SampleSource;

fn fx(x: f64) -> i64 {
    (x * FIXED_ONE as f64).round() as i64
}

#[test]
fn far_point_escapes_on_first_step() {
    // |c| > 2: the tail is exactly [c], found on the first iteration.
    let c = Complex { re: fx(3.0), im: 0 };
    let mut it = iterate(c, None);
    assert_eq!(it.size_hint(), (1, Some(1)));
    assert_eq!(it.next(), Some(c));
    assert_eq!(it.next(), None);
    assert_eq!(it.size_hint(), (0, Some(0)));
}

#[test]
fn far_point_off_axis_escapes_on_first_step() {
    let c = Complex { re: fx(2.0), im: fx(2.0) };
    let mut it = iterate(c, None);
    assert_eq!(it.next(), Some(c));
    assert_eq!(it.next(), None);
}

#[test]
fn cardioid_point_yields_empty_tail() {
    // The origin lies in the main cardioid: no iteration happens at all.
    let c = Complex { re: 0, im: 0 };
    assert!(cardioid_check(c));
    let mut it = iterate(c, None);
    assert_eq!(it.size_hint(), (0, Some(0)));
    assert_eq!(it.next(), None);
}

#[test]
fn bulb_point_yields_empty_tail() {
    // (-1, 0) is the centre of the period-2 bulb.
    let c = Complex { re: fx(-1.0), im: 0 };
    assert!(bulb_check(c));
    let mut it = iterate(c, None);
    assert_eq!(it.next(), None);
}

#[test]
fn outside_checks_inside_set_detected_as_cycle() {
    // c = (-1.8, 0) lies in neither pre-check region, yet never escapes;
    // only cycle detection (or the cap) can classify it, and it must come
    // back empty rather than loop forever.
    let c = Complex { re: fx(-1.8), im: 0 };
    assert!(!cardioid_check(c));
    assert!(!bulb_check(c));
    let mut it = iterate(c, None);
    assert_eq!(it.next(), None);
}

#[test]
fn escaping_point_tail_is_replayed_exactly() {
    // c = (0.5, 0.5) escapes; the tail must be the exact fixed-point orbit.
    let c = Complex { re: fx(0.5), im: fx(0.5) };
    let mut it = iterate(c, None);
    let (len, _) = it.size_hint();
    assert!(len >= 2);
    let mut last = Complex { re: 0, im: 0 };
    let mut n = 0usize;
    while let Some(z) = it.next() {
        last = z;
        n += 1;
    }
    assert_eq!(n, len);
    // The final point is the one that escaped.
    assert!(norm_sq_exec(last) > ESCAPE_THRESHOLD);
}

#[test]
fn iteration_cap_abandons_point() {
    let c = Complex { re: fx(3.0), im: 0 };
    // A budget of 0 or 1 steps never sees the escape at index 1.
    let mut it0 = iterate(c, Some(0));
    assert_eq!(it0.next(), None);
    let mut it1 = iterate(c, Some(1));
    assert_eq!(it1.next(), None);
    // Two steps of budget reach it.
    let mut it2 = iterate(c, Some(2));
    assert_eq!(it2.next(), Some(c));
    assert_eq!(it2.next(), None);
}

#[test]
fn cycle_detector_finds_alternating_orbit() {
    // A synthetic period-2 orbit: detection must fire within the first
    // doubling rounds of the schedule, well under 100 steps.
    let a = Complex { re: fx(0.1), im: fx(0.2) };
    let b = Complex { re: fx(0.3), im: fx(0.4) };
    let mut detector = CycleDetector::new();
    let mut found_at = None;
    for step in 1..=100u64 {
        let v = if step % 2 == 1 { a } else { b };
        if detector.check(v) {
            found_at = Some(step);
            break;
        }
    }
    let at = found_at.expect("period-2 orbit must be detected");
    assert!(at <= 100);
}

#[test]
fn cycle_detector_finds_constant_orbit() {
    let v = Complex { re: fx(-0.5), im: 0 };
    let mut detector = CycleDetector::new();
    let mut found = false;
    for _ in 0..100u64 {
        if detector.check(v) {
            found = true;
            break;
        }
    }
    assert!(found);
}

#[test]
fn cycle_detector_transitions_exactly() {
    // The first teleport happens once the initial budget of 32 is spent.
    let a = Complex { re: 1, im: 2 };
    let b = Complex { re: 3, im: 4 };
    let mut detector = CycleDetector::new();
    for step in 1..=32u64 {
        let v = if step % 2 == 1 { a } else { b };
        assert!(!detector.check(v));
    }
    assert_eq!(detector.power, 32);
    assert_eq!(detector.turtle, None);
    // Step 33 first teleports: the checkpoint becomes z_32 = b and the
    // budget doubles; z_33 = a misses, z_34 = b matches.
    assert!(!detector.check(a));
    assert_eq!(detector.power, 64);
    assert_eq!(detector.turtle, Some(b));
    assert!(detector.check(b));
}

#[test]
fn sampler_draws_stay_in_disk() {
    let mut source = SampleSource::from_seed(42);
    for _ in 0..2000 {
        let c = source.draw();
        assert!(c.re.abs() <= 2 * FIXED_ONE);
        assert!(c.im.abs() <= 2 * FIXED_ONE);
        assert!(norm_sq_exec(c) <= ESCAPE_THRESHOLD);
    }
}

#[test]
fn sampler_radial_distribution_is_roughly_uniform() {
    // Uniform over the disk: four annuli of equal area should each take
    // about a quarter of many draws.
    let mut source = SampleSource::from_seed(99);
    let draws = 40_000;
    let mut bins = [0u32; 4];
    for _ in 0..draws {
        let c = source.draw();
        let r2 = (c.re as f64).powi(2) + (c.im as f64).powi(2);
        let unit = (FIXED_ONE as f64).powi(2);
        // Annulus k covers squared radius [k, k + 1) in plane units.
        let k = (r2 / unit).floor() as usize;
        bins[k.min(3)] += 1;
    }
    let expected = draws as f64 / 4.0;
    for count in bins {
        let deviation = (count as f64 - expected).abs() / expected;
        assert!(deviation < 0.1, "annulus off by {:.0}%", deviation * 100.0);
    }
}

#[test]
fn sampler_seeding_is_reproducible() {
    let mut one = SampleSource::from_seed(7);
    let mut two = SampleSource::from_seed(7);
    for _ in 0..50 {
        assert_eq!(one.draw(), two.draw());
    }
}

#[test]
fn sampler_actually_varies() {
    // A sampler that ignored its generator would repeat one point forever.
    let mut source = SampleSource::from_seed(1);
    let first = source.draw();
    let mut saw_other = false;
    for _ in 0..50 {
        if source.draw() != first {
            saw_other = true;
        }
    }
    assert!(saw_other);
}

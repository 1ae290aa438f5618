//! Concurrent accumulation: racing workers lose no update, and the shared
//! claim counter hands the sample budget out exactly once.

use bbrot::field::{AtomicBucketField, NonatomicBucketField};
use bbrot::sample::SampleSource;
use bbrot::setup::{Setup, SampleCounter, worker_loop};

#[test]
fn concurrent_hits_lose_no_update() {
    // 4 threads x 10_000 increments of one cell: every one must land.
    let field = AtomicBucketField::new(8, 8);
    crossbeam::scope(|scope| {
        for _ in 0..4 {
            scope.spawn(|_| {
                for _ in 0..10_000 {
                    field.hit(3, 5);
                }
            });
        }
    })
    .unwrap();
    let consolidated = NonatomicBucketField::from_atomic(&field).unwrap();
    assert_eq!(consolidated.hits, 40_000);
    assert_eq!(consolidated.field[5 * 8 + 3], 40_000);
}

#[test]
fn claim_counter_hands_out_budget_exactly_once() {
    // Workers racing on the claim counter evaluate each index below the
    // target exactly once: with one hit recorded per claimed index, the
    // consolidated total equals the target for any worker count.
    let target: u64 = 5_000;
    let workers = 4;
    let field = AtomicBucketField::new(4, 4);
    let claims = SampleCounter::new();
    crossbeam::scope(|scope| {
        for _ in 0..workers {
            scope.spawn(|_| loop {
                let idx = claims.claim();
                if idx >= target {
                    break;
                }
                field.hit(0, 0);
            });
        }
    })
    .unwrap();
    let consolidated = NonatomicBucketField::from_atomic(&field).unwrap();
    assert_eq!(consolidated.hits, target);
}

#[test]
fn parallel_workers_accumulate_within_budget_bound() {
    let b = Setup::new(32, 32, 300).build().unwrap();
    let field = AtomicBucketField::new(32, 32);
    let claims = SampleCounter::new();
    crossbeam::scope(|scope| {
        for w in 0..3u64 {
            let field_ref = &field;
            let claims_ref = &claims;
            let config = &b;
            scope.spawn(move |_| {
                let mut source = SampleSource::from_seed(100 + w);
                worker_loop(config, field_ref, claims_ref, &mut source);
            });
        }
    })
    .unwrap();
    let consolidated = NonatomicBucketField::from_atomic(&field).unwrap();
    // The accounting bound: never more hits than samples times the cap.
    assert!(consolidated.hits <= 300u64.saturating_mul(16_777_216));
    let sum: u64 = consolidated.field.iter().sum();
    assert_eq!(sum, consolidated.hits);
}

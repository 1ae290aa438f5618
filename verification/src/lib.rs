//! A Buddhabrot density-map estimator.
//!
//! The plane is modelled in signed fixed-point arithmetic: a coordinate is an
//! `i64` number of units of `1 / FIXED_ONE`.  Every algorithmic component —
//! the escape-time evaluator with its closed-form pre-checks and cycle
//! detection, the rejection sampler, the histogram field, the coordinate
//! transform and the tone mapper — is specified and verified over that exact
//! integer model.  Only the entropy behind the sampler comes from an outside
//! crate, behind a small trusted boundary.

pub mod fixed;
pub mod escape;
pub mod field;
pub mod sample;
pub mod setup;

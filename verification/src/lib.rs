//! A small N-body gravity core: per-body kinematic state, pairwise
//! gravitational acceleration accumulation, and a leapfrog-style
//! integration step, all over saturating fixed-point arithmetic.

pub mod body;
pub mod fixed;

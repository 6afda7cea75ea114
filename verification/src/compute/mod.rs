//! Scheduling of calculations.
pub mod graph;
pub mod simd;

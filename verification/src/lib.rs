//! Iterative series that converge to the constant pi.
//!
//! Each series keeps its running partial sum as an exact fraction of
//! machine integers, so every update is verified against the
//! mathematical partial sum it is meant to produce.  The driver module
//! holds the stopping rules of a benchmark run: a wall-clock deadline
//! checked between batches of updates, or a fixed number of updates.

pub mod driver;
pub mod frac;
pub mod series;

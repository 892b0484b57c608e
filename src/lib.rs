//! Evenly spaced sampling of parametric curves on `[0, 1]`.
//!
//! `steps` holds the sampling schedule: which parameters `n` samples of a
//! curve visit, in which order, and what happens for `n <= 1`.

pub mod steps;

//! Linear regression by batch gradient descent: the shapes, the data layout
//! and the course of a fit.
//!
//! A number is an IEEE 754 binary64 value, held as its bit pattern in a `u64`.
//! The library stores and moves numbers, and knows the patterns of zero, of
//! one and of the default learning rate. It never computes with them: the
//! arithmetic of a round and of a prediction is the caller's, who is told
//! which step is due and hands its result back.

pub mod error;
pub mod laws;
pub mod matrix;
pub mod number;
pub mod regression;

pub use error::ShapeMismatch;
pub use matrix::Matrix;
pub use regression::{FitAction, FitEvent, FitState, LinearRegression};

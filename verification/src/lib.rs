//! Task definitions and data sets of a machine-learning benchmark platform,
//! run against cross-validation folds with verified bookkeeping.
//!
//! A task names data, a procedure that splits the rows of the data into folds,
//! and a measure. Running a task hands each fold to a prediction routine and
//! feeds what it predicts to a measure, pair by pair. The platform's responses
//! are read into plain values, and the protocol of the cache that keeps them
//! on disk is decided here; fetching, file locks and floating point are left
//! to the caller.

pub mod dataset;
pub mod error;
pub mod measure_accumulator;
pub mod openml_api;
pub mod procedures;
pub mod tasks;

pub use crate::measure_accumulator::{AdjustedRandIndex, MeasureAccumulator, PredictiveAccuracy};
pub use crate::tasks::{SupervisedClassification, SupervisedRegression, Task};

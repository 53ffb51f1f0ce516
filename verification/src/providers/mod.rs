//! Provider bookkeeping: performance metrics and scoring, and the
//! selection of a model for a task.

pub mod atomic;
pub mod protocol;
pub mod scoring;
pub mod selector;

//! The index schedules that the learning algorithms follow.
pub mod minibatch;
pub mod advantage_estimator;

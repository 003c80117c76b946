//! Schedulers: values that change step by step during training.
use vstd::prelude::*;

verus! {

/// A schedule of values, one per call of `step`.
pub trait Scheduler {
    /// The scheduled type.
    type Scheduled;

    /// Advances the schedule by one step and gives the value of that step.
    fn step(&mut self) -> Self::Scheduled;

    /// Resets the schedule to its first step.
    fn reset(&mut self);
}

} // verus!

//! Kinds of approximators that the algorithms distinguish.
use vstd::prelude::*;

verus! {

/// Whether an actor-critic's actor and critic share their encoder.
#[derive(Debug, Clone, Copy, PartialEq, Eq, Structural)]
pub enum EncoderType {
    /// The actor and the critic share one encoder.
    Shared,
    /// The actor and the critic have an encoder each.
    Separated,
}

} // verus!

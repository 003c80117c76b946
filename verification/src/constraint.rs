//! Constraints on the actions an agent may take.
use vstd::prelude::*;

verus! {

/// States that every action is possible.
///
/// An environment that hands out `Unconstrained` must always hand it out.
#[derive(Debug, Clone, Copy, PartialEq, Eq, Structural)]
pub struct Unconstrained;

} // verus!

//! Encoders: the part of an approximator that turns observations into
//! features.
use vstd::prelude::*;

verus! {

/// An encoder with noisy weights (a NoisyNet encoder).
pub trait NoisyEncoder {
    /// Draws fresh noise for the weights.
    fn set_noise(&mut self);
}

/// The layers of a multi-layer perceptron through the sizes `dims`: layer `i`
/// maps `dims[i]` features to `dims[i + 1]`. A perceptron needs at least an
/// input and an output size.
pub fn layer_dims(dims: &Vec<usize>) -> (layers: Vec<(usize, usize)>)
    requires
        dims@.len() >= 2,
    ensures
        layers@.len() == dims@.len() - 1,
        forall|i: int| 0 <= i < layers@.len() ==> #[trigger] layers@[i] == (dims@[i], dims@[i + 1]),
{
    let mut layers: Vec<(usize, usize)> = Vec::new();
    let mut i: usize = 0;
    let last = dims.len() - 1;
    while i < last
        invariant
            dims@.len() >= 2,
            last == dims@.len() - 1,
            i <= last,
            layers@.len() == i,
            forall|j: int| 0 <= j < i ==> #[trigger] layers@[j] == (dims@[j], dims@[j + 1]),
        decreases dims@.len() - i,
    {
        layers.push((dims[i], dims[i + 1]));
        i = i + 1;
    }
    layers
}

} // verus!

//! Samplers that pick which stored transitions make up a sample.
use vstd::prelude::*;
use crate::random::SmallSource;

verus! {

/// A sampler that treats all stored transitions alike: each pick is uniform
/// over the stored transitions, with replacement.
pub struct UniformSampler {
    rng: SmallSource,
}

impl UniformSampler {
    /// The seed of the sampler's generator.
    pub closed spec fn seed(&self) -> u64 {
        self.rng.seed()
    }

    /// The bounds of the indices drawn so far, in the order of the draws.
    pub closed spec fn draws(&self) -> Seq<usize> {
        self.rng.bounds()
    }

    /// The indices drawn so far, in the order of the draws.
    pub closed spec fn drawn(&self) -> Seq<usize> {
        self.rng.drawn()
    }

    /// Creates a sampler whose generator is seeded by `seed`.
    pub fn new(seed: u64) -> (r: Self)
        ensures
            r.seed() == seed,
            r.draws() == Seq::<usize>::empty(),
            r.drawn() == Seq::<usize>::empty(),
    {
        Self { rng: SmallSource::new(seed) }
    }

    /// Picks `n` of `len` stored transitions, with replacement: `n` indices,
    /// each below `len`. A storage shorter than `n` cannot be sampled from.
    pub fn sample_indices(&mut self, n: usize, len: usize) -> (r: Vec<usize>)
        requires
            n <= len,
        ensures
            r@.len() == n,
            forall|k: int| 0 <= k < n ==> #[trigger] r@[k] < len,
            final(self).seed() == old(self).seed(),
            final(self).draws() == old(self).draws() + Seq::new(n as nat, |i: int| len),
            final(self).drawn() == old(self).drawn() + r@,
    {
        let mut indices: Vec<usize> = Vec::new();
        let mut k: usize = 0;
        proof {
            assert(old(self).draws() + Seq::new(0, |i: int| len) =~= old(self).draws());
            assert(old(self).drawn() + indices@ =~= old(self).drawn());
        }
        while k < n
            invariant
                k <= n,
                n <= len,
                indices@.len() == k,
                forall|m: int| 0 <= m < k ==> #[trigger] indices@[m] < len,
                self.seed() == old(self).seed(),
                self.draws() == old(self).draws() + Seq::new(k as nat, |i: int| len),
                self.drawn() == old(self).drawn() + indices@,
            decreases n - k,
        {
            let i = self.rng.index(len);
            proof {
                assert(old(self).draws() + Seq::new((k + 1) as nat, |i: int| len)
                    =~= (old(self).draws() + Seq::new(k as nat, |i: int| len)).push(len));
            }
            let ghost before = indices@;
            indices.push(i);
            proof {
                assert(old(self).drawn() + indices@ =~= (old(self).drawn() + before).push(i));
            }
            k = k + 1;
        }
        indices
    }
}

/// The configuration of a `UniformSampler`: it has nothing to configure.
pub struct UniformSamplerConfig;

impl UniformSamplerConfig {
    /// Creates the sampler, seeded by `seed`; the capacity does not matter to it.
    pub fn init(self, seed: u64, capacity: usize) -> (r: UniformSampler)
        ensures
            r.seed() == seed,
            r.draws() == Seq::<usize>::empty(),
            r.drawn() == Seq::<usize>::empty(),
    {
        UniformSampler::new(seed)
    }
}

} // verus!

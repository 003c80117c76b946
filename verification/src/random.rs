//! The random number generators of `rand` that samplers and buffers draw from.
//!
//! What a generator yields depends on its hidden state, and `rand` documents
//! the seeded output as depending on the platform and the library version, so
//! nothing below names a drawn value as a function of the seed. Each source
//! keeps a record instead: the seed it was made from, the bound and the value
//! of every index drawn from it, and each list it shuffled together with the
//! list that came back. Only the calls into `rand` (in `source`) extend the
//! record, so whatever the record holds is what the generator gave.
use vstd::prelude::*;

pub mod source;

pub use source::{SmallSource, StdSource};
use source::{small_source_from_seed, small_source_index, std_source_from_seed, std_source_index, std_source_shuffle};

verus! {

impl SmallSource {
    /// A generator seeded by `seed`, from which nothing has been drawn yet.
    pub fn new(seed: u64) -> (r: Self)
        ensures
            r.seed() == seed,
            r.bounds() == Seq::<usize>::empty(),
            r.drawn() == Seq::<usize>::empty(),
    {
        small_source_from_seed(seed)
    }

    /// Draws an index below `len` and gives it back as drawn; the draw is
    /// recorded with its bound and its value.
    pub fn index(&mut self, len: usize) -> (r: usize)
        requires
            len > 0,
        ensures
            r < len,
            final(self).seed() == old(self).seed(),
            final(self).bounds() == old(self).bounds().push(len),
            final(self).drawn() == old(self).drawn().push(r),
    {
        small_source_index(self, len)
    }
}

impl StdSource {
    /// A generator seeded by `seed`, which has neither drawn nor shuffled yet.
    pub fn new(seed: u64) -> (r: Self)
        ensures
            r.seed() == seed,
            r.bounds() == Seq::<usize>::empty(),
            r.drawn() == Seq::<usize>::empty(),
            r.shuffles() == Seq::<(Seq<i64>, Seq<i64>)>::empty(),
    {
        std_source_from_seed(seed)
    }

    /// Draws an index below `len` and gives it back as drawn; the draw is
    /// recorded with its bound and its value.
    pub fn index(&mut self, len: usize) -> (r: usize)
        requires
            len > 0,
        ensures
            r < len,
            final(self).seed() == old(self).seed(),
            final(self).bounds() == old(self).bounds().push(len),
            final(self).drawn() == old(self).drawn().push(r),
            final(self).shuffles() == old(self).shuffles(),
    {
        std_source_index(self, len)
    }

    /// Shuffles `v` into some order of the same elements; the shuffle is
    /// recorded with the list handed over and the list that came back.
    pub fn shuffle(&mut self, v: &mut Vec<i64>)
        ensures
            final(v)@.to_multiset() == old(v)@.to_multiset(),
            final(self).seed() == old(self).seed(),
            final(self).bounds() == old(self).bounds(),
            final(self).drawn() == old(self).drawn(),
            final(self).shuffles() == old(self).shuffles().push((old(v)@, final(v)@)),
    {
        std_source_shuffle(self, v)
    }
}

} // verus!

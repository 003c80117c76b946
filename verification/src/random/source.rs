//! The generators themselves, with their records. The records are private to
//! this module, and the only code here that writes them is the code that calls
//! `rand`: a record grows exactly when the generator is used, and holds what
//! the generator was handed and what it gave back.
use vstd::prelude::*;
use rand::rngs::{SmallRng, StdRng};
use rand::seq::SliceRandom;
use rand::{RngExt, SeedableRng};

verus! {

#[verifier::external_type_specification]
#[verifier::external_body]
pub struct ExSmallRng(SmallRng);

#[verifier::external_type_specification]
#[verifier::external_body]
pub struct ExStdRng(StdRng);

/// A small, fast generator (`SmallRng`) with the record of what it was handed
/// and what it gave back.
pub struct SmallSource {
    rng: SmallRng,
    seed: Ghost<u64>,
    bounds: Ghost<Seq<usize>>,
    drawn: Ghost<Seq<usize>>,
}

impl SmallSource {
    /// The seed the generator was made from.
    pub closed spec fn seed(&self) -> u64 {
        self.seed@
    }

    /// The bounds of the indices drawn so far, in the order of the draws: the
    /// `i`-th draw was from `0..bounds()[i]`.
    pub closed spec fn bounds(&self) -> Seq<usize> {
        self.bounds@
    }

    /// The indices drawn so far, in the order of the draws: the `i`-th draw
    /// gave `drawn()[i]`.
    pub closed spec fn drawn(&self) -> Seq<usize> {
        self.drawn@
    }
}

/// A strong generator (`StdRng`) with the record of what it was handed and
/// what it gave back.
pub struct StdSource {
    rng: StdRng,
    seed: Ghost<u64>,
    bounds: Ghost<Seq<usize>>,
    drawn: Ghost<Seq<usize>>,
    shuffles: Ghost<Seq<(Seq<i64>, Seq<i64>)>>,
}

impl StdSource {
    /// The seed the generator was made from.
    pub closed spec fn seed(&self) -> u64 {
        self.seed@
    }

    /// The bounds of the indices drawn so far, in the order of the draws.
    pub closed spec fn bounds(&self) -> Seq<usize> {
        self.bounds@
    }

    /// The indices drawn so far, in the order of the draws.
    pub closed spec fn drawn(&self) -> Seq<usize> {
        self.drawn@
    }

    /// The shuffles made so far, in order: each list handed to the shuffle
    /// with the list that came back.
    pub closed spec fn shuffles(&self) -> Seq<(Seq<i64>, Seq<i64>)> {
        self.shuffles@
    }
}

/// `SmallRng::seed_from_u64`: the generator, with `seed` as its recorded seed
/// and no draw recorded. Nothing is stated of the generator's state.
#[verifier::external_body]
pub(crate) fn small_source_from_seed(seed: u64) -> (r: SmallSource)
    ensures
        r.seed() == seed,
        r.bounds() == Seq::<usize>::empty(),
        r.drawn() == Seq::<usize>::empty(),
{
    SmallSource {
        rng: SmallRng::seed_from_u64(seed),
        seed: Ghost(seed),
        bounds: Ghost(Seq::empty()),
        drawn: Ghost(Seq::empty()),
    }
}

/// `StdRng::seed_from_u64`: the generator, with `seed` as its recorded seed
/// and no draw or shuffle recorded. Nothing is stated of the generator's state.
#[verifier::external_body]
pub(crate) fn std_source_from_seed(seed: u64) -> (r: StdSource)
    ensures
        r.seed() == seed,
        r.bounds() == Seq::<usize>::empty(),
        r.drawn() == Seq::<usize>::empty(),
        r.shuffles() == Seq::<(Seq<i64>, Seq<i64>)>::empty(),
{
    StdSource {
        rng: StdRng::seed_from_u64(seed),
        seed: Ghost(seed),
        bounds: Ghost(Seq::empty()),
        drawn: Ghost(Seq::empty()),
        shuffles: Ghost(Seq::empty()),
    }
}

/// `RngExt::random_range` on `0..len` with the `SmallRng`: some index below
/// `len`, recorded with `len` as the bound of the draw. rand panics on an
/// empty range, so `len` must be positive.
#[verifier::external_body]
pub(crate) fn small_source_index(src: &mut SmallSource, len: usize) -> (r: usize)
    requires
        len > 0,
    ensures
        r < len,
        final(src).seed() == old(src).seed(),
        final(src).bounds() == old(src).bounds().push(len),
        final(src).drawn() == old(src).drawn().push(r),
{
    let r = src.rng.random_range(0..len);
    src.bounds = Ghost(src.bounds@.push(len));
    src.drawn = Ghost(src.drawn@.push(r));
    r
}

/// `RngExt::random_range` on `0..len` with the `StdRng`: some index below
/// `len`, recorded with `len` as the bound of the draw. rand panics on an
/// empty range, so `len` must be positive.
#[verifier::external_body]
pub(crate) fn std_source_index(src: &mut StdSource, len: usize) -> (r: usize)
    requires
        len > 0,
    ensures
        r < len,
        final(src).seed() == old(src).seed(),
        final(src).bounds() == old(src).bounds().push(len),
        final(src).drawn() == old(src).drawn().push(r),
        final(src).shuffles() == old(src).shuffles(),
{
    let r = src.rng.random_range(0..len);
    src.bounds = Ghost(src.bounds@.push(len));
    src.drawn = Ghost(src.drawn@.push(r));
    r
}

/// `SliceRandom::shuffle` with the `StdRng`: the same elements in some order,
/// with the list handed over and the list that came back recorded.
#[verifier::external_body]
pub(crate) fn std_source_shuffle(src: &mut StdSource, v: &mut Vec<i64>)
    ensures
        final(v)@.to_multiset() == old(v)@.to_multiset(),
        final(src).seed() == old(src).seed(),
        final(src).bounds() == old(src).bounds(),
        final(src).drawn() == old(src).drawn(),
        final(src).shuffles() == old(src).shuffles().push((old(v)@, final(v)@)),
{
    let before = Ghost(v@);
    v.shuffle(&mut src.rng);
    src.shuffles = Ghost(src.shuffles@.push((before@, v@)));
}

} // verus!

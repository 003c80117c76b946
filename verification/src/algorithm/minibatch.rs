//! The minibatch schedule of an epoch of proximal policy optimization: the
//! transitions of a batch are shuffled and split into minibatches of a given
//! size, so that each transition is used once per epoch.
use vstd::prelude::*;
use crate::random::StdSource;

verus! {

/// The contents of a list of chunks.
pub open spec fn chunk_views(chunks: Seq<Vec<i64>>) -> Seq<Seq<i64>> {
    chunks.map_values(|c: Vec<i64>| c@)
}

/// Whether `chunks` are consecutive pieces of `size` elements, the last of
/// them possibly shorter but not empty.
pub open spec fn sized_chunks(chunks: Seq<Vec<i64>>, size: nat) -> bool {
    &&& forall|k: int| 0 <= k < chunks.len() ==> 0 < (#[trigger] chunks[k])@.len() <= size
    &&& forall|k: int| 0 <= k < chunks.len() - 1 ==> (#[trigger] chunks[k])@.len() == size
}

/// The indices `0, 1, ..., n - 1` of a batch of `n` transitions.
pub open spec fn batch_indices(n: nat) -> Seq<i64> {
    Seq::new(n, |i: int| i as i64)
}

/// Splits `perm` into consecutive chunks of `size` elements; the last chunk
/// holds what remains. An empty `perm` gives no chunk.
pub fn chunk_indices(perm: &Vec<i64>, size: usize) -> (chunks: Vec<Vec<i64>>)
    requires
        size > 0,
    ensures
        chunk_views(chunks@).flatten() == perm@,
        sized_chunks(chunks@, size as nat),
{
    let len = perm.len();
    let mut chunks: Vec<Vec<i64>> = Vec::new();
    let mut start: usize = 0;
    proof {
        assert(chunk_views(chunks@) =~= Seq::<Seq<i64>>::empty());
        assert(perm@.subrange(0, 0) =~= Seq::<i64>::empty());
    }
    while start < len
        invariant
            size > 0,
            len == perm@.len(),
            start <= len,
            chunk_views(chunks@).flatten() == perm@.subrange(0, start as int),
            forall|k: int| 0 <= k < chunks@.len() ==> 0 < (#[trigger] chunks@[k])@.len() <= size,
            forall|k: int| 0 <= k < chunks@.len() ==> (#[trigger] chunks@[k])@.len() == size || (k == chunks@.len() - 1 && start == len),
        decreases len - start,
    {
        let end = if len - start > size { start + size } else { len };
        let mut chunk: Vec<i64> = Vec::new();
        let mut i = start;
        while i < end
            invariant
                start <= i <= end,
                end <= len,
                len == perm@.len(),
                chunk@ == perm@.subrange(start as int, i as int),
            decreases end - i,
        {
            chunk.push(perm[i]);
            proof {
                assert(perm@.subrange(start as int, i + 1) =~= perm@.subrange(start as int, i as int).push(perm@[i as int]));
            }
            i = i + 1;
        }
        let ghost old_chunks = chunks@;
        chunks.push(chunk);
        proof {
            assert(chunk_views(chunks@) =~= chunk_views(old_chunks).push(perm@.subrange(start as int, end as int)));
            chunk_views(old_chunks).lemma_flatten_push(perm@.subrange(start as int, end as int));
            assert(perm@.subrange(0, start as int) + perm@.subrange(start as int, end as int) =~= perm@.subrange(0, end as int));
        }
        start = end;
    }
    proof {
        assert(perm@.subrange(0, len as int) =~= perm@);
    }
    chunks
}

/// Shuffles the indices of a batch of `batch_size` transitions with `rng` and
/// splits them into minibatches of `minibatch_size`: the indices `0..batch_size`
/// in order are what is handed to the shuffle, the minibatches in order are
/// what came back from it, and together they name every transition exactly
/// once.
pub fn minibatch_indices(rng: &mut StdSource, batch_size: usize, minibatch_size: usize) -> (chunks: Vec<Vec<i64>>)
    requires
        minibatch_size > 0,
        batch_size <= i64::MAX,
    ensures
        chunk_views(chunks@).flatten().to_multiset() == batch_indices(batch_size as nat).to_multiset(),
        sized_chunks(chunks@, minibatch_size as nat),
        final(rng).shuffles() == old(rng).shuffles().push(
            (batch_indices(batch_size as nat), chunk_views(chunks@).flatten()),
        ),
        final(rng).seed() == old(rng).seed(),
        final(rng).bounds() == old(rng).bounds(),
{
    let mut perm: Vec<i64> = Vec::new();
    let mut k: usize = 0;
    while k < batch_size
        invariant
            k <= batch_size,
            batch_size <= i64::MAX,
            perm@ == batch_indices(k as nat),
        decreases batch_size - k,
    {
        perm.push(k as i64);
        proof {
            assert(batch_indices((k + 1) as nat) =~= batch_indices(k as nat).push(k as i64));
        }
        k = k + 1;
    }
    rng.shuffle(&mut perm);
    chunk_indices(&perm, minibatch_size)
}

} // verus!

//! A replay buffer that keeps each transition as an item of its own and samples
//! uniformly with replacement.
use vstd::prelude::*;
use crate::buffer::ring::{ring_push, ring_wf, ring_write};
use crate::random::StdSource;

verus! {

/// What a `ReplayBuffer` holds: its items in slot order, the slot of the next
/// overwrite, and its capacity.
pub struct ReplayView<T> {
    pub items: Seq<T>,
    pub head: nat,
    pub capacity: nat,
}

/// Replay buffer of at most `capacity` transitions. Once full, each push
/// overwrites the oldest transition.
pub struct ReplayBuffer<T> {
    ring: Ring<T>,
    rng: StdSource,
}

/// The transitions of a replay buffer, kept as a ring of its capacity.
struct Ring<T> {
    capacity: usize,
    head: usize,
    items: Vec<T>,
}

impl<T> Ring<T> {
    /// A ring of positive capacity is well formed; one of capacity 0 stays
    /// empty.
    #[verifier::type_invariant]
    spec fn ring_inv(&self) -> bool {
        if self.capacity == 0 {
            self.items@.len() == 0 && self.head == 0
        } else {
            ring_wf(self.items@, self.head as nat, self.capacity as nat)
        }
    }

    fn push(self, t: T) -> (r: Self)
        requires
            self.capacity > 0,
        ensures
            r.capacity == self.capacity,
            (r.items@, r.head as nat) == ring_push(self.items@, self.head as nat, self.capacity as nat, t),
    {
        proof {
            use_type_invariant(&self);
        }
        let Ring { capacity, head, mut items } = self;
        let new_head = ring_write(&mut items, head, capacity, t);
        Ring { capacity, head: new_head, items }
    }
}

impl<T> View for ReplayBuffer<T> {
    type V = ReplayView<T>;

    closed spec fn view(&self) -> ReplayView<T> {
        ReplayView {
            items: self.ring.items@,
            head: self.ring.head as nat,
            capacity: self.ring.capacity as nat,
        }
    }
}

impl<T> ReplayBuffer<T> {
    /// The seed of the buffer's generator.
    pub closed spec fn seed(&self) -> u64 {
        self.rng.seed()
    }

    /// The bounds of the slots drawn so far, in the order of the draws.
    pub closed spec fn draws(&self) -> Seq<usize> {
        self.rng.bounds()
    }

    /// The slots drawn so far, in the order of the draws.
    pub closed spec fn drawn(&self) -> Seq<usize> {
        self.rng.drawn()
    }

    /// Creates an empty buffer of the given capacity, sampling with a generator
    /// seeded by `seed`.
    pub fn new(seed: u64, capacity: usize) -> (r: Self)
        ensures
            r@.items == Seq::<T>::empty(),
            r@.head == 0,
            r@.capacity == capacity,
            r.seed() == seed,
            r.draws() == Seq::<usize>::empty(),
            r.drawn() == Seq::<usize>::empty(),
    {
        let ring = Ring { capacity, head: 0, items: Vec::new() };
        Self { ring, rng: StdSource::new(seed) }
    }

    /// Pushes a transition: appended while the buffer is not full, written over
    /// the oldest transition once it is.
    pub fn push(&mut self, t: T)
        requires
            old(self)@.capacity > 0,
        ensures
            final(self)@.capacity == old(self)@.capacity,
            (final(self)@.items, final(self)@.head) == ring_push(old(self)@.items, old(self)@.head, old(self)@.capacity, t),
            final(self).seed() == old(self).seed(),
            final(self).draws() == old(self).draws(),
            final(self).drawn() == old(self).drawn(),
    {
        let mut ring = Ring { capacity: self.ring.capacity, head: 0, items: Vec::new() };
        std::mem::swap(&mut ring, &mut self.ring);
        self.ring = ring.push(t);
    }

    /// The number of transitions the buffer holds.
    pub fn len(&self) -> (r: usize)
        ensures
            r == self@.items.len(),
    {
        self.ring.items.len()
    }

    /// The transitions the buffer holds, in slot order.
    pub fn items(&self) -> (r: &Vec<T>)
        ensures
            r@ == self@.items,
    {
        &self.ring.items
    }

    /// Samples `batch_size` transitions uniformly with replacement, or gives
    /// `None` when the buffer holds fewer than `batch_size`. The sample is
    /// given as the slots of the sampled transitions in `items`.
    pub fn sample(&mut self, batch_size: usize) -> (r: Option<Vec<usize>>)
        ensures
            final(self)@ == old(self)@,
            final(self).seed() == old(self).seed(),
            r is None <==> old(self)@.items.len() < batch_size,
            r is None ==> final(self).draws() == old(self).draws() && final(self).drawn() == old(self).drawn(),
            r matches Some(indices) ==> final(self).drawn() == old(self).drawn() + indices@,
            r is Some ==> final(self).draws() == old(self).draws() + Seq::new(
                batch_size as nat,
                |i: int| old(self)@.items.len() as usize,
            ),
            r matches Some(indices) ==> {
                &&& indices@.len() == batch_size
                &&& forall|k: int| 0 <= k < batch_size ==> #[trigger] indices@[k] < old(self)@.items.len()
            },
    {
        let len = self.ring.items.len();
        if len < batch_size {
            return None;
        }
        let mut indices: Vec<usize> = Vec::new();
        let mut k: usize = 0;
        proof {
            assert(old(self).draws() + Seq::new(0, |i: int| len) =~= old(self).draws());
            assert(old(self).drawn() + indices@ =~= old(self).drawn());
        }
        while k < batch_size
            invariant
                k <= batch_size,
                batch_size <= len,
                len == self.ring.items@.len(),
                self@ == old(self)@,
                self.seed() == old(self).seed(),
                self.draws() == old(self).draws() + Seq::new(k as nat, |i: int| len),
                self.drawn() == old(self).drawn() + indices@,
                indices@.len() == k,
                forall|m: int| 0 <= m < k ==> #[trigger] indices@[m] < len,
            decreases batch_size - k,
        {
            let i = self.rng.index(len);
            proof {
                assert(old(self).draws() + Seq::new((k + 1) as nat, |i: int| len)
                    =~= (old(self).draws() + Seq::new(k as nat, |i: int| len)).push(len));
            }
            let ghost before = indices@;
            indices.push(i);
            proof {
                assert(old(self).drawn() + indices@ =~= (old(self).drawn() + before).push(i));
            }
            k = k + 1;
        }
        Some(indices)
    }
}

} // verus!

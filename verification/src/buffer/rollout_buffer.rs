//! A rollout buffer for on-policy methods: it collects transitions until they
//! are all taken out at once. Without a length limit it also serves as an
//! episode buffer.
use vstd::prelude::*;

verus! {

/// Collects transitions in the order they were pushed.
pub struct RolloutBuffer<T> {
    batch: Vec<T>,
}

impl<T> View for RolloutBuffer<T> {
    type V = Seq<T>;

    closed spec fn view(&self) -> Seq<T> {
        self.batch@
    }
}

impl<T> RolloutBuffer<T> {
    /// Creates an empty buffer.
    pub fn new() -> (r: Self)
        ensures
            r@ == Seq::<T>::empty(),
    {
        Self { batch: Vec::new() }
    }

    /// The number of transitions collected.
    pub fn len(&self) -> (r: usize)
        ensures
            r == self@.len(),
    {
        self.batch.len()
    }

    /// Collects one transition after the others.
    pub fn push(&mut self, t: T)
        ensures
            final(self)@ == old(self)@.push(t),
    {
        self.batch.push(t);
    }

    /// Takes out all collected transitions, in the order they were pushed, and
    /// leaves the buffer empty. The transitions are concatenated into one
    /// batch, so there must be at least one.
    pub fn pop(&mut self) -> (r: Vec<T>)
        requires
            old(self)@.len() > 0,
        ensures
            r@ == old(self)@,
            final(self)@ == Seq::<T>::empty(),
    {
        let mut taken = Vec::new();
        std::mem::swap(&mut taken, &mut self.batch);
        taken
    }
}

} // verus!

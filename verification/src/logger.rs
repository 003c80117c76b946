//! The window behind a moving-average log: the latest `window` values pushed
//! under one name. The log keeps the running sum of the window; the window
//! tells it which value leaves when a new one arrives.
use vstd::prelude::*;
use std::collections::VecDeque;

verus! {

/// The latest `window` values of `history`, oldest first.
pub open spec fn latest<T>(history: Seq<T>, window: nat) -> Seq<T> {
    if history.len() <= window {
        history
    } else {
        history.subrange(history.len() - window, history.len() as int)
    }
}

/// What a moving window is: its size and the values it holds, oldest first.
pub struct WindowView<T> {
    pub window: nat,
    pub values: Seq<T>,
}

/// The latest `window` values pushed into a moving-average log.
pub struct MovingWindow<T> {
    values: VecDeque<T>,
    window: usize,
}

impl<T> View for MovingWindow<T> {
    type V = WindowView<T>;

    closed spec fn view(&self) -> WindowView<T> {
        WindowView { window: self.window as nat, values: self.values@ }
    }
}

impl<T> MovingWindow<T> {
    /// A window never holds more values than its size.
    #[verifier::type_invariant]
    spec fn wf(&self) -> bool {
        self.values@.len() <= self.window
    }

    /// Creates an empty window of the given size.
    pub fn new(window: usize) -> (r: Self)
        ensures
            r@.window == window,
            r@.values == Seq::<T>::empty(),
    {
        Self { values: VecDeque::new(), window }
    }

    /// The number of values held.
    pub fn len(&self) -> (r: usize)
        ensures
            r == self@.values.len(),
    {
        self.values.len()
    }

    /// The size of the window.
    pub fn window(&self) -> (r: usize)
        ensures
            r == self@.window,
    {
        self.window
    }

    /// Pushes a value. While the window is not full the value is added; once it
    /// is full the oldest value leaves and is returned.
    pub fn push(&mut self, value: T) -> (evicted: Option<T>)
        requires
            old(self)@.window > 0,
        ensures
            final(self)@.window == old(self)@.window,
            final(self)@.values == latest(old(self)@.values.push(value), old(self)@.window),
            old(self)@.values.len() < old(self)@.window ==> evicted is None,
            old(self)@.values.len() == old(self)@.window ==> evicted == Some(old(self)@.values[0]),
    {
        proof {
            use_type_invariant(&*self);
        }
        let mut values: VecDeque<T> = VecDeque::new();
        std::mem::swap(&mut values, &mut self.values);
        let evicted = if values.len() < self.window {
            values.push_back(value);
            None
        } else {
            let front = values.pop_front();
            values.push_back(value);
            proof {
                let s = old(self)@.values.push(value);
                assert(values@ =~= s.subrange(s.len() - old(self)@.window, s.len() as int));
            }
            front
        };
        self.values = values;
        evicted
    }
}

/// The values a window of size `window` holds after the pushes of `history`,
/// pushed one by one into an empty window.
pub open spec fn window_after<T>(history: Seq<T>, window: nat) -> Seq<T>
    decreases history.len(),
{
    if history.len() == 0 {
        Seq::empty()
    } else {
        latest(window_after(history.drop_last(), window).push(history.last()), window)
    }
}

proof fn lemma_latest_step<T>(history: Seq<T>, window: nat, value: T)
    requires
        window > 0,
    ensures
        latest(latest(history, window).push(value), window) == latest(history.push(value), window),
{
    let h = history.push(value);
    let values = latest(history, window);
    if history.len() < window {
        assert(values == history);
    } else {
        assert(latest(values.push(value), window) =~= h.subrange(h.len() - window, h.len() as int));
    }
}

/// Law: a window of positive size that starts empty holds, after any sequence
/// of pushes, the latest pushed values, as many as the window's size, oldest
/// first.
pub proof fn lemma_window_holds_latest<T>(history: Seq<T>, window: nat)
    requires
        window > 0,
    ensures
        window_after(history, window) == latest(history, window),
    decreases history.len(),
{
    if history.len() > 0 {
        let prev = history.drop_last();
        lemma_window_holds_latest(prev, window);
        lemma_latest_step(prev, window, history.last());
        assert(prev.push(history.last()) =~= history);
    }
}

} // verus!

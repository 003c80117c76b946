//! The ring discipline that replay buffers share: items are appended until the
//! buffer holds `capacity` of them, after which each new item overwrites the
//! oldest one, at the position the head points to.
use vstd::prelude::*;

verus! {

/// A ring of at most `capacity` items whose next write goes to `head`.
pub open spec fn ring_wf<T>(items: Seq<T>, head: nat, capacity: nat) -> bool {
    &&& capacity > 0
    &&& items.len() <= capacity
    &&& head < capacity
    &&& items.len() < capacity ==> head == items.len()
}

/// One push onto a ring: the new items and the new head.
pub open spec fn ring_push<T>(items: Seq<T>, head: nat, capacity: nat, t: T) -> (Seq<T>, nat) {
    let new_items = if items.len() < capacity {
        items.push(t)
    } else {
        items.update(head as int, t)
    };
    (new_items, (head + 1) % capacity)
}

/// The ring that `capacity` and the pushes of `history`, in order, leave.
pub open spec fn ring_after<T>(history: Seq<T>, capacity: nat) -> (Seq<T>, nat)
    decreases history.len(),
{
    if history.len() == 0 {
        (Seq::empty(), 0)
    } else {
        let prev = ring_after(history.drop_last(), capacity);
        ring_push(prev.0, prev.1, capacity, history.last())
    }
}

/// The latest items of `history` that a ring of `capacity` still holds: the
/// item pushed as the `j`-th sits at position `j % capacity`, for each of the
/// last `capacity` pushes.
pub open spec fn holds_latest<T>(items: Seq<T>, head: nat, history: Seq<T>, capacity: nat) -> bool {
    let k = history.len();
    &&& items.len() == if k < capacity { k } else { capacity }
    &&& head == k % capacity
    &&& forall|j: int|
        #![trigger history[j]]
        0 <= j < k && k - capacity <= j ==> items[j % (capacity as int)] == history[j]
}

proof fn lemma_distinct_slots(j: int, k: int, capacity: int)
    requires
        0 <= j < k,
        k - j < capacity,
        capacity > 0,
    ensures
        j % capacity != k % capacity,
{
    assert(j % capacity != k % capacity) by (nonlinear_arith)
        requires
            0 <= j < k,
            k - j < capacity,
            capacity > 0,
    {
        let qj = j / capacity;
        let qk = k / capacity;
        assert(j == capacity * qj + j % capacity);
        assert(k == capacity * qk + k % capacity);
        if j % capacity == k % capacity {
            assert(k - j == capacity * (qk - qj));
            if qk - qj <= 0 {
                assert(capacity * (qk - qj) <= 0);
            } else {
                assert(capacity * (qk - qj) >= capacity);
            }
        }
    }
}

/// A push keeps a ring well formed.
pub proof fn lemma_ring_push_wf<T>(items: Seq<T>, head: nat, capacity: nat, t: T)
    requires
        ring_wf(items, head, capacity),
    ensures
        ring_wf(ring_push(items, head, capacity, t).0, ring_push(items, head, capacity, t).1, capacity),
{
    let (new_items, new_head) = ring_push(items, head, capacity, t);
    if items.len() < capacity {
        assert(new_items.len() == items.len() + 1);
        if items.len() + 1 < capacity {
            assert((head + 1) % capacity == head + 1) by (nonlinear_arith)
                requires head + 1 < capacity;
        }
    }
    assert((head + 1) % capacity < capacity) by (nonlinear_arith)
        requires capacity > 0;
}

/// Law: a ring of positive `capacity` that starts empty holds, after any
/// sequence of pushes, the latest `capacity` pushed items, each at the position
/// given by its push count modulo `capacity`, with the head just after the
/// latest one.
pub proof fn lemma_ring_holds_latest<T>(history: Seq<T>, capacity: nat)
    requires
        capacity > 0,
    ensures
        ring_wf(ring_after(history, capacity).0, ring_after(history, capacity).1, capacity),
        holds_latest(ring_after(history, capacity).0, ring_after(history, capacity).1, history, capacity),
    decreases history.len(),
{
    let k = history.len() as int;
    let c = capacity as int;
    if k == 0 {
        assert(0int % c == 0) by (nonlinear_arith)
            requires c > 0;
    } else {
        let prev_h = history.drop_last();
        let t = history.last();
        lemma_ring_holds_latest(prev_h, capacity);
        let (items, head) = ring_after(prev_h, capacity);
        lemma_ring_push_wf(items, head, capacity, t);
        let (new_items, new_head) = ring_push(items, head, capacity, t);
        assert(ring_after(history, capacity) == (new_items, new_head));
        // the head moves on by one position
        assert(head == (k - 1) % c);
        assert(new_head == k % c) by (nonlinear_arith)
            requires
                head == (k - 1) % c,
                new_head == (head as int + 1) % c,
                c > 0,
                k >= 1,
        {
            vstd::arithmetic::div_mod::lemma_add_mod_noop(k - 1, 1, c);
            vstd::arithmetic::div_mod::lemma_mod_twice(k - 1, c);
            assert(1int % c == 1 || c == 1);
            if c == 1 {
                assert(k % 1 == 0);
                assert((head + 1) % 1 == 0);
            } else {
                vstd::arithmetic::div_mod::lemma_small_mod(1, c as nat);
            }
        }
        if k - 1 < c {
            assert((k - 1) % c == k - 1) by (nonlinear_arith)
                requires 0 <= k - 1 < c;
        }
        assert forall|j: int|
            #![trigger history[j]]
            0 <= j < k && k - c <= j implies new_items[j % c] == history[j] by {
            if j == k - 1 {
                assert(j % c == head);
            } else {
                assert(prev_h[j] == history[j]);
                lemma_distinct_slots(j, k - 1, c);
                assert(0 <= j % c < c) by (nonlinear_arith)
                    requires c > 0;
                if items.len() < c {
                    assert(j % c == j) by (nonlinear_arith)
                        requires 0 <= j < k - 1, k - 1 < c;
                }
            }
        }
    }
}

/// Writes `t` into the ring `items` whose next write goes to `head`: appended
/// while the ring holds fewer than `capacity` items, written over position
/// `head` after that. Returns the new head.
pub fn ring_write<T>(items: &mut Vec<T>, head: usize, capacity: usize, t: T) -> (new_head: usize)
    requires
        ring_wf(old(items)@, head as nat, capacity as nat),
    ensures
        (final(items)@, new_head as nat) == ring_push(old(items)@, head as nat, capacity as nat, t),
        ring_wf(final(items)@, new_head as nat, capacity as nat),
{
    proof {
        lemma_ring_push_wf(items@, head as nat, capacity as nat, t);
    }
    if items.len() < capacity {
        items.push(t);
    } else {
        items.set(head, t);
    }
    (head + 1) % capacity
}

} // verus!

//! The storage of a replay buffer: a batch with room for `capacity`
//! transitions, allocated when the first transition arrives, written in a ring.
use vstd::prelude::*;

verus! {

/// What a `LazyStorage` is: its capacity, the slot of the next write, how many
/// slots hold data, and the batch once it exists.
pub struct StorageView<B> {
    pub capacity: nat,
    pub head: nat,
    pub n: nat,
    pub buffer: Option<B>,
}

/// Storage of a replay buffer. The batch is created on the first push, so its
/// shape can follow the data.
#[derive(Debug)]
pub struct LazyStorage<B> {
    slots: SlotCounter,
    buffer: Option<B>,
}

/// The slot bookkeeping of a `LazyStorage`.
#[derive(Debug)]
struct SlotCounter {
    capacity: usize,
    head: usize,
    n: usize,
}

impl SlotCounter {
    #[verifier::type_invariant]
    spec fn counters_wf(&self) -> bool {
        &&& self.n <= self.capacity
        &&& self.capacity > 0 ==> self.head < self.capacity
        &&& self.capacity == 0 ==> self.head == 0 && self.n == 0
        &&& self.n < self.capacity ==> self.head == self.n
    }

    fn reserve(&mut self) -> (index: usize)
        requires
            old(self).capacity > 0,
        ensures
            index == old(self).head,
            index < old(self).capacity,
            (final(self).head as nat, final(self).n as nat) == reserve_step(
                old(self).head as nat,
                old(self).n as nat,
                old(self).capacity as nat,
            ),
            final(self).capacity == old(self).capacity,
    {
        proof {
            use_type_invariant(&*self);
        }
        let index = self.head;
        let next = (self.head + 1) % self.capacity;
        let count = if self.n < self.capacity { self.n + 1 } else { self.n };
        proof {
            assert((self.head + 1) % (self.capacity as int) < self.capacity) by (nonlinear_arith)
                requires self.capacity > 0;
            if self.n + 1 < self.capacity {
                assert((self.head + 1) % (self.capacity as int) == self.head + 1) by (nonlinear_arith)
                    requires self.head + 1 < self.capacity;
            }
        }
        *self = SlotCounter { capacity: self.capacity, head: next, n: count };
        index
    }
}

/// The slot counters after one reservation.
pub open spec fn reserve_step(head: nat, n: nat, capacity: nat) -> (nat, nat) {
    ((head + 1) % capacity, if n < capacity { n + 1 } else { n })
}

/// The slot counters after `k` reservations, from a fresh storage.
pub open spec fn counters_after(k: nat, capacity: nat) -> (nat, nat)
    decreases k,
{
    if k == 0 {
        (0, 0)
    } else {
        let prev = counters_after((k - 1) as nat, capacity);
        reserve_step(prev.0, prev.1, capacity)
    }
}

/// Law: after `k` pushes into a fresh storage of positive capacity, the head
/// is `k % capacity` and the storage holds `min(k, capacity)` transitions; the
/// `k`-th push (counting from 0) wrote slot `k % capacity`.
pub proof fn lemma_counters_after(k: nat, capacity: nat)
    requires
        capacity > 0,
    ensures
        counters_after(k, capacity).0 == k % capacity,
        counters_after(k, capacity).1 == if k < capacity { k } else { capacity },
    decreases k,
{
    if k == 0 {
        assert(0nat % capacity == 0) by (nonlinear_arith)
            requires capacity > 0;
    } else {
        lemma_counters_after((k - 1) as nat, capacity);
        let c = capacity as int;
        let ki = k as int;
        assert(((ki - 1) % c + 1) % c == ki % c) by {
            vstd::arithmetic::div_mod::lemma_add_mod_noop(ki - 1, 1, c);
            vstd::arithmetic::div_mod::lemma_mod_twice(ki - 1, c);
            if c == 1 {
                vstd::arithmetic::div_mod::lemma_mod_self_0(1);
                assert(1int % c == 0);
                assert(((ki - 1) % c + 1) % c == 0) by (nonlinear_arith)
                    requires c == 1;
                assert(ki % c == 0) by (nonlinear_arith)
                    requires c == 1;
            } else {
                vstd::arithmetic::div_mod::lemma_small_mod(1, capacity);
            }
        }
    }
}

/// Law: the push that follows `k` earlier pushes into a fresh storage of
/// positive capacity writes slot `k % capacity`; afterwards the storage holds
/// `min(k + 1, capacity)` transitions and its head is `(k + 1) % capacity`.
pub proof fn lemma_push_slot(k: nat, capacity: nat)
    requires
        capacity > 0,
    ensures
        counters_after(k, capacity).0 == k % capacity,
        reserve_step(counters_after(k, capacity).0, counters_after(k, capacity).1, capacity)
            == counters_after(k + 1, capacity),
        counters_after(k + 1, capacity).0 == (k + 1) % capacity,
        counters_after(k + 1, capacity).1 == if k + 1 < capacity { k + 1 } else { capacity },
{
    lemma_counters_after(k, capacity);
    lemma_counters_after(k + 1, capacity);
}

impl<B> View for LazyStorage<B> {
    type V = StorageView<B>;

    closed spec fn view(&self) -> StorageView<B> {
        StorageView {
            capacity: self.slots.capacity as nat,
            head: self.slots.head as nat,
            n: self.slots.n as nat,
            buffer: self.buffer,
        }
    }
}

impl<B> LazyStorage<B> {
    /// Creates an empty storage with room for `capacity` transitions.
    pub fn new(capacity: usize) -> (r: Self)
        ensures
            r@ == (StorageView::<B> { capacity: capacity as nat, head: 0, n: 0, buffer: None }),
    {
        Self { slots: SlotCounter { capacity, head: 0, n: 0 }, buffer: None }
    }

    /// Installs the batch that holds the transitions. The batch must not exist
    /// yet.
    pub fn init(&mut self, buffer: B)
        requires
            old(self)@.buffer is None,
        ensures
            final(self)@ == (StorageView { buffer: Some(buffer), ..old(self)@ }),
    {
        self.buffer = Some(buffer);
    }

    /// The number of transitions the storage holds.
    pub fn n(&self) -> (r: usize)
        ensures
            r == self@.n,
    {
        self.slots.n
    }

    /// The number of transitions the storage has room for.
    pub fn capacity(&self) -> (r: usize)
        ensures
            r == self@.capacity,
    {
        self.slots.capacity
    }

    /// The slot that the next push writes.
    pub fn head(&self) -> (r: usize)
        ensures
            r == self@.head,
    {
        self.slots.head
    }

    /// The batch, once the first push has created it.
    pub fn buffer(&self) -> (r: Option<&B>)
        ensures
            match r {
                Some(b) => self@.buffer == Some(*b),
                None => self@.buffer is None,
            },
    {
        self.buffer.as_ref()
    }

    /// Takes the batch out of the storage, to write into it.
    pub fn take_buffer(&mut self) -> (r: Option<B>)
        ensures
            r == old(self)@.buffer,
            final(self)@ == (StorageView::<B> { buffer: None, ..old(self)@ }),
    {
        self.buffer.take()
    }

    /// Puts the batch back after writing into it.
    pub fn restore_buffer(&mut self, buffer: B)
        ensures
            final(self)@ == (StorageView { buffer: Some(buffer), ..old(self)@ }),
    {
        self.buffer = Some(buffer);
    }

    /// Reserves the slot for the next transition and returns its index: the
    /// head, which then moves on by one slot modulo the capacity, while the
    /// count of held transitions grows until it reaches the capacity.
    pub fn reserve(&mut self) -> (index: usize)
        requires
            old(self)@.capacity > 0,
        ensures
            index == old(self)@.head,
            index < old(self)@.capacity,
            (final(self)@.head, final(self)@.n) == reserve_step(old(self)@.head, old(self)@.n, old(self)@.capacity),
            final(self)@.capacity == old(self)@.capacity,
            final(self)@.buffer == old(self)@.buffer,
    {
        self.slots.reserve()
    }
}

/// The rows of a storage with room for `capacity` transitions after `t` is
/// written to row `index`: written over that row of the existing rows, or, on
/// the first push (no rows yet), into `capacity` freshly allocated rows that
/// each hold `zero`, the zero row shaped like `t`.
pub open spec fn write_row<T>(rows: Option<Seq<T>>, capacity: nat, index: int, t: T, zero: T) -> Seq<T> {
    match rows {
        Some(b) => b.update(index, t),
        None => Seq::new(capacity, |i: int| zero).update(index, t),
    }
}

/// `write_row` on the rows of a batch, if there is one.
pub open spec fn rows_after_push<T>(rows: Option<Vec<T>>, capacity: nat, index: int, t: T, zero: T) -> Seq<T> {
    write_row(
        match rows {
            Some(b) => Some(b@),
            None => None,
        },
        capacity,
        index,
        t,
        zero,
    )
}

/// The rows of a fresh storage with room for `capacity` transitions after the
/// pushes of `history`, in order, each written at the slot the storage
/// reserves for it; `None` before the first push.
pub open spec fn rows_after_pushes<T>(history: Seq<T>, capacity: nat, zero: T) -> Option<Seq<T>>
    decreases history.len(),
{
    if history.len() == 0 {
        None
    } else {
        let k = (history.len() - 1) as nat;
        Some(write_row(rows_after_pushes(history.drop_last(), capacity, zero), capacity, counters_after(k, capacity).0 as int, history.last(), zero))
    }
}

/// What row `j` of a storage with room for `capacity` transitions holds after
/// the pushes of `history`: the latest pushed transition whose push count is
/// `j` modulo `capacity`, or the zero row when no push reached row `j`.
pub open spec fn latest_in_row<T>(history: Seq<T>, capacity: nat, zero: T, j: int) -> T {
    if j < history.len() {
        history[j + capacity * ((history.len() - 1 - j) / (capacity as int))]
    } else {
        zero
    }
}

proof fn lemma_row_arith(j: int, m: int, c: int)
    requires
        0 <= j < c,
        m >= 0,
    ensures
        (j + m) % c == j <==> m % c == 0,
        m % c == 0 ==> c * (m / c) == m,
        m % c != 0 ==> m >= 1 && (m - 1) / c == m / c && 0 <= c * (m / c) <= m - 1,
{
    let q = m / c;
    let r = m % c;
    vstd::arithmetic::div_mod::lemma_fundamental_div_mod(m, c);
    vstd::arithmetic::div_mod::lemma_mod_pos_bound(m, c);
    assert(m == c * q + r);
    assert(q >= 0) by (nonlinear_arith)
        requires m == c * q + r, 0 <= r < c, m >= 0;
    assert(c * q >= 0) by (nonlinear_arith)
        requires q >= 0, c > 0;
    assert(q * c == c * q) by (nonlinear_arith);
    assert((q + 1) * c == c * q + c) by (nonlinear_arith);
    if r == 0 {
        vstd::arithmetic::div_mod::lemma_fundamental_div_mod_converse(j + m, c, q, j);
    } else {
        if j + r < c {
            vstd::arithmetic::div_mod::lemma_fundamental_div_mod_converse(j + m, c, q, j + r);
        } else {
            vstd::arithmetic::div_mod::lemma_fundamental_div_mod_converse(j + m, c, q + 1, j + r - c);
        }
        vstd::arithmetic::div_mod::lemma_fundamental_div_mod_converse(m - 1, c, q, r - 1);
    }
}

/// Law: a push onto the storage that the pushes of `history` left, at the
/// slot the storage reserves next, leaves the storage that the pushes of
/// `history` followed by `t` leave.
pub proof fn lemma_push_extends<T>(history: Seq<T>, capacity: nat, zero: T, t: T)
    ensures
        rows_after_pushes(history.push(t), capacity, zero) == Some(
            write_row(rows_after_pushes(history, capacity, zero), capacity, counters_after(history.len(), capacity).0 as int, t, zero),
        ),
{
    assert(history.push(t).drop_last() =~= history);
}

/// Law: after any non-empty sequence of pushes into a fresh storage of
/// positive capacity, the storage holds `capacity` rows, and row `j` holds the
/// latest transition pushed as the `i`-th push with `i % capacity == j`, or the
/// zero row when fewer than `j + 1` transitions were pushed. No row loses its
/// latest transition and no row is zeroed after it was written.
pub proof fn lemma_rows_hold_latest<T>(history: Seq<T>, capacity: nat, zero: T)
    requires
        capacity > 0,
        history.len() > 0,
    ensures
        rows_after_pushes(history, capacity, zero) is Some,
        rows_after_pushes(history, capacity, zero)->0.len() == capacity,
        forall|j: int|
            0 <= j < capacity ==> #[trigger] rows_after_pushes(history, capacity, zero)->0[j]
                == latest_in_row(history, capacity, zero, j),
    decreases history.len(),
{
    let k = history.len() as int;
    let c = capacity as int;
    let prev = history.drop_last();
    let t = history.last();
    lemma_counters_after((k - 1) as nat, capacity);
    let idx = counters_after((k - 1) as nat, capacity).0 as int;
    assert(idx == (k - 1) % c);
    vstd::arithmetic::div_mod::lemma_mod_pos_bound(k - 1, c);
    assert(idx <= k - 1) by {
        vstd::arithmetic::div_mod::lemma_fundamental_div_mod(k - 1, c);
        assert((k - 1) / c >= 0) by {
            vstd::arithmetic::div_mod::lemma_div_pos_is_pos(k - 1, c);
        }
        assert(c * ((k - 1) / c) >= 0) by (nonlinear_arith)
            requires (k - 1) / c >= 0, c > 0;
    }
    let rows = rows_after_pushes(history, capacity, zero)->0;
    if k == 1 {
        assert(rows == Seq::new(capacity, |i: int| zero).update(idx, t));
        assert forall|j: int| 0 <= j < c implies #[trigger] rows[j] == latest_in_row(history, capacity, zero, j) by {
            if j == 0 {
                assert(idx == 0) by {
                    vstd::arithmetic::div_mod::lemma_small_mod(0, capacity);
                }
                lemma_row_arith(0, 0, c);
                assert(latest_in_row(history, capacity, zero, 0) == history[0]);
            }
        }
    } else {
        lemma_rows_hold_latest(prev, capacity, zero);
        let prev_rows = rows_after_pushes(prev, capacity, zero)->0;
        assert(rows == prev_rows.update(idx, t));
        assert forall|j: int| 0 <= j < c implies #[trigger] rows[j] == latest_in_row(history, capacity, zero, j) by {
            assert(prev_rows[j] == latest_in_row(prev, capacity, zero, j));
            if j < k {
                let m = k - 1 - j;
                lemma_row_arith(j, m, c);
                if j == idx {
                    assert(c * (m / c) == m);
                    assert(latest_in_row(history, capacity, zero, j) == history[k - 1]);
                } else {
                    assert(m % c != 0);
                    assert(j < k - 1) by {
                        if j == k - 1 {
                            assert(m == 0);
                        }
                    }
                    assert(latest_in_row(prev, capacity, zero, j) == prev[j + c * ((m - 1) / c)]);
                    assert(prev[j + c * ((m - 1) / c)] == history[j + c * (m / c)]);
                }
            } else {
                assert(j != idx);
            }
        }
    }
}

impl<T: Copy> LazyStorage<Vec<T>> {
    /// Writes a transition into the next slot and returns that slot. The first
    /// push allocates `capacity` rows that hold `zero`, the zero row shaped
    /// like the transition; later pushes ignore `zero`. Each push
    /// then writes its row at the head, leaves every other row as it was,
    /// moves the head on by one slot modulo the capacity and counts the
    /// transition until the storage is full.
    pub fn push(&mut self, t: T, zero: T) -> (index: usize)
        requires
            old(self)@.capacity > 0,
            old(self)@.buffer matches Some(b) ==> b@.len() >= old(self)@.capacity,
        ensures
            index == old(self)@.head,
            index < old(self)@.capacity,
            (final(self)@.head, final(self)@.n) == reserve_step(old(self)@.head, old(self)@.n, old(self)@.capacity),
            final(self)@.capacity == old(self)@.capacity,
            final(self)@.buffer matches Some(b) && b@ == rows_after_push(
                old(self)@.buffer,
                old(self)@.capacity,
                index as int,
                t,
                zero,
            ),
            final(self)@.buffer matches Some(b) && b@.len() >= old(self)@.capacity,
            final(self)@.buffer matches Some(b) && b@[index as int] == t,
            final(self)@.buffer matches Some(b) && b@.len() == match old(self)@.buffer {
                Some(ob) => ob@.len(),
                None => old(self)@.capacity,
            },
            final(self)@.buffer matches Some(b) && forall|j: int|
                0 <= j < b@.len() && j != index ==> #[trigger] b@[j] == match old(self)@.buffer {
                    Some(ob) => ob@[j],
                    None => zero,
                },
    {
        let capacity = self.slots.capacity;
        let mut rows: Vec<T> = match self.buffer.take() {
            Some(b) => b,
            None => {
                let mut fresh: Vec<T> = Vec::new();
                let mut i: usize = 0;
                while i < capacity
                    invariant
                        i <= capacity,
                        fresh@ == Seq::new(i as nat, |j: int| zero),
                    decreases capacity - i,
                {
                    fresh.push(zero);
                    proof {
                        assert(fresh@ =~= Seq::new((i + 1) as nat, |j: int| zero));
                    }
                    i = i + 1;
                }
                fresh
            },
        };
        let index = self.slots.reserve();
        rows.set(index, t);
        proof {
            match old(self)@.buffer {
                Some(b) => {
                    assert(rows@ =~= b@.update(index as int, t));
                },
                None => {
                    assert(rows@ =~= Seq::new(capacity as nat, |i: int| zero).update(index as int, t));
                },
            }
        }
        self.buffer = Some(rows);
        index
    }
}

} // verus!

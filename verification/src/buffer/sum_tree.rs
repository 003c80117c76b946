//! The shape of the binary trees that prioritized sampling keeps over the
//! stored transitions: a complete tree whose leaves are the slots.
use vstd::prelude::*;
use vstd::arithmetic::power2::{pow2, lemma_pow2_unfold};

verus! {

/// Whether `x` is a power of two.
pub open spec fn is_power_of_two(x: nat) -> bool {
    exists|e: nat| x == pow2(e)
}

/// The number of leaves of a tree over `capacity` slots: the least power of two
/// that is at least `capacity`, or 0 for no slots. The tree then keeps
/// `2 * leaf_count(capacity)` nodes, with the leaf of slot `i` at node
/// `i + leaf_count(capacity)` and the root at node 1.
pub fn leaf_count(capacity: usize) -> (n: usize)
    requires
        capacity <= usize::MAX / 2 + 1,
    ensures
        capacity == 0 ==> n == 0,
        capacity > 0 ==> {
            &&& is_power_of_two(n as nat)
            &&& capacity <= n
            &&& n < 2 * capacity
        },
{
    if capacity == 0 {
        return 0;
    }
    let mut n: usize = 1;
    let ghost mut e: nat = 0;
    proof {
        assert(pow2(0) == 1) by {
            vstd::arithmetic::power2::lemma2_to64();
        }
    }
    while n < capacity
        invariant
            1 <= n,
            n == pow2(e),
            n == 1 || n < 2 * capacity,
            capacity <= usize::MAX / 2 + 1,
        decreases usize::MAX - n,
    {
        proof {
            lemma_pow2_unfold(e + 1);
        }
        n = n * 2;
        proof {
            e = e + 1;
        }
    }
    proof {
        assert(is_power_of_two(n as nat));
    }
    n
}

/// The nodes that setting the priority of `slot` rewrites, in the order they
/// are rewritten: the leaf of the slot, at node `slot + n`, then each parent
/// in turn, up to the root at node 1.
pub fn update_path(slot: usize, n: usize) -> (path: Vec<usize>)
    requires
        slot < n,
        n <= usize::MAX / 2 + 1,
    ensures
        path@.len() > 0,
        path@[0] == slot + n,
        path@.last() == 1,
        forall|k: int| 0 <= k < path@.len() - 1 ==> #[trigger] path@[k] > 1,
        forall|k: int| 1 <= k < path@.len() ==> #[trigger] path@[k] == path@[k - 1] / 2,
{
    let mut node: usize = slot + n;
    let mut path: Vec<usize> = Vec::new();
    path.push(node);
    while node > 1
        invariant
            node >= 1,
            path@.len() > 0,
            path@[0] == slot + n,
            path@.last() == node,
            forall|k: int| 0 <= k < path@.len() - 1 ==> #[trigger] path@[k] > 1,
            forall|k: int| 1 <= k < path@.len() ==> #[trigger] path@[k] == path@[k - 1] / 2,
        decreases node,
    {
        let ghost prev = path@;
        node = node / 2;
        path.push(node);
        proof {
            assert forall|k: int| 1 <= k < path@.len() implies #[trigger] path@[k] == path@[k - 1] / 2 by {
                if k < prev.len() {
                    assert(path@[k] == prev[k]);
                    assert(path@[k - 1] == prev[k - 1]);
                }
            }
        }
    }
    path
}

/// The nodes of the level that starts at node `first`, from left to right:
/// `first, first + 1, ..., 2 * first - 1`.
pub open spec fn level_nodes(first: nat) -> Seq<usize> {
    Seq::new(first, |i: int| (first + i) as usize)
}

/// The levels from the one that starts at node `first` up to the root, each
/// from left to right: `level_nodes(first)`, then `level_nodes(first / 2)`,
/// and so on until the root.
pub open spec fn levels_from(first: nat) -> Seq<usize>
    decreases first,
{
    if first == 0 {
        Seq::empty()
    } else {
        level_nodes(first) + levels_from(first / 2)
    }
}

/// The internal nodes of a tree with `n` leaves, in the order in which building
/// the tree from its leaves computes them: level by level, from the level just
/// above the leaves up to the root, each level from left to right. Each
/// internal node comes exactly once, and after those of its children that are
/// internal nodes too.
pub fn rebuild_order(n: usize) -> (order: Vec<usize>)
    requires
        n == 0 || is_power_of_two(n as nat),
    ensures
        order@ == levels_from((n / 2) as nat),
        order@.len() == if n == 0 { 0 } else { n - 1 },
        forall|k: int| 0 <= k < order@.len() ==> 1 <= #[trigger] order@[k] < n,
        forall|t: usize| 1 <= t < n ==> #[trigger] order@.contains(t),
        order@.no_duplicates(),
        forall|j: int, k: int|
            0 <= j < order@.len() && 0 <= k < order@.len() && #[trigger] order@[j] / 2 == #[trigger] order@[k]
                ==> j < k,
{
    let mut order: Vec<usize> = Vec::new();
    let mut index: usize = n / 2;
    let ghost mut lo: int = n as int;
    let ghost mut e: nat = 0;
    proof {
        if n >= 2 {
            let big_e = choose|x: nat| n as nat == pow2(x);
            if big_e == 0 {
                vstd::arithmetic::power2::lemma2_to64();
                assert(false);
            }
            lemma_pow2_unfold(big_e);
            e = (big_e - 1) as nat;
            assert(index == pow2(e));
        } else {
            lo = if n == 0 { 0 } else { 1 };
        }
    }
    proof {
        assert(order@ + levels_from((n / 2) as nat) =~= levels_from((n / 2) as nat));
    }
    while index >= 1
        invariant
            n / 2 == 0 || index <= n / 2,
            order@ + levels_from(index as nat) == levels_from((n / 2) as nat),
            index >= 1 ==> index == pow2(e) && lo == 2 * index,
            index == 0 ==> lo == if n == 0 { 0int } else { 1int },
            0 <= lo <= n,
            order@.len() == n - lo,
            forall|k: int| 0 <= k < order@.len() ==> lo <= #[trigger] order@[k] < n,
            forall|t: usize| lo <= t < n ==> #[trigger] order@.contains(t),
            order@.no_duplicates(),
            forall|j: int, k: int|
                0 <= j < order@.len() && 0 <= k < order@.len() && #[trigger] order@[j] / 2 == #[trigger] order@[k]
                    ==> j < k,
        decreases index,
    {
        let mut tmp: usize = index;
        proof {
            let rest = levels_from((index / 2) as nat);
            assert(levels_from(index as nat) == level_nodes(index as nat) + rest);
            assert(Seq::new((2 * index - tmp) as nat, |i: int| (tmp + i) as usize) =~= level_nodes(index as nat));
            assert(order@ + level_nodes(index as nat) + rest =~= order@ + (level_nodes(index as nat) + rest));
        }
        while tmp < 2 * index
            invariant
                index >= 1,
                lo == 2 * index,
                order@ + Seq::new((2 * index - tmp) as nat, |i: int| (tmp + i) as usize)
                    + levels_from((index / 2) as nat) == levels_from((n / 2) as nat),
                lo <= n,
                index <= tmp <= 2 * index,
                order@.len() == (n - lo) + (tmp - index),
                forall|k: int| 0 <= k < order@.len() ==> (index <= #[trigger] order@[k] < tmp || lo <= order@[k] < n),
                forall|t: usize| (index <= t < tmp || lo <= t < n) ==> #[trigger] order@.contains(t),
                order@.no_duplicates(),
                forall|j: int, k: int|
                    0 <= j < order@.len() && 0 <= k < order@.len() && #[trigger] order@[j] / 2 == #[trigger] order@[k]
                        ==> j < k,
            decreases 2 * index - tmp,
        {
            let ghost prev = order@;
            order.push(tmp);
            proof {
                let len = prev.len() as int;
                let rest = levels_from((index / 2) as nat);
                let before = Seq::new((2 * index - tmp) as nat, |i: int| (tmp + i) as usize);
                let after = Seq::new((2 * index - (tmp + 1)) as nat, |i: int| (tmp + 1 + i) as usize);
                assert(order@ + after =~= prev + before);
                assert(order@ + after + rest == prev + before + rest);
                assert(order@[len] == tmp);
                assert forall|t: usize| (index <= t < tmp + 1 || lo <= t < n) implies #[trigger] order@.contains(t) by {
                    if t == tmp {
                        assert(order@[len] == t);
                    } else {
                        assert(prev.contains(t));
                        let w = choose|w: int| 0 <= w < prev.len() && prev[w] == t;
                        assert(order@[w] == t);
                    }
                }
                assert forall|j: int, k: int|
                    0 <= j < order@.len() && 0 <= k < order@.len() && #[trigger] order@[j] / 2 == #[trigger] order@[k]
                        implies j < k by {
                    if k == len {
                    } else if j == len {
                        assert(order@[k] == prev[k]);
                        assert(prev[k] >= index);
                        assert(tmp / 2 < index);
                    } else {
                        assert(order@[j] == prev[j]);
                        assert(order@[k] == prev[k]);
                    }
                }
                assert forall|j: int, k: int| 0 <= j < order@.len() && 0 <= k < order@.len() && j != k
                    implies order@[j] != order@[k] by {
                    if j == len {
                        assert(order@[k] == prev[k]);
                    } else if k == len {
                        assert(order@[j] == prev[j]);
                    } else {
                        assert(order@[j] == prev[j]);
                        assert(order@[k] == prev[k]);
                    }
                }
            }
            tmp = tmp + 1;
        }
        proof {
            assert(order@ + Seq::new((2 * index - tmp) as nat, |i: int| (tmp + i) as usize) =~= order@);
            if e >= 1 {
                lemma_pow2_unfold(e);
                lo = index as int;
                e = (e - 1) as nat;
            } else {
                vstd::arithmetic::power2::lemma2_to64();
                lo = 1;
            }
        }
        index = index / 2;
    }
    proof {
        assert(order@ + levels_from(0) =~= order@);
    }
    order
}

} // verus!

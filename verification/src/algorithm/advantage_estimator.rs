//! The backward sweep of multi-step advantage estimation. A rollout of `n`
//! transitions from `n_envs` environments is laid out step by step: the
//! transitions of step `t` occupy positions `t * n_envs .. (t + 1) * n_envs`.
//! The estimate of the last step is its temporal-difference residual; each
//! earlier step is computed from the step after it, from the last towards the
//! first.
use vstd::prelude::*;

verus! {

/// Positions of the steps that the backward sweep visits, latest first: every
/// multiple of `n_envs` below `n - n_envs`, in decreasing order. Each visited
/// step reads the one after it, so the last step is not among them.
pub fn backward_step_starts(n: usize, n_envs: usize) -> (starts: Vec<usize>)
    requires
        0 < n_envs <= n,
    ensures
        forall|k: int|
            0 <= k < starts@.len() ==> #[trigger] starts@[k] == (starts@.len() - 1 - k) * n_envs,
        starts@.len() * n_envs >= n - n_envs,
        starts@.len() == 0 || (starts@.len() - 1) * n_envs < n - n_envs,
        n % n_envs == 0 ==> forall|k: int|
            0 <= k < starts@.len() ==> #[trigger] starts@[k] + 2 * n_envs <= n,
{
    let limit = n - n_envs;
    let mut ascending: Vec<usize> = Vec::new();
    let mut i: usize = 0;
    proof {
        assert(ascending@.len() * n_envs == 0) by (nonlinear_arith)
            requires ascending@.len() == 0;
    }
    while i < limit
        invariant
            limit == n - n_envs,
            n_envs > 0,
            i == ascending@.len() * n_envs,
            ascending@.len() == 0 || (ascending@.len() - 1) * n_envs < limit,
            forall|k: int| 0 <= k < ascending@.len() ==> #[trigger] ascending@[k] == k * n_envs,
        decreases usize::MAX - i,
    {
        ascending.push(i);
        proof {
            assert((ascending@.len() as int) * n_envs == (ascending@.len() - 1) * n_envs + n_envs) by (nonlinear_arith);
        }
        i = i + n_envs;
    }
    let m = ascending.len();
    let mut starts: Vec<usize> = Vec::new();
    let mut j: usize = m;
    while j > 0
        invariant
            j <= m,
            m == ascending@.len(),
            starts@.len() == m - j,
            forall|k: int| 0 <= k < ascending@.len() ==> #[trigger] ascending@[k] == k * n_envs,
            forall|k: int| 0 <= k < starts@.len() ==> #[trigger] starts@[k] == (m - 1 - k) * n_envs,
        decreases j,
    {
        j = j - 1;
        starts.push(ascending[j]);
    }
    proof {
        if n % n_envs == 0 {
            assert forall|k: int| 0 <= k < starts@.len() implies #[trigger] starts@[k] + 2 * n_envs <= n by {
                let s = m - 1 - k;
                assert(s * n_envs <= (m - 1) * n_envs) by (nonlinear_arith)
                    requires 0 <= s <= m - 1, n_envs > 0;
                assert(s * n_envs + 2 * n_envs <= n) by (nonlinear_arith)
                    requires
                        s * n_envs < n - n_envs,
                        n % n_envs == 0,
                        n_envs > 0,
                        s >= 0,
                {
                    let q = n / n_envs;
                    assert(n == q * n_envs);
                    assert(s < q - 1) by (nonlinear_arith)
                        requires s * n_envs < q * n_envs - n_envs, n_envs > 0;
                    assert((s + 2) * n_envs <= q * n_envs) by (nonlinear_arith)
                        requires s + 2 <= q, n_envs > 0;
                }
            }
        }
    }
    starts
}

} // verus!

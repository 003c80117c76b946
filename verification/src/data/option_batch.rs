//! An optional part of a batch is either present in every item or absent from
//! every item; concatenating batches never mixes the two.
use vstd::prelude::*;

verus! {

/// Whether every item is `None`.
pub open spec fn all_none<T>(items: Seq<Option<T>>) -> bool {
    forall|i: int| 0 <= i < items.len() ==> #[trigger] items[i] is None
}

/// Whether every item is `Some`.
pub open spec fn all_some<T>(items: Seq<Option<T>>) -> bool {
    forall|i: int| 0 <= i < items.len() ==> #[trigger] items[i] is Some
}

/// The values of items that are all `Some`.
pub open spec fn unwrapped<T>(items: Seq<Option<T>>) -> Seq<T> {
    items.map_values(|o: Option<T>| o.unwrap())
}

/// Takes the values out of a non-empty list of optional items that are either
/// all present or all absent: `None` when all are absent, the values in order
/// when all are present. A mixed list cannot be concatenated.
pub fn unwrap_all<T>(items: Vec<Option<T>>) -> (r: Option<Vec<T>>)
    requires
        items@.len() > 0,
        all_none(items@) || all_some(items@),
    ensures
        all_none(items@) ==> r is None,
        all_some(items@) ==> (r matches Some(values) && values@ == unwrapped(items@)),
{
    let n = items.len();
    let mut n_some: usize = 0;
    let mut i: usize = 0;
    while i < n
        invariant
            i <= n,
            n == items@.len(),
            n_some <= i,
            n_some == 0 <==> forall|j: int| 0 <= j < i ==> #[trigger] items@[j] is None,
        decreases n - i,
    {
        if items[i].is_some() {
            n_some = n_some + 1;
        }
        i = i + 1;
    }
    if n_some == 0 {
        proof {
            assert(items@[0] is None);
        }
        return None;
    }
    proof {
        assert(!all_none(items@));
    }
    let ghost given = items@;
    let mut rest = items;
    let mut values: Vec<T> = Vec::new();
    while rest.len() > 0
        invariant
            all_some(given),
            values@.len() + rest@.len() == given.len(),
            values@ == unwrapped(given).subrange(0, values@.len() as int),
            rest@ == given.subrange(values@.len() as int, given.len() as int),
        decreases rest@.len(),
    {
        let item = rest.remove(0);
        proof {
            assert(item == given[values@.len() as int]);
        }
        match item {
            Some(v) => {
                values.push(v);
            },
            None => {
                proof {
                    assert(false);
                }
            },
        }
        proof {
            assert(values@ =~= unwrapped(given).subrange(0, values@.len() as int));
            assert(rest@ =~= given.subrange(values@.len() as int, given.len() as int));
        }
    }
    proof {
        assert(values@ =~= unwrapped(given));
    }
    Some(values)
}

} // verus!

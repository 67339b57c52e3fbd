//! Folds over sequences of pairs.
use vstd::prelude::*;

verus! {

/// The smallest first element and the largest second element of the pairs
/// `items`, or `None` when there is no pair.
pub fn min_max(items: &[(u64, u64)]) -> (r: Option<(u64, u64)>)
    ensures
        r is None <==> items@.len() == 0,
        r matches Some((lo, hi)) ==> {
            &&& exists|i: int| 0 <= i < items@.len() && #[trigger] items@[i].0 == lo
            &&& exists|i: int| 0 <= i < items@.len() && #[trigger] items@[i].1 == hi
            &&& forall|i: int| 0 <= i < items@.len() ==> lo <= #[trigger] items@[i].0
            &&& forall|i: int| 0 <= i < items@.len() ==> #[trigger] items@[i].1 <= hi
        },
{
    let n = items.len();
    if n == 0 {
        return None;
    }
    let mut mm = items[0];
    assert(items@[0].0 == mm.0 && items@[0].1 == mm.1);
    let mut i: usize = 1;
    while i < n
        invariant
            1 <= i <= n,
            n == items@.len(),
            exists|j: int| 0 <= j < n && #[trigger] items@[j].0 == mm.0,
            exists|j: int| 0 <= j < n && #[trigger] items@[j].1 == mm.1,
            forall|j: int| 0 <= j < i ==> mm.0 <= #[trigger] items@[j].0,
            forall|j: int| 0 <= j < i ==> #[trigger] items@[j].1 <= mm.1,
        decreases n - i,
    {
        let (a, b) = items[i];
        assert(items@[i as int].0 == a && items@[i as int].1 == b);
        if a < mm.0 {
            mm.0 = a;
        }
        if b > mm.1 {
            mm.1 = b;
        }
        i = i + 1;
    }
    Some(mm)
}

} // verus!

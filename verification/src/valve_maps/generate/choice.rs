//! Choosing the indices of a list on which a condition holds.

use vstd::prelude::*;

verus! {

/// The indices below `n` on which `keep` holds, in rising order.
pub open spec fn chosen(keep: spec_fn(int) -> bool, n: int) -> Seq<int>
    decreases n,
{
    if n <= 0 {
        Seq::empty()
    } else if keep(n - 1) {
        chosen(keep, n - 1).push(n - 1)
    } else {
        chosen(keep, n - 1)
    }
}

/// The number of indices below `n` on which `keep` holds.
pub open spec fn rank(keep: spec_fn(int) -> bool, n: int) -> int {
    chosen(keep, n).len() as int
}

/// What `chosen` holds: indices below `n` on which `keep` holds, each at
/// the place that its rank gives, and all of them.
pub proof fn lemma_chosen(keep: spec_fn(int) -> bool, n: int)
    requires
        0 <= n,
    ensures
        rank(keep, n) <= n,
        forall|k: int|
            0 <= k < rank(keep, n) ==> 0 <= (#[trigger] chosen(keep, n)[k]) < n && keep(
                chosen(keep, n)[k],
            ),
        forall|i: int|
            0 <= i < n && keep(i) ==> 0 <= #[trigger] rank(keep, i) < rank(keep, n) && chosen(
                keep,
                n,
            )[rank(keep, i)] == i,
        forall|i: int| 0 <= i <= n ==> 0 <= #[trigger] rank(keep, i) <= rank(keep, n),
    decreases n,
{
    if n > 0 {
        lemma_chosen(keep, n - 1);
        assert forall|i: int| 0 <= i < n && keep(i) implies 0 <= #[trigger] rank(keep, i) < rank(
            keep,
            n,
        ) && chosen(keep, n)[rank(keep, i)] == i by {
            if i < n - 1 {
                assert(chosen(keep, n)[rank(keep, i)] == chosen(keep, n - 1)[rank(keep, i)]);
            }
        }
    }
}

/// `chosen` rises: an index that stands earlier is smaller.
pub proof fn lemma_chosen_rises(keep: spec_fn(int) -> bool, n: int, a: int, b: int)
    requires
        0 <= a < b < rank(keep, n),
    ensures
        chosen(keep, n)[a] < chosen(keep, n)[b],
    decreases n,
{
    if n > 0 {
        lemma_chosen(keep, n - 1);
        if b < rank(keep, n - 1) {
            lemma_chosen_rises(keep, n - 1, a, b);
        }
    }
}

} // verus!

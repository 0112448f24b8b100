//! Selections of the entries of a list: the places that are kept, from
//! left to right.

use vstd::prelude::*;

verus! {

/// The places below `n` that `keep` keeps, in ascending order.
pub open spec fn kept_places(n: nat, keep: spec_fn(int) -> bool) -> Seq<int>
    decreases n,
{
    if n == 0 {
        Seq::empty()
    } else {
        let head = kept_places((n - 1) as nat, keep);
        if keep(n - 1) {
            head.push(n - 1)
        } else {
            head
        }
    }
}

/// The kept places are exactly the places below `n` that `keep` keeps, each
/// once, from left to right.
pub proof fn lemma_kept_places(n: nat, keep: spec_fn(int) -> bool)
    ensures
        forall|i: int|
            0 <= i < kept_places(n, keep).len() ==> 0 <= (#[trigger] kept_places(n, keep)[i]) < n
                && keep(kept_places(n, keep)[i]),
        forall|i: int, j: int|
            0 <= i < j < kept_places(n, keep).len() ==> kept_places(n, keep)[i] < kept_places(
                n,
                keep,
            )[j],
        forall|k: int| 0 <= k < n && keep(k) ==> kept_places(n, keep).contains(k),
    decreases n,
{
    if n > 0 {
        let head = kept_places((n - 1) as nat, keep);
        let all = kept_places(n, keep);
        lemma_kept_places((n - 1) as nat, keep);
        assert forall|i: int| 0 <= i < all.len() implies 0 <= (#[trigger] all[i]) < n && keep(
            all[i],
        ) by {
            if i < head.len() {
                assert(all[i] == head[i]);
            }
        }
        assert forall|i: int, j: int| 0 <= i < j < all.len() implies all[i] < all[j] by {
            assert(all[i] == head[i]);
            if j < head.len() {
                assert(all[j] == head[j]);
            }
        }
        assert forall|k: int| 0 <= k < n && keep(k) implies all.contains(k) by {
            if k < n - 1 {
                assert(head.contains(k));
                let i = choose|i: int| 0 <= i < head.len() && head[i] == k;
                assert(all[i] == k);
            } else {
                assert(all[all.len() - 1] == k);
            }
        }
    }
}

/// Whether `keep` and `other` keep the same places below `n`.
pub open spec fn agree_below(
    n: nat,
    keep: spec_fn(int) -> bool,
    other: spec_fn(int) -> bool,
) -> bool {
    forall|k: int| 0 <= k < n ==> (#[trigger] keep(k)) == other(k)
}

/// Two choices that agree below `n` keep the same places below `n`.
pub proof fn lemma_kept_places_agree(
    n: nat,
    keep: spec_fn(int) -> bool,
    other: spec_fn(int) -> bool,
)
    requires
        agree_below(n, keep, other),
    ensures
        kept_places(n, keep) == kept_places(n, other),
    decreases n,
{
    if n > 0 {
        lemma_kept_places_agree((n - 1) as nat, keep, other);
    }
}

} // verus!

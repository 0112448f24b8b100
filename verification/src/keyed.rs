//! Lists of named values whose names are pairwise different, read as maps
//! from name to value.

use vstd::prelude::*;

verus! {

/// Some pair of `pairs` has the name `key`.
pub open spec fn has_key<V>(pairs: Seq<(Seq<char>, V)>, key: Seq<char>) -> bool {
    exists|i: int| 0 <= i < pairs.len() && pairs[i].0 == key
}

/// The index of a pair of `pairs` with the name `key`.
pub open spec fn index_of_key<V>(pairs: Seq<(Seq<char>, V)>, key: Seq<char>) -> int {
    choose|i: int| 0 <= i < pairs.len() && pairs[i].0 == key
}

/// The map that a list of pairs with different names stands for.
pub open spec fn pairs_to_map<V>(pairs: Seq<(Seq<char>, V)>) -> Map<Seq<char>, V> {
    Map::new(
        |k: Seq<char>| has_key(pairs, k),
        |k: Seq<char>| pairs[index_of_key(pairs, k)].1,
    )
}

/// No two pairs have the same name.
pub open spec fn distinct_keys<V>(pairs: Seq<(Seq<char>, V)>) -> bool {
    forall|i: int, j: int| 0 <= i < j < pairs.len() ==> pairs[i].0 != pairs[j].0
}

/// In a list of pairs with different names, the map gives each name its pair's value.
pub proof fn lemma_pairs_lookup<V>(pairs: Seq<(Seq<char>, V)>, i: int)
    requires
        distinct_keys(pairs),
        0 <= i < pairs.len(),
    ensures
        pairs_to_map(pairs).contains_key(pairs[i].0),
        pairs_to_map(pairs)[pairs[i].0] == pairs[i].1,
        index_of_key(pairs, pairs[i].0) == i,
{
    let k = pairs[i].0;
    assert(has_key(pairs, k));
    let j = index_of_key(pairs, k);
    assert(0 <= j < pairs.len() && pairs[j].0 == k);
    if j < i {
        assert(pairs[j].0 != pairs[i].0);
    }
    if i < j {
        assert(pairs[i].0 != pairs[j].0);
    }
}

/// A name that no pair has is no key of the map.
pub proof fn lemma_pairs_absent<V>(pairs: Seq<(Seq<char>, V)>, key: Seq<char>)
    requires
        forall|i: int| 0 <= i < pairs.len() ==> pairs[i].0 != key,
    ensures
        !pairs_to_map(pairs).contains_key(key),
{
}

/// Adding a pair with a new name inserts it into the map.
pub proof fn lemma_pairs_push<V>(pairs: Seq<(Seq<char>, V)>, key: Seq<char>, value: V)
    requires
        distinct_keys(pairs),
        forall|i: int| 0 <= i < pairs.len() ==> pairs[i].0 != key,
    ensures
        distinct_keys(pairs.push((key, value))),
        pairs_to_map(pairs.push((key, value))) == pairs_to_map(pairs).insert(key, value),
{
    let after = pairs.push((key, value));
    assert(distinct_keys(after));
    let m = pairs_to_map(pairs).insert(key, value);
    assert forall|k: Seq<char>| pairs_to_map(after).contains_key(k) <==> m.contains_key(k) by {
        if has_key(after, k) {
            let i = index_of_key(after, k);
            if i < pairs.len() {
                assert(pairs[i].0 == k);
            }
        }
        if has_key(pairs, k) {
            let i = index_of_key(pairs, k);
            assert(after[i].0 == k);
        }
        if k == key {
            assert(after[pairs.len() as int].0 == k);
        }
    }
    assert forall|k: Seq<char>| pairs_to_map(after).contains_key(k) implies pairs_to_map(after)[k]
        == m[k] by {
        let i = index_of_key(after, k);
        lemma_pairs_lookup(after, i);
        if i < pairs.len() {
            assert(pairs[i] == after[i]);
            lemma_pairs_lookup(pairs, i);
        }
    }
    assert(pairs_to_map(after) =~= m);
}

/// Giving the pair at `at` a new value, under the same name, replaces the
/// value in the map.
pub proof fn lemma_pairs_update<V>(pairs: Seq<(Seq<char>, V)>, at: int, value: V)
    requires
        distinct_keys(pairs),
        0 <= at < pairs.len(),
    ensures
        distinct_keys(pairs.update(at, (pairs[at].0, value))),
        pairs_to_map(pairs.update(at, (pairs[at].0, value))) == pairs_to_map(pairs).insert(
            pairs[at].0,
            value,
        ),
{
    let key = pairs[at].0;
    let after = pairs.update(at, (key, value));
    assert(distinct_keys(after)) by {
        assert forall|i: int, j: int| 0 <= i < j < after.len() implies after[i].0 != after[j].0 by {
            assert(after[i].0 == pairs[i].0);
            assert(after[j].0 == pairs[j].0);
        }
    }
    let m = pairs_to_map(pairs).insert(key, value);
    assert forall|k: Seq<char>| pairs_to_map(after).contains_key(k) <==> m.contains_key(k) by {
        if has_key(after, k) {
            let i = index_of_key(after, k);
            assert(pairs[i].0 == k);
        }
        if has_key(pairs, k) {
            let i = index_of_key(pairs, k);
            assert(after[i].0 == k);
        }
        if k == key {
            assert(after[at].0 == k);
        }
    }
    assert forall|k: Seq<char>| pairs_to_map(after).contains_key(k) implies pairs_to_map(after)[k]
        == m[k] by {
        let i = index_of_key(after, k);
        lemma_pairs_lookup(after, i);
        if i != at {
            assert(pairs[i] == after[i]);
            lemma_pairs_lookup(pairs, i);
        }
    }
    assert(pairs_to_map(after) =~= m);
}

/// Taking the pair at `at` out removes its name from the map.
pub proof fn lemma_pairs_remove<V>(pairs: Seq<(Seq<char>, V)>, at: int)
    requires
        distinct_keys(pairs),
        0 <= at < pairs.len(),
    ensures
        distinct_keys(pairs.remove(at)),
        pairs_to_map(pairs.remove(at)) == pairs_to_map(pairs).remove(pairs[at].0),
{
    let key = pairs[at].0;
    let after = pairs.remove(at);
    assert forall|i: int, j: int| 0 <= i < j < after.len() implies after[i].0 != after[j].0 by {
        let oi = if i < at { i } else { i + 1 };
        let oj = if j < at { j } else { j + 1 };
        assert(after[i] == pairs[oi]);
        assert(after[j] == pairs[oj]);
    }
    let m = pairs_to_map(pairs).remove(key);
    assert forall|k: Seq<char>| pairs_to_map(after).contains_key(k) <==> m.contains_key(k) by {
        if has_key(after, k) {
            let i = index_of_key(after, k);
            let oi = if i < at { i } else { i + 1 };
            assert(after[i] == pairs[oi]);
            assert(pairs[oi].0 == k);
            if oi < at {
                assert(pairs[oi].0 != pairs[at].0);
            } else {
                assert(pairs[at].0 != pairs[oi].0);
            }
        }
        if has_key(pairs, k) && k != key {
            let i = index_of_key(pairs, k);
            let ni = if i < at { i } else { i - 1 };
            assert(after[ni] == pairs[i]);
        }
    }
    assert forall|k: Seq<char>| pairs_to_map(after).contains_key(k) implies pairs_to_map(after)[k]
        == m[k] by {
        let i = index_of_key(after, k);
        lemma_pairs_lookup(after, i);
        let oi = if i < at { i } else { i + 1 };
        assert(after[i] == pairs[oi]);
        lemma_pairs_lookup(pairs, oi);
    }
    assert(pairs_to_map(after) =~= m);
}

/// Where the entry named `key` stands in a list of named entries: the first
/// place whose name is `key`, or nothing where no entry has that name.
pub fn position_of<V>(entries: &Vec<(String, V)>, key: &str) -> (r: Option<usize>)
    ensures
        match r {
            Some(at) => at < entries@.len() && entries@[at as int].0@ == key@ && forall|j: int|
                0 <= j < at ==> (#[trigger] entries@[j]).0@ != key@,
            None => forall|j: int| 0 <= j < entries@.len() ==> (#[trigger] entries@[j]).0@ != key@,
        },
{
    let mut i: usize = 0;
    while i < entries.len()
        invariant
            i <= entries@.len(),
            forall|j: int| 0 <= j < i ==> (#[trigger] entries@[j]).0@ != key@,
        decreases entries@.len() - i,
    {
        if entries[i].0.as_str().eq(key) {
            return Some(i);
        }
        i += 1;
    }
    None
}

} // verus!

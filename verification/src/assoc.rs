//! A table held as a list of rows is a map from key to row, as long as no
//! key occurs twice. These are the facts that carry the list operations
//! over to the map.

use vstd::prelude::*;

verus! {

/// The map that takes the key at each position to the value at the same
/// position.
pub open spec fn assoc<K, V>(keys: Seq<K>, vals: Seq<V>) -> Map<K, V> {
    Map::new(|k: K| keys.contains(k), |k: K| vals[keys.index_of(k)])
}

/// Keys that rise strictly from position to position, all of them between
/// one and `last`.
pub open spec fn ascending(keys: Seq<int>, last: int) -> bool {
    &&& forall|i: int, j: int| 0 <= i < j < keys.len() ==> keys[i] < keys[j]
    &&& forall|i: int| 0 <= i < keys.len() ==> 1 <= #[trigger] keys[i] <= last
}

/// Rising keys do not repeat.
pub proof fn lemma_ascending_distinct(keys: Seq<int>, last: int)
    requires
        ascending(keys, last),
    ensures
        keys.no_duplicates(),
{
}

/// The key at position `i` leads to the value at position `i`.
pub proof fn lemma_assoc_at<K, V>(keys: Seq<K>, vals: Seq<V>, i: int)
    requires
        keys.no_duplicates(),
        keys.len() == vals.len(),
        0 <= i < keys.len(),
    ensures
        assoc(keys, vals).contains_key(keys[i]),
        assoc(keys, vals)[keys[i]] == vals[i],
{
}

/// A key that stands nowhere in the list is no key of the map.
pub proof fn lemma_assoc_absent<K, V>(keys: Seq<K>, vals: Seq<V>, k: K)
    requires
        forall|i: int| 0 <= i < keys.len() ==> keys[i] != k,
    ensures
        !assoc(keys, vals).contains_key(k),
{
}

/// Appending a new key with its value inserts the pair.
pub proof fn lemma_assoc_push<K, V>(keys: Seq<K>, vals: Seq<V>, k: K, v: V)
    requires
        keys.no_duplicates(),
        keys.len() == vals.len(),
        !keys.contains(k),
    ensures
        keys.push(k).no_duplicates(),
        assoc(keys.push(k), vals.push(v)) == assoc(keys, vals).insert(k, v),
{
    let keys2 = keys.push(k);
    assert forall|q: K| #[trigger] keys2.contains(q) <==> (q == k || keys.contains(q)) by {
        if q == k {
            assert(keys2[keys.len() as int] == k);
        }
        if keys.contains(q) {
            let i = keys.index_of(q);
            assert(keys2[i] == q);
        }
    }
}

/// Replacing the value at position `i` replaces the value of the key there.
pub proof fn lemma_assoc_update<K, V>(keys: Seq<K>, vals: Seq<V>, i: int, v: V)
    requires
        keys.no_duplicates(),
        keys.len() == vals.len(),
        0 <= i < keys.len(),
    ensures
        assoc(keys, vals.update(i, v)) == assoc(keys, vals).insert(keys[i], v),
{
}

/// Taking position `i` out of both lists removes the key that stood there.
pub proof fn lemma_assoc_remove<K, V>(keys: Seq<K>, vals: Seq<V>, i: int)
    requires
        keys.no_duplicates(),
        keys.len() == vals.len(),
        0 <= i < keys.len(),
    ensures
        keys.remove(i).no_duplicates(),
        assoc(keys.remove(i), vals.remove(i)) == assoc(keys, vals).remove(keys[i]),
{
    let keys2 = keys.remove(i);
    assert forall|q: K| #[trigger] keys2.contains(q) <==> (q != keys[i] && keys.contains(q)) by {
        if q != keys[i] && keys.contains(q) {
            let j = keys.index_of(q);
            let a = if j < i { j } else { j - 1 };
            assert(keys2[a] == q);
        }
    }
}

} // verus!

//! Sequences of (key, value) pairs with each key at most once, seen as maps,
//! and the concurrent maps that hold the per-file and per-handle tables.

use dashmap::DashMap;
use vstd::prelude::*;

verus! {

/// `dashmap::DashMap`, a concurrent hash map. What one holds is named per
/// table, next to the type that keeps it.
#[verifier::external_type_specification]
#[verifier::external_body]
#[verifier::reject_recursive_types(K)]
#[verifier::reject_recursive_types(V)]
#[verifier::reject_recursive_types(S)]
pub struct ExDashMap<K, V, S>(DashMap<K, V, S>);

/// Position of the last pair with key `k`, or -1.
pub open spec fn key_index<K, V>(s: Seq<(K, V)>, k: K) -> int
    decreases s.len(),
{
    if s.len() == 0 {
        -1
    } else if s.last().0 == k {
        s.len() - 1
    } else {
        key_index(s.drop_last(), k)
    }
}

/// No two pairs share a key.
pub open spec fn keys_distinct<K, V>(s: Seq<(K, V)>) -> bool {
    forall|i: int, j: int| 0 <= i < s.len() && 0 <= j < s.len() && i != j ==> s[i].0 != s[j].0
}

/// The map from each key to the value of its last pair.
pub open spec fn pairs_map<K, V>(s: Seq<(K, V)>) -> Map<K, V> {
    Map::new(|k: K| key_index(s, k) >= 0, |k: K| s[key_index(s, k)].1)
}

pub proof fn lemma_key_index<K, V>(s: Seq<(K, V)>, k: K)
    ensures
        -1 <= key_index(s, k) < s.len(),
        key_index(s, k) >= 0 ==> s[key_index(s, k)].0 == k,
        key_index(s, k) == -1 <==> forall|j: int| 0 <= j < s.len() ==> s[j].0 != k,
        keys_distinct(s) ==> forall|j: int| 0 <= j < s.len() && s[j].0 == k ==> key_index(s, k) == j,
    decreases s.len(),
{
    if s.len() > 0 {
        lemma_key_index(s.drop_last(), k);
        if s.last().0 != k {
            assert forall|j: int| 0 <= j < s.len() - 1 implies s.drop_last()[j] == s[j] by {}
            if keys_distinct(s) {
                assert(keys_distinct(s.drop_last()));
            }
        }
    }
}

/// Replacing the value of the pair at `i`, key unchanged, updates the map at
/// that key.
pub proof fn lemma_pairs_set<K, V>(s: Seq<(K, V)>, i: int, v: V)
    requires
        keys_distinct(s),
        0 <= i < s.len(),
    ensures
        keys_distinct(s.update(i, (s[i].0, v))),
        pairs_map(s.update(i, (s[i].0, v))) == pairs_map(s).insert(s[i].0, v),
{
    let k = s[i].0;
    let t = s.update(i, (k, v));
    assert(keys_distinct(t));
    assert forall|q: K| key_index(t, q) == #[trigger] key_index(s, q) by {
        lemma_same_keys(t, s, q);
    }
    lemma_key_index(s, k);
    assert forall|q: K| key_index(s, q) >= 0 implies #[trigger] t[key_index(t, q)].1 == (if q == k {
        v
    } else {
        s[key_index(s, q)].1
    }) by {
        lemma_key_index(s, q);
    }
    assert(pairs_map(t) =~= pairs_map(s).insert(k, v));
}

proof fn lemma_same_keys<K, V>(s1: Seq<(K, V)>, s2: Seq<(K, V)>, k: K)
    requires
        s1.len() == s2.len(),
        forall|j: int| 0 <= j < s1.len() ==> #[trigger] s1[j].0 == s2[j].0,
    ensures
        key_index(s1, k) == key_index(s2, k),
    decreases s1.len(),
{
    if s1.len() > 0 {
        lemma_same_keys(s1.drop_last(), s2.drop_last(), k);
    }
}

/// Appending a pair whose key is absent adds that key to the map.
pub proof fn lemma_pairs_push<K, V>(s: Seq<(K, V)>, k: K, v: V)
    requires
        keys_distinct(s),
        !pairs_map(s).contains_key(k),
    ensures
        keys_distinct(s.push((k, v))),
        pairs_map(s.push((k, v))) == pairs_map(s).insert(k, v),
{
    let t = s.push((k, v));
    lemma_key_index(s, k);
    assert(t.drop_last() =~= s);
    assert(keys_distinct(t));
    assert forall|q: K| #[trigger] key_index(t, q) == (if q == k {
        s.len() as int
    } else {
        key_index(s, q)
    }) by {}
    assert forall|q: K| key_index(s, q) >= 0 implies #[trigger] t[key_index(s, q)] == s[key_index(s, q)] by {
        lemma_key_index(s, q);
    }
    assert(pairs_map(t) =~= pairs_map(s).insert(k, v));
}

/// Removing the pair at `i` removes its key from the map.
pub proof fn lemma_pairs_remove<K, V>(s: Seq<(K, V)>, i: int)
    requires
        keys_distinct(s),
        0 <= i < s.len(),
    ensures
        keys_distinct(s.remove(i)),
        pairs_map(s.remove(i)) == pairs_map(s).remove(s[i].0),
{
    let t = s.remove(i);
    let k = s[i].0;
    assert(keys_distinct(t));
    assert forall|q: K| q != k && key_index(s, q) >= 0 implies #[trigger] key_index(t, q) >= 0 && t[key_index(t, q)]
        == s[key_index(s, q)] by {
        lemma_key_index(s, q);
        lemma_key_index(t, q);
        let j = key_index(s, q);
        if j < i {
            assert(s[j] == t[j]);
        } else {
            assert(s[j] == t[j - 1]);
        }
    }
    assert forall|q: K| #[trigger] key_index(t, q) >= 0 implies q != k && key_index(s, q) >= 0 by {
        lemma_key_index(s, q);
        lemma_key_index(t, q);
        let j = key_index(t, q);
        if j < i {
            assert(s[j] == t[j]);
        } else {
            assert(s[j + 1] == t[j]);
        }
    }
    assert(pairs_map(t) =~= pairs_map(s).remove(k));
}

/// With distinct keys, the map has as many keys as there are pairs.
pub proof fn lemma_pairs_len<K, V>(s: Seq<(K, V)>)
    requires
        keys_distinct(s),
    ensures
        pairs_map(s).len() == s.len(),
{
    let ks = s.map_values(|x: (K, V)| x.0);
    assert(ks.no_duplicates());
    assert forall|k: K| #[trigger] pairs_map(s).contains_key(k) <==> ks.to_set().contains(k) by {
        lemma_key_index(s, k);
        if ks.to_set().contains(k) {
            let j = choose|j: int| 0 <= j < ks.len() && ks[j] == k;
            assert(s[j].0 == k);
        }
        if pairs_map(s).contains_key(k) {
            assert(ks[key_index(s, k)] == k);
        }
    }
    assert(pairs_map(s).dom() =~= ks.to_set());
    ks.unique_seq_to_set();
}

} // verus!

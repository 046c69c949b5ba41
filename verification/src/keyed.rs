use vstd::prelude::*;

verus! {

/// The map that a list of (key, value) pairs records, a later pair for a key
/// replacing an earlier one.
pub open spec fn keyed_map<K: View, V>(entries: Seq<(K, V)>) -> Map<K::V, V>
    decreases entries.len(),
{
    if entries.len() == 0 {
        Map::empty()
    } else {
        keyed_map(entries.drop_last()).insert(entries.last().0@, entries.last().1)
    }
}

/// No key occurs twice in `entries`.
pub open spec fn keys_distinct<K: View, V>(entries: Seq<(K, V)>) -> bool {
    forall|i: int, j: int| 0 <= i < j < entries.len() ==> entries[i].0@ != entries[j].0@
}

/// The value recorded for `k` is that of its last pair; a key without pairs
/// is absent.
pub proof fn lemma_keyed_lookup<K: View, V>(entries: Seq<(K, V)>, k: K::V, j: int)
    requires
        -1 <= j < entries.len(),
        forall|i: int| j < i < entries.len() ==> (#[trigger] entries[i]).0@ != k,
    ensures
        j >= 0 && entries[j].0@ == k ==> keyed_map(entries).contains_key(k) && keyed_map(entries)[k]
            == entries[j].1,
        j == -1 ==> !keyed_map(entries).contains_key(k),
    decreases entries.len(),
{
    if entries.len() > 0 && j < entries.len() - 1 {
        lemma_keyed_lookup(entries.drop_last(), k, j);
    }
}

/// Replacing the pair of a key in a list with distinct keys records the new value.
pub proof fn lemma_keyed_update<K: View, V>(entries: Seq<(K, V)>, j: int, e: (K, V))
    requires
        0 <= j < entries.len(),
        keys_distinct(entries),
        entries[j].0@ == e.0@,
    ensures
        keyed_map(entries.update(j, e)) == keyed_map(entries).insert(e.0@, e.1),
        keys_distinct(entries.update(j, e)),
    decreases entries.len(),
{
    let u = entries.update(j, e);
    if j == entries.len() - 1 {
        assert(u.drop_last() =~= entries.drop_last());
        assert(keyed_map(entries).insert(e.0@, e.1) =~= keyed_map(entries.drop_last()).insert(e.0@, e.1));
    } else {
        lemma_keyed_update(entries.drop_last(), j, e);
        assert(u.drop_last() =~= entries.drop_last().update(j, e));
        assert(keyed_map(u) =~= keyed_map(entries).insert(e.0@, e.1));
    }
}

/// A key that the list records is the key of one of its pairs.
pub proof fn lemma_keyed_contains<K: View, V>(entries: Seq<(K, V)>, k: K::V)
    ensures
        keyed_map(entries).contains_key(k) ==> exists|i: int|
            0 <= i < entries.len() && (#[trigger] entries[i]).0@ == k,
    decreases entries.len(),
{
    if entries.len() > 0 {
        lemma_keyed_contains(entries.drop_last(), k);
        if keyed_map(entries).contains_key(k) && entries.last().0@ != k {
            let i = choose|i: int| 0 <= i < entries.drop_last().len() && (#[trigger] entries.drop_last()[i]).0@ == k;
            assert(entries[i] == entries.drop_last()[i]);
        } else if keyed_map(entries).contains_key(k) {
            assert(entries[entries.len() - 1].0@ == k);
        }
    }
}

} // verus!

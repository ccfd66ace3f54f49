//! A list of keys and a list of values, read as a map.

use vstd::prelude::*;

verus! {

/// The map that sends each key to the value at the key's position.
pub open spec fn assoc_map<K, V>(keys: Seq<K>, vals: Seq<V>) -> Map<K, V>
    decreases keys.len(),
{
    if keys.len() == 0 {
        Map::empty()
    } else {
        assoc_map(keys.drop_last(), vals.drop_last()).insert(keys.last(), vals.last())
    }
}

/// The map holds exactly the keys of the list.
pub proof fn lemma_assoc_dom<K, V>(keys: Seq<K>, vals: Seq<V>)
    requires
        keys.len() == vals.len(),
    ensures
        forall|k: K| #[trigger] assoc_map(keys, vals).dom().contains(k) <==> keys.contains(k),
    decreases keys.len(),
{
    if keys.len() > 0 {
        let front = keys.drop_last();
        lemma_assoc_dom(front, vals.drop_last());
        let rest = assoc_map(front, vals.drop_last());
        assert forall|k: K| #[trigger]
            assoc_map(keys, vals).dom().contains(k) <==> keys.contains(k) by {
            assert(assoc_map(keys, vals) == rest.insert(keys.last(), vals.last()));
            assert(rest.dom().contains(k) <==> front.contains(k));
            if front.contains(k) {
                let i: int = front.index_of(k);
                assert(keys[i] == k);
            }
            if keys.contains(k) {
                let i: int = keys.index_of(k);
                if i < keys.len() - 1 {
                    assert(front[i] == k);
                }
            }
            if k == keys.last() {
                assert(keys[keys.len() - 1] == k);
            }
        }
    }
}

/// Where no key occurs twice, a key is sent to the value at its position.
pub proof fn lemma_assoc_get<K, V>(keys: Seq<K>, vals: Seq<V>, i: int)
    requires
        keys.len() == vals.len(),
        keys.no_duplicates(),
        0 <= i < keys.len(),
    ensures
        assoc_map(keys, vals).dom().contains(keys[i]),
        assoc_map(keys, vals)[keys[i]] == vals[i],
    decreases keys.len(),
{
    if i < keys.len() - 1 {
        lemma_assoc_get(keys.drop_last(), vals.drop_last(), i);
    }
}

/// A pair added at the end is a pair inserted into the map.
pub proof fn lemma_assoc_push<K, V>(keys: Seq<K>, vals: Seq<V>, k: K, v: V)
    ensures
        assoc_map(keys.push(k), vals.push(v)) == assoc_map(keys, vals).insert(k, v),
{
    assert(keys.push(k).drop_last() =~= keys);
    assert(vals.push(v).drop_last() =~= vals);
}

/// Where no key occurs twice, a value replaced in the list is a value
/// replaced in the map.
pub proof fn lemma_assoc_update<K, V>(keys: Seq<K>, vals: Seq<V>, i: int, v: V)
    requires
        keys.len() == vals.len(),
        keys.no_duplicates(),
        0 <= i < keys.len(),
    ensures
        assoc_map(keys, vals.update(i, v)) == assoc_map(keys, vals).insert(keys[i], v),
    decreases keys.len(),
{
    let updated = vals.update(i, v);
    if i == keys.len() - 1 {
        assert(updated.drop_last() =~= vals.drop_last());
        assert(assoc_map(keys, updated) =~= assoc_map(keys, vals).insert(keys[i], v));
    } else {
        assert(updated.drop_last() =~= vals.drop_last().update(i, v));
        lemma_assoc_update(keys.drop_last(), vals.drop_last(), i, v);
        assert(assoc_map(keys, updated) =~= assoc_map(keys, vals).insert(keys[i], v));
    }
}

} // verus!

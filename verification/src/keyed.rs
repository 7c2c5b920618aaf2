use vstd::prelude::*;

verus! {

/// Whether a key stands in a list of keyed values.
pub open spec fn has_key<K, V>(list: Seq<(K, V)>, key: K) -> bool {
    exists|i: int| 0 <= i < list.len() && (#[trigger] list[i]).0 == key
}

/// Where a key stands in the list. Meant for a key that the list has.
pub open spec fn key_place<K, V>(list: Seq<(K, V)>, key: K) -> int {
    choose|i: int| 0 <= i < list.len() && (#[trigger] list[i]).0 == key
}

/// The value that stands with a key. Meant for a key that the list has.
pub open spec fn value_of<K, V>(list: Seq<(K, V)>, key: K) -> V {
    list[key_place(list, key)].1
}

/// No key stands twice in the list.
pub open spec fn distinct_keys<K, V>(list: Seq<(K, V)>) -> bool {
    forall|i: int, j: int|
        0 <= i < j < list.len() ==> (#[trigger] list[i]).0 != (#[trigger] list[j]).0
}

/// The list as a map from its keys to their values.
pub open spec fn as_map<K, V>(list: Seq<(K, V)>) -> Map<K, V> {
    Map::new(|key: K| has_key(list, key), |key: K| value_of(list, key))
}

/// In a list without repeated keys, the value of the key at place `i` is
/// the value at place `i`.
pub proof fn keyed_at<K, V>(list: Seq<(K, V)>, i: int)
    requires
        distinct_keys(list),
        0 <= i < list.len(),
    ensures
        has_key(list, list[i].0),
        key_place(list, list[i].0) == i,
        value_of(list, list[i].0) == list[i].1,
        as_map(list).dom().contains(list[i].0),
        as_map(list)[list[i].0] == list[i].1,
{
    let key = list[i].0;
    assert(has_key(list, key));
    let p = key_place(list, key);
    if p < i {
        assert(list[p].0 != list[i].0);
    } else if i < p {
        assert(list[i].0 != list[p].0);
    }
}

/// The empty list is the empty map.
pub proof fn keyed_empty<K, V>()
    ensures
        distinct_keys(Seq::<(K, V)>::empty()),
        as_map(Seq::<(K, V)>::empty()) == Map::<K, V>::empty(),
{
    assert(as_map(Seq::<(K, V)>::empty()) =~= Map::<K, V>::empty());
}

/// Adding a new key at the end adds it to the map.
pub proof fn keyed_push<K, V>(list: Seq<(K, V)>, key: K, value: V)
    requires
        distinct_keys(list),
        !has_key(list, key),
    ensures
        distinct_keys(list.push((key, value))),
        as_map(list.push((key, value))) == as_map(list).insert(key, value),
{
    let after = list.push((key, value));
    assert forall|i: int, j: int| 0 <= i < j < after.len() implies (#[trigger] after[i]).0 != (
    #[trigger] after[j]).0 by {
        if j < list.len() {
            assert(list[i].0 != list[j].0);
        } else {
            assert(list[i].0 != key);
        }
    }
    assert forall|k: K| as_map(after).dom().contains(k) <==> as_map(list).insert(
        key,
        value,
    ).dom().contains(k) by {
        if has_key(after, k) {
            let p = key_place(after, k);
            if p < list.len() {
                assert(list[p].0 == k);
            }
        }
        if has_key(list, k) {
            let p = key_place(list, k);
            assert(after[p].0 == k);
        }
        if k == key {
            assert(after[list.len() as int].0 == k);
        }
    }
    assert forall|k: K| as_map(after).dom().contains(k) implies #[trigger] as_map(after)[k]
        == as_map(list).insert(key, value)[k] by {
        if k == key {
            keyed_at(after, list.len() as int);
        } else {
            let p = key_place(after, k);
            assert(list[p].0 == k);
            keyed_at(list, p);
            keyed_at(after, p);
        }
    }
    assert(as_map(after) =~= as_map(list).insert(key, value));
}

/// Changing the value at a place changes the value of its key.
pub proof fn keyed_update<K, V>(list: Seq<(K, V)>, i: int, value: V)
    requires
        distinct_keys(list),
        0 <= i < list.len(),
    ensures
        distinct_keys(list.update(i, (list[i].0, value))),
        as_map(list.update(i, (list[i].0, value))) == as_map(list).insert(list[i].0, value),
{
    let key = list[i].0;
    let after = list.update(i, (key, value));
    assert forall|a: int, b: int| 0 <= a < b < after.len() implies (#[trigger] after[a]).0 != (
    #[trigger] after[b]).0 by {
        assert(list[a].0 != list[b].0);
    }
    assert forall|k: K| as_map(after).dom().contains(k) <==> as_map(list).insert(
        key,
        value,
    ).dom().contains(k) by {
        if has_key(after, k) {
            let p = key_place(after, k);
            assert(list[p].0 == k);
        }
        if has_key(list, k) {
            let p = key_place(list, k);
            assert(after[p].0 == k);
        }
        if k == key {
            assert(after[i].0 == k);
        }
    }
    assert forall|k: K| as_map(after).dom().contains(k) implies #[trigger] as_map(after)[k]
        == as_map(list).insert(key, value)[k] by {
        let p = key_place(after, k);
        keyed_at(after, p);
        if k != key {
            assert(list[p].0 == k);
            keyed_at(list, p);
        } else {
            keyed_at(after, i);
        }
    }
    assert(as_map(after) =~= as_map(list).insert(key, value));
}

/// Taking out the entry at a place takes its key out of the map.
pub proof fn keyed_remove<K, V>(list: Seq<(K, V)>, i: int)
    requires
        distinct_keys(list),
        0 <= i < list.len(),
    ensures
        distinct_keys(list.remove(i)),
        as_map(list.remove(i)) == as_map(list).remove(list[i].0),
{
    let key = list[i].0;
    let after = list.remove(i);
    assert forall|a: int, b: int| 0 <= a < b < after.len() implies (#[trigger] after[a]).0 != (
    #[trigger] after[b]).0 by {
        let first = if a < i {
            a
        } else {
            a + 1
        };
        let second = if b < i {
            b
        } else {
            b + 1
        };
        assert(list[first].0 != list[second].0);
    }
    assert forall|k: K| as_map(after).dom().contains(k) <==> as_map(list).remove(
        key,
    ).dom().contains(k) by {
        if has_key(after, k) {
            let p = key_place(after, k);
            let earlier = if p < i {
                p
            } else {
                p + 1
            };
            assert(list[earlier].0 == k);
            if earlier < i {
                assert(list[earlier].0 != list[i].0);
            } else {
                assert(list[i].0 != list[earlier].0);
            }
        }
        if has_key(list, k) && k != key {
            let p = key_place(list, k);
            let q = if p < i {
                p
            } else {
                p - 1
            };
            assert(after[q].0 == k);
        }
    }
    assert forall|k: K| as_map(after).dom().contains(k) implies #[trigger] as_map(after)[k]
        == as_map(list).remove(key)[k] by {
        let p = key_place(after, k);
        keyed_at(after, p);
        let earlier = if p < i {
            p
        } else {
            p + 1
        };
        assert(list[earlier] == after[p]);
        keyed_at(list, earlier);
    }
    assert(as_map(after) =~= as_map(list).remove(key));
}

} // verus!

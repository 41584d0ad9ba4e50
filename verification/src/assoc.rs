//! Association lists with distinct keys, and the maps that they stand for.

use vstd::prelude::*;

verus! {

/// Whether some entry of `entries` has the key `key`.
pub open spec fn has_key<K, V>(entries: Seq<(K, V)>, key: K) -> bool {
    exists|i: int| 0 <= i < entries.len() && (#[trigger] entries[i]).0 == key
}

/// The position of an entry of `entries` with the key `key`.
pub open spec fn position_of<K, V>(entries: Seq<(K, V)>, key: K) -> int {
    choose|i: int| 0 <= i < entries.len() && (#[trigger] entries[i]).0 == key
}

/// Whether no two entries of `entries` have the same key.
pub open spec fn distinct_keys<K, V>(entries: Seq<(K, V)>) -> bool {
    forall|i: int, j: int|
        0 <= i < j < entries.len() ==> (#[trigger] entries[i]).0 != (#[trigger] entries[j]).0
}

/// The map that `entries` stands for: each key with the value of an entry
/// that has it.
pub open spec fn entries_map<K, V>(entries: Seq<(K, V)>) -> Map<K, V> {
    Map::new(|k: K| has_key(entries, k), |k: K| entries[position_of(entries, k)].1)
}

/// With distinct keys, the entry at `i` is the one found under its key.
pub proof fn lemma_entry_at<K, V>(entries: Seq<(K, V)>, i: int)
    requires
        distinct_keys(entries),
        0 <= i < entries.len(),
    ensures
        has_key(entries, entries[i].0),
        position_of(entries, entries[i].0) == i,
        entries_map(entries).contains_key(entries[i].0),
        entries_map(entries)[entries[i].0] == entries[i].1,
{
    let j = position_of(entries, entries[i].0);
    assert(entries[j].0 == entries[i].0);
}

/// No entries stand for the empty map.
pub proof fn lemma_no_entries<K, V>()
    ensures
        distinct_keys(Seq::<(K, V)>::empty()),
        entries_map(Seq::<(K, V)>::empty()) == Map::<K, V>::empty(),
{
    assert(entries_map(Seq::<(K, V)>::empty()) =~= Map::<K, V>::empty());
}

/// An entry with a new key, put at the end, inserts into the map.
pub proof fn lemma_push_entry<K, V>(entries: Seq<(K, V)>, key: K, value: V)
    requires
        distinct_keys(entries),
        !has_key(entries, key),
    ensures
        distinct_keys(entries.push((key, value))),
        entries_map(entries.push((key, value))) == entries_map(entries).insert(key, value),
{
    let after = entries.push((key, value));
    assert forall|i: int, j: int| 0 <= i < j < after.len() implies (#[trigger] after[i]).0
        != (#[trigger] after[j]).0 by {
        if j == entries.len() {
            assert(entries[i].0 != key);
        } else {
            assert(entries[i].0 != entries[j].0);
        }
    }
    assert forall|k: K| has_key(after, k) <==> (k == key || has_key(entries, k)) by {
        if has_key(after, k) {
            let i = position_of(after, k);
            if i < entries.len() {
                assert(entries[i].0 == k);
            }
        }
        if has_key(entries, k) {
            let i = position_of(entries, k);
            assert(after[i].0 == k);
        }
        if k == key {
            assert(after[entries.len() as int].0 == k);
        }
    }
    assert forall|k: K| has_key(after, k) implies #[trigger] entries_map(after)[k] == entries_map(
        entries,
    ).insert(key, value)[k] by {
        let i = position_of(after, k);
        lemma_entry_at(after, i);
        if k != key {
            let j = position_of(entries, k);
            assert(after[j].0 == k);
            lemma_entry_at(after, j);
        }
    }
    assert(entries_map(after) =~= entries_map(entries).insert(key, value));
}

/// A new value for the entry at `i` inserts into the map under that key.
pub proof fn lemma_update_entry<K, V>(entries: Seq<(K, V)>, i: int, value: V)
    requires
        distinct_keys(entries),
        0 <= i < entries.len(),
    ensures
        distinct_keys(entries.update(i, (entries[i].0, value))),
        entries_map(entries.update(i, (entries[i].0, value))) == entries_map(entries).insert(
            entries[i].0,
            value,
        ),
{
    let key = entries[i].0;
    let after = entries.update(i, (key, value));
    assert forall|a: int, b: int| 0 <= a < b < after.len() implies (#[trigger] after[a]).0
        != (#[trigger] after[b]).0 by {
        assert(after[a].0 == entries[a].0);
        assert(after[b].0 == entries[b].0);
    }
    assert forall|k: K| has_key(after, k) <==> has_key(entries, k) by {
        if has_key(after, k) {
            let j = position_of(after, k);
            assert(entries[j].0 == k);
        }
        if has_key(entries, k) {
            let j = position_of(entries, k);
            assert(after[j].0 == k);
        }
    }
    assert(has_key(entries, key)) by {
        assert(entries[i].0 == key);
    }
    assert forall|k: K| has_key(after, k) implies #[trigger] entries_map(after)[k] == entries_map(
        entries,
    ).insert(key, value)[k] by {
        let j = position_of(after, k);
        lemma_entry_at(after, j);
        if k != key {
            let j0 = position_of(entries, k);
            assert(after[j0].0 == k);
            lemma_entry_at(after, j0);
        } else {
            lemma_entry_at(after, i);
        }
    }
    assert(entries_map(after) =~= entries_map(entries).insert(key, value));
}

} // verus!

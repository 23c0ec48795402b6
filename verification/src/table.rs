//! A list of records read as a map from each record's key to the record.
//!
//! The ledger keeps its records in lists in which no key occurs twice. This
//! module says which map such a list stands for, and how the map changes
//! when a record is appended or replaced.

use vstd::prelude::*;

verus! {

/// No two entries have the same key.
pub open spec fn keys_unique<K, V>(entries: Seq<(K, V)>) -> bool {
    forall|i: int, j: int|
        0 <= i < entries.len() && 0 <= j < entries.len() && (#[trigger] entries[i]).0 == (
        #[trigger] entries[j]).0 ==> i == j
}

/// Some entry has the key.
pub open spec fn has_key<K, V>(entries: Seq<(K, V)>, key: K) -> bool {
    exists|i: int| 0 <= i < entries.len() && (#[trigger] entries[i]).0 == key
}

/// The place of an entry with the key, where there is one.
pub open spec fn place_of<K, V>(entries: Seq<(K, V)>, key: K) -> int {
    choose|i: int| 0 <= i < entries.len() && (#[trigger] entries[i]).0 == key
}

/// The map that takes each key in the list to the value listed with it.
pub open spec fn table<K, V>(entries: Seq<(K, V)>) -> Map<K, V> {
    Map::new(|key: K| has_key(entries, key), |key: K| entries[place_of(entries, key)].1)
}

/// What is listed at a place is what the table holds under that key.
pub proof fn lemma_table_at<K, V>(entries: Seq<(K, V)>, i: int)
    requires
        keys_unique(entries),
        0 <= i < entries.len(),
    ensures
        table(entries).contains_key(entries[i].0),
        table(entries)[entries[i].0] == entries[i].1,
{
    let key = entries[i].0;
    assert(has_key(entries, key));
    assert(place_of(entries, key) == i);
}

/// A key that no entry has is not in the table.
pub proof fn lemma_table_without<K, V>(entries: Seq<(K, V)>, key: K)
    requires
        forall|i: int| 0 <= i < entries.len() ==> (#[trigger] entries[i]).0 != key,
    ensures
        !table(entries).contains_key(key),
{
}

/// Appending an entry under a new key inserts it into the table.
pub proof fn lemma_table_push<K, V>(entries: Seq<(K, V)>, key: K, value: V)
    requires
        keys_unique(entries),
        !has_key(entries, key),
    ensures
        keys_unique(entries.push((key, value))),
        table(entries.push((key, value))) == table(entries).insert(key, value),
{
    let longer = entries.push((key, value));
    assert forall|i: int, j: int|
        0 <= i < longer.len() && 0 <= j < longer.len() && (#[trigger] longer[i]).0 == (
        #[trigger] longer[j]).0 implies i == j by {
        if i < entries.len() {
            assert(longer[i] == entries[i]);
        }
        if j < entries.len() {
            assert(longer[j] == entries[j]);
        }
    }
    assert forall|k: K| #[trigger] table(longer).contains_key(k) <==> table(entries).insert(
        key,
        value,
    ).contains_key(k) by {
        if has_key(longer, k) {
            let i = place_of(longer, k);
            if i < entries.len() {
                assert(longer[i] == entries[i]);
            }
        }
        if has_key(entries, k) {
            let i = place_of(entries, k);
            assert(longer[i] == entries[i]);
        }
        if k == key {
            assert(longer[entries.len() as int].0 == key);
        }
    }
    assert forall|k: K| #[trigger] table(longer).contains_key(k) implies table(longer)[k]
        == table(entries).insert(key, value)[k] by {
        let i = place_of(longer, k);
        lemma_table_at(longer, i);
        if i < entries.len() {
            assert(longer[i] == entries[i]);
            lemma_table_at(entries, i);
        }
    }
    assert(table(longer) =~= table(entries).insert(key, value));
}

/// Replacing the value at a place, under the same key, replaces it in the
/// table.
pub proof fn lemma_table_update<K, V>(entries: Seq<(K, V)>, i: int, value: V)
    requires
        keys_unique(entries),
        0 <= i < entries.len(),
    ensures
        keys_unique(entries.update(i, (entries[i].0, value))),
        table(entries.update(i, (entries[i].0, value))) == table(entries).insert(
            entries[i].0,
            value,
        ),
{
    let key = entries[i].0;
    let changed = entries.update(i, (key, value));
    assert forall|a: int| 0 <= a < entries.len() implies (#[trigger] changed[a]).0
        == entries[a].0 by {}
    assert forall|a: int, b: int|
        0 <= a < changed.len() && 0 <= b < changed.len() && (#[trigger] changed[a]).0 == (
        #[trigger] changed[b]).0 implies a == b by {
        assert(entries[a].0 == entries[b].0);
    }
    assert forall|k: K| #[trigger] table(changed).contains_key(k) <==> table(entries).insert(
        key,
        value,
    ).contains_key(k) by {
        if has_key(changed, k) {
            let a = place_of(changed, k);
            assert(entries[a].0 == k);
        }
        if has_key(entries, k) {
            let a = place_of(entries, k);
            assert(changed[a].0 == k);
        }
        if k == key {
            assert(changed[i].0 == key);
        }
    }
    assert forall|k: K| #[trigger] table(changed).contains_key(k) implies table(changed)[k]
        == table(entries).insert(key, value)[k] by {
        let a = place_of(changed, k);
        lemma_table_at(changed, a);
        lemma_table_at(entries, a);
    }
    assert(table(changed) =~= table(entries).insert(key, value));
}

} // verus!

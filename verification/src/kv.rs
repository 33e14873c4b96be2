//! The registry persists its records in tagged key/value tables. Each table
//! is held as a vector of (key, value) pairs and is read, in contracts, as a
//! `Map` from key views to value views; a later pair for the same key takes
//! precedence over an earlier one, so overwriting a key is appending a pair.
//!
//! The lemmas here connect a scan of the vector, from the most recent pair
//! backwards, to that map reading.

use vstd::prelude::*;

verus! {

/// The map that a table of (key, value) pairs holds: each key view is bound
/// to the value view of the most recent pair carrying it.
pub open spec fn map_of<K: View, V: View>(entries: Seq<(K, V)>) -> Map<
    <K as View>::V,
    <V as View>::V,
>
    decreases entries.len(),
{
    if entries.len() == 0 {
        Map::empty()
    } else {
        map_of(entries.drop_last()).insert(entries.last().0@, entries.last().1@)
    }
}

/// No two pairs of the table carry the same key.
pub open spec fn unique_keys<K: View, V>(entries: Seq<(K, V)>) -> bool {
    forall|i: int, j: int|
        0 <= i < j < entries.len() ==> entries[i].0@ != entries[j].0@
}

/// Pairs that do not carry `k` do not affect what the table binds `k` to:
/// if no pair at an index at or above `i` carries `k`, the table binds `k`
/// exactly as its first `i` pairs do.
pub proof fn lemma_map_of_skip<K: View, V: View>(entries: Seq<(K, V)>, i: int, k: <K as View>::V)
    requires
        0 <= i <= entries.len(),
        forall|j: int| i <= j < entries.len() ==> entries[j].0@ != k,
    ensures
        map_of(entries).contains_key(k) == map_of(entries.take(i)).contains_key(k),
        map_of(entries).contains_key(k) ==> map_of(entries)[k] == map_of(entries.take(i))[k],
    decreases entries.len() - i,
{
    if i == entries.len() {
        assert(entries.take(i) =~= entries);
    } else {
        let prefix = entries.drop_last();
        assert(prefix =~= entries.take(entries.len() - 1));
        lemma_map_of_skip(prefix, i, k);
        assert(prefix.take(i) =~= entries.take(i));
    }
}

/// A pair that carries `k`, with no later pair carrying `k`, is what the
/// table binds `k` to.
pub proof fn lemma_map_of_found<K: View, V: View>(entries: Seq<(K, V)>, i: int, k: <K as View>::V)
    requires
        0 <= i < entries.len(),
        entries[i].0@ == k,
        forall|j: int| i < j < entries.len() ==> entries[j].0@ != k,
    ensures
        map_of(entries).contains_key(k),
        map_of(entries)[k] == entries[i].1@,
{
    lemma_map_of_skip(entries, i + 1, k);
    let upto = entries.take(i + 1);
    assert(upto.drop_last() =~= entries.take(i));
    assert(upto.last() == entries[i]);
}

/// A table with no pair at all binds nothing.
pub proof fn lemma_map_of_absent<K: View, V: View>(entries: Seq<(K, V)>, k: <K as View>::V)
    requires
        forall|j: int| 0 <= j < entries.len() ==> entries[j].0@ != k,
    ensures
        !map_of(entries).contains_key(k),
{
    lemma_map_of_skip(entries, 0, k);
    assert(entries.take(0) =~= Seq::<(K, V)>::empty());
}

/// Appending a pair binds its key to its value and leaves every other key
/// as it was.
pub proof fn lemma_map_of_push<K: View, V: View>(entries: Seq<(K, V)>, key: K, value: V)
    ensures
        map_of(entries.push((key, value))) == map_of(entries).insert(key@, value@),
{
    assert(entries.push((key, value)).drop_last() =~= entries);
}

/// In a table without duplicate keys, replacing the one pair that carries a
/// key rebinds that key and leaves every other key as it was.
pub proof fn lemma_map_of_update<K: View, V: View>(entries: Seq<(K, V)>, i: int, key: K, value: V)
    requires
        0 <= i < entries.len(),
        entries[i].0@ == key@,
        unique_keys(entries),
    ensures
        map_of(entries.update(i, (key, value))) == map_of(entries).insert(key@, value@),
    decreases entries.len(),
{
    let updated = entries.update(i, (key, value));
    if i == entries.len() - 1 {
        assert(updated.drop_last() =~= entries.drop_last());
        assert(updated.last() == (key, value));
        assert(map_of(updated) =~= map_of(entries).insert(key@, value@));
    } else {
        let prefix = entries.drop_last();
        assert(updated.drop_last() =~= prefix.update(i, (key, value)));
        assert(prefix[i] == entries[i]);
        assert(unique_keys(prefix)) by {
            assert(forall|a: int, b: int|
                0 <= a < b < prefix.len() ==> prefix[a] == entries[a] && prefix[b] == entries[b]);
        }
        lemma_map_of_update(prefix, i, key, value);
        // The last pair keeps its place, and its key is not `key@`.
        assert(entries[entries.len() - 1].0@ != key@);
        assert(updated.last() == entries.last());
        assert(map_of(updated) =~= map_of(entries).insert(key@, value@));
    }
}

} // verus!

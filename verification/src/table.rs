//! A list of key-value pairs read as a map.

use vstd::prelude::*;

verus! {

/// Whether some entry has the key.
pub open spec fn holds<K, V>(entries: Seq<(K, V)>, key: K) -> bool {
    exists|i: int| 0 <= i < entries.len() && (#[trigger] entries[i]).0 == key
}

/// Where the entry with the key is.
pub open spec fn place<K, V>(entries: Seq<(K, V)>, key: K) -> int {
    choose|i: int| 0 <= i < entries.len() && (#[trigger] entries[i]).0 == key
}

/// No two entries share a key.
pub open spec fn distinct<K, V>(entries: Seq<(K, V)>) -> bool {
    forall|i: int, j: int|
        0 <= i < j < entries.len() ==> (#[trigger] entries[i]).0 != (#[trigger] entries[j]).0
}

/// The map that the entries stand for.
pub open spec fn table<K, V>(entries: Seq<(K, V)>) -> Map<K, V> {
    Map::new(|k: K| holds(entries, k), |k: K| entries[place(entries, k)].1)
}

/// What an entry says is what the map says of its key.
pub proof fn lemma_table_at<K, V>(entries: Seq<(K, V)>, i: int)
    requires
        distinct(entries),
        0 <= i < entries.len(),
    ensures
        table(entries).dom().contains(entries[i].0),
        table(entries)[entries[i].0] == entries[i].1,
{
    let k = entries[i].0;
    assert(holds(entries, k));
    assert(place(entries, k) == i);
}

/// Replacing the value of an entry replaces it in the map.
pub proof fn lemma_table_update<K, V>(entries: Seq<(K, V)>, i: int, v: V)
    requires
        distinct(entries),
        0 <= i < entries.len(),
    ensures
        distinct(entries.update(i, (entries[i].0, v))),
        table(entries.update(i, (entries[i].0, v))) == table(entries).insert(entries[i].0, v),
{
    let k = entries[i].0;
    let after = entries.update(i, (k, v));
    assert forall|a: int, b: int| 0 <= a < b < after.len() implies (#[trigger] after[a]).0 != (
    #[trigger] after[b]).0 by {
        assert(entries[a].0 != entries[b].0);
    }
    assert forall|x: K| #[trigger] holds(after, x) == (holds(entries, x) || x == k) by {
        if holds(entries, x) {
            let j = place(entries, x);
            assert(after[j].0 == x);
        }
        if holds(after, x) {
            let j = place(after, x);
            assert(entries[j].0 == x);
        }
        assert(after[i].0 == k);
    }
    assert forall|x: K| holds(after, x) implies #[trigger] table(after)[x] == table(entries).insert(
        k,
        v,
    )[x] by {
        let j = place(after, x);
        assert(after[j].0 == x);
        assert(entries[j].0 == x);
        lemma_table_at(entries, j);
    }
    assert(table(after) =~= table(entries).insert(k, v));
}

/// Entries with the same keys and other values stand for a map with the same keys.
pub proof fn lemma_table_same_keys<K, V>(before: Seq<(K, V)>, after: Seq<(K, V)>)
    requires
        distinct(before),
        before.len() == after.len(),
        forall|i: int| 0 <= i < before.len() ==> (#[trigger] before[i]).0 == after[i].0,
    ensures
        distinct(after),
        table(after).dom() == table(before).dom(),
{
    assert forall|a: int, b: int| 0 <= a < b < after.len() implies (#[trigger] after[a]).0 != (
    #[trigger] after[b]).0 by {
        assert(before[a].0 != before[b].0);
    }
    assert forall|x: K| #[trigger] holds(after, x) == holds(before, x) by {
        if holds(before, x) {
            let j = place(before, x);
            assert(before[j].0 == x && after[j].0 == x);
        }
        if holds(after, x) {
            let j = place(after, x);
            assert(before[j].0 == x);
        }
    }
    assert(table(after).dom() =~= table(before).dom());
}

/// An entry with a new key adds it to the map.
pub proof fn lemma_table_push<K, V>(entries: Seq<(K, V)>, k: K, v: V)
    requires
        distinct(entries),
        !holds(entries, k),
    ensures
        distinct(entries.push((k, v))),
        table(entries.push((k, v))) == table(entries).insert(k, v),
{
    let after = entries.push((k, v));
    assert forall|a: int, b: int| 0 <= a < b < after.len() implies (#[trigger] after[a]).0 != (
    #[trigger] after[b]).0 by {
        if b < entries.len() {
            assert(entries[a].0 != entries[b].0);
        } else {
            assert(entries[a].0 != k);
        }
    }
    assert forall|x: K| #[trigger] holds(after, x) == (holds(entries, x) || x == k) by {
        if holds(entries, x) {
            let j = place(entries, x);
            assert(after[j].0 == x);
        }
        if holds(after, x) && x != k {
            let j = place(after, x);
            assert(entries[j].0 == x);
        }
        assert(after[entries.len() as int].0 == k);
    }
    assert forall|x: K| holds(after, x) implies #[trigger] table(after)[x] == table(entries).insert(
        k,
        v,
    )[x] by {
        let j = place(after, x);
        assert(after[j].0 == x);
        if x != k {
            assert(entries[j].0 == x);
            lemma_table_at(entries, j);
        } else {
            assert(j == entries.len());
        }
    }
    assert(table(after) =~= table(entries).insert(k, v));
}

} // verus!

//! A table of keyed records held as a sequence of `(key, value)` entries.
//!
//! The stores of this crate keep their records in a `Vec`; the map that such a
//! sequence denotes is [`table`]: each key goes to the value of its last entry.
//! When keys are unique (the stores' invariant) every entry is the one for its key.
use vstd::prelude::*;

verus! {

/// The map denoted by a sequence of entries: each key to the value of its last entry.
pub open spec fn table<K, V>(s: Seq<(K, V)>) -> Map<K, V>
    decreases s.len(),
{
    if s.len() == 0 {
        Map::empty()
    } else {
        table(s.drop_last()).insert(s.last().0, s.last().1)
    }
}

/// No two entries share a key.
pub open spec fn keys_unique<K, V>(s: Seq<(K, V)>) -> bool {
    forall|i: int, j: int|
        0 <= i < s.len() && 0 <= j < s.len() && i != j ==> s[i].0 != s[j].0
}

/// A key is in the table exactly when some entry carries it.
pub proof fn lemma_table_dom<K, V>(s: Seq<(K, V)>, k: K)
    ensures
        table(s).contains_key(k) <==> exists|i: int| 0 <= i < s.len() && s[i].0 == k,
    decreases s.len(),
{
    if s.len() > 0 {
        let d = s.drop_last();
        lemma_table_dom(d, k);
        if table(d).contains_key(k) {
            let i = choose|i: int| 0 <= i < d.len() && d[i].0 == k;
            assert(s[i].0 == k);
        }
        if exists|i: int| 0 <= i < s.len() && s[i].0 == k {
            let i = choose|i: int| 0 <= i < s.len() && s[i].0 == k;
            if i < s.len() - 1 {
                assert(d[i].0 == k);
            }
        }
    }
}

/// The table of a finite sequence has a finite domain, no larger than the sequence.
pub proof fn lemma_table_finite<K, V>(s: Seq<(K, V)>)
    ensures
        table(s).dom().finite(),
    decreases s.len(),
{
    if s.len() > 0 {
        lemma_table_finite(s.drop_last());
    }
}

/// With unique keys, each entry is the table's value for its key.
pub proof fn lemma_table_index<K, V>(s: Seq<(K, V)>, i: int)
    requires
        keys_unique(s),
        0 <= i < s.len(),
    ensures
        table(s).contains_key(s[i].0),
        table(s)[s[i].0] == s[i].1,
    decreases s.len(),
{
    if i < s.len() - 1 {
        let d = s.drop_last();
        assert(keys_unique(d));
        assert(d[i] == s[i]);
        lemma_table_index(d, i);
        assert(s.last().0 != s[i].0);
    }
}

/// Appending an entry inserts it into the table.
pub proof fn lemma_table_push<K, V>(s: Seq<(K, V)>, e: (K, V))
    ensures
        table(s.push(e)) == table(s).insert(e.0, e.1),
{
    assert(s.push(e).drop_last() =~= s);
}

/// Appending an entry with a new key keeps the keys unique.
pub proof fn lemma_unique_push<K, V>(s: Seq<(K, V)>, e: (K, V))
    requires
        keys_unique(s),
        !table(s).contains_key(e.0),
    ensures
        keys_unique(s.push(e)),
{
    lemma_table_dom(s, e.0);
    assert forall|i: int, j: int|
        0 <= i < s.push(e).len() && 0 <= j < s.push(e).len() && i != j implies s.push(e)[i].0
        != s.push(e)[j].0 by {
        if i < s.len() && j < s.len() {
            assert(s.push(e)[i] == s[i]);
            assert(s.push(e)[j] == s[j]);
        } else if i < s.len() {
            assert(s.push(e)[i] == s[i]);
        } else {
            assert(s.push(e)[j] == s[j]);
        }
    }
}

/// With unique keys, replacing an entry by one with the same key inserts it into the table.
pub proof fn lemma_table_update<K, V>(s: Seq<(K, V)>, i: int, e: (K, V))
    requires
        keys_unique(s),
        0 <= i < s.len(),
        e.0 == s[i].0,
    ensures
        keys_unique(s.update(i, e)),
        table(s.update(i, e)) == table(s).insert(e.0, e.1),
    decreases s.len(),
{
    let t = s.update(i, e);
    assert forall|a: int, b: int| 0 <= a < t.len() && 0 <= b < t.len() && a != b implies t[a].0
        != t[b].0 by {
        assert(s[a].0 == t[a].0);
        assert(s[b].0 == t[b].0);
    }
    let d = s.drop_last();
    assert(keys_unique(d));
    if i == s.len() - 1 {
        assert(t.drop_last() =~= d);
        lemma_table_dom(d, e.0);
        assert(table(t) =~= table(s).insert(e.0, e.1));
    } else {
        assert(t.drop_last() =~= d.update(i, e));
        assert(d[i] == s[i]);
        lemma_table_update(d, i, e);
        assert(s.last().0 != s[i].0);
        assert(t.last() == s.last());
        assert(table(t) =~= table(s).insert(e.0, e.1));
    }
}

/// With unique keys, removing an entry removes its key from the table.
pub proof fn lemma_table_remove<K, V>(s: Seq<(K, V)>, i: int)
    requires
        keys_unique(s),
        0 <= i < s.len(),
    ensures
        keys_unique(s.remove(i)),
        table(s.remove(i)) == table(s).remove(s[i].0),
    decreases s.len(),
{
    let t = s.remove(i);
    assert forall|a: int, b: int| 0 <= a < t.len() && 0 <= b < t.len() && a != b implies t[a].0
        != t[b].0 by {
        let a2 = if a < i { a } else { a + 1 };
        let b2 = if b < i { b } else { b + 1 };
        assert(t[a] == s[a2]);
        assert(t[b] == s[b2]);
    }
    let d = s.drop_last();
    assert(keys_unique(d));
    let k = s[i].0;
    if i == s.len() - 1 {
        assert(t =~= d);
        lemma_table_dom(d, k);
        assert(table(t) =~= table(s).remove(k));
    } else {
        assert(t.drop_last() =~= d.remove(i));
        assert(t.last() == s.last());
        assert(d[i] == s[i]);
        lemma_table_remove(d, i);
        assert(s.last().0 != k);
        assert(table(t) =~= table(s).remove(k));
    }
}

} // verus!

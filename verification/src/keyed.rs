//! Sequences of records used as finite maps, each record filed under a key.
//! A later record shadows an earlier one with the same key; the collections
//! of this crate keep keys distinct, so no record is ever shadowed.

use vstd::prelude::*;

verus! {

/// The map that files each record of `s` under `key(record)`.
pub open spec fn seq_to_map<T, K>(s: Seq<T>, key: spec_fn(T) -> K) -> Map<K, T>
    decreases s.len(),
{
    if s.len() == 0 {
        Map::empty()
    } else {
        seq_to_map(s.drop_last(), key).insert(key(s.last()), s.last())
    }
}

/// No two records of `s` share a key.
pub open spec fn keys_distinct<T, K>(s: Seq<T>, key: spec_fn(T) -> K) -> bool {
    forall|i: int, j: int| 0 <= i < s.len() && 0 <= j < s.len() && i != j ==> key(s[i]) != key(s[j])
}

/// Some record of `s` has key `k`.
pub open spec fn has_key<T, K>(s: Seq<T>, key: spec_fn(T) -> K, k: K) -> bool {
    exists|i: int| 0 <= i < s.len() && key(s[i]) == k
}

/// The domain of the map is the set of keys in `s`; with distinct keys each
/// record is the one filed under its key; the map is finite.
pub proof fn lemma_seq_to_map<T, K>(s: Seq<T>, key: spec_fn(T) -> K)
    ensures
        forall|k: K| #[trigger] seq_to_map(s, key).dom().contains(k) <==> has_key(s, key, k),
        keys_distinct(s, key) ==> forall|i: int|
            0 <= i < s.len() ==> #[trigger] seq_to_map(s, key)[key(s[i])] == s[i],
        seq_to_map(s, key).dom().finite(),
    decreases s.len(),
{
    if s.len() > 0 {
        let t = s.drop_last();
        lemma_seq_to_map(t, key);
        assert forall|k: K| #[trigger] seq_to_map(s, key).dom().contains(k) <==> has_key(s, key, k) by {
            if has_key(s, key, k) && k != key(s.last()) {
                let i = choose|i: int| 0 <= i < s.len() && key(s[i]) == k;
                assert(0 <= i < t.len() && key(t[i]) == k);
            }
            if has_key(t, key, k) {
                let i = choose|i: int| 0 <= i < t.len() && key(t[i]) == k;
                assert(key(s[i]) == k);
            }
        }
        if keys_distinct(s, key) {
            assert(keys_distinct(t, key));
            assert forall|i: int| 0 <= i < s.len() implies #[trigger] seq_to_map(s, key)[key(s[i])] == s[i] by {
                if i < t.len() {
                    assert(t[i] == s[i]);
                    assert(key(s[i]) != key(s.last()));
                }
            }
        }
    }
}

/// The map has as many entries as `s` has records, when keys are distinct.
pub proof fn lemma_seq_to_map_len<T, K>(s: Seq<T>, key: spec_fn(T) -> K)
    requires
        keys_distinct(s, key),
    ensures
        seq_to_map(s, key).dom().len() == s.len(),
    decreases s.len(),
{
    if s.len() > 0 {
        let t = s.drop_last();
        assert(keys_distinct(t, key));
        lemma_seq_to_map_len(t, key);
        lemma_seq_to_map(t, key);
        if has_key(t, key, key(s.last())) {
            let i = choose|i: int| 0 <= i < t.len() && key(t[i]) == key(s.last());
            assert(key(s[i]) == key(s[s.len() - 1]));
        }
    }
}

/// Appending a record files it under its key.
pub proof fn lemma_seq_to_map_push<T, K>(s: Seq<T>, key: spec_fn(T) -> K, x: T)
    ensures
        seq_to_map(s.push(x), key) == seq_to_map(s, key).insert(key(x), x),
        !has_key(s, key, key(x)) && keys_distinct(s, key) ==> keys_distinct(s.push(x), key),
{
    assert(s.push(x).drop_last() =~= s);
    if !has_key(s, key, key(x)) && keys_distinct(s, key) {
        assert forall|i: int, j: int|
            0 <= i < s.push(x).len() && 0 <= j < s.push(x).len() && i != j
            implies key(s.push(x)[i]) != key(s.push(x)[j]) by {
            if i == s.len() {
                assert(key(s[j]) != key(x));
            } else if j == s.len() {
                assert(key(s[i]) != key(x));
            } else {
                assert(s.push(x)[i] == s[i] && s.push(x)[j] == s[j]);
            }
        }
    }
}

/// Replacing a record by one with the same key replaces its map entry.
pub proof fn lemma_seq_to_map_update<T, K>(s: Seq<T>, key: spec_fn(T) -> K, i: int, y: T)
    requires
        keys_distinct(s, key),
        0 <= i < s.len(),
        key(y) == key(s[i]),
    ensures
        seq_to_map(s.update(i, y), key) == seq_to_map(s, key).insert(key(y), y),
        keys_distinct(s.update(i, y), key),
    decreases s.len(),
{
    let u = s.update(i, y);
    assert(keys_distinct(u, key)) by {
        assert forall|a: int, b: int| 0 <= a < u.len() && 0 <= b < u.len() && a != b
            implies key(u[a]) != key(u[b]) by {
            assert(key(u[a]) == key(s[a]));
            assert(key(u[b]) == key(s[b]));
        }
    }
    let t = s.drop_last();
    if i == s.len() - 1 {
        assert(u.drop_last() =~= t);
        assert(seq_to_map(u, key) =~= seq_to_map(s, key).insert(key(y), y));
    } else {
        assert(keys_distinct(t, key));
        lemma_seq_to_map_update(t, key, i, y);
        assert(u.drop_last() =~= t.update(i, y));
        assert(key(s.last()) != key(y)) by {
            assert(key(s[s.len() - 1]) != key(s[i]));
        }
        assert(seq_to_map(u, key) =~= seq_to_map(s, key).insert(key(y), y));
    }
}

/// Removing a record removes its key from the map.
pub proof fn lemma_seq_to_map_remove<T, K>(s: Seq<T>, key: spec_fn(T) -> K, i: int)
    requires
        keys_distinct(s, key),
        0 <= i < s.len(),
    ensures
        seq_to_map(s.remove(i), key) == seq_to_map(s, key).remove(key(s[i])),
        keys_distinct(s.remove(i), key),
    decreases s.len(),
{
    let r = s.remove(i);
    assert(keys_distinct(r, key)) by {
        assert forall|a: int, b: int| 0 <= a < r.len() && 0 <= b < r.len() && a != b
            implies key(r[a]) != key(r[b]) by {
            let a2 = if a < i { a } else { a + 1 };
            let b2 = if b < i { b } else { b + 1 };
            assert(r[a] == s[a2] && r[b] == s[b2]);
        }
    }
    let t = s.drop_last();
    lemma_seq_to_map(t, key);
    if i == s.len() - 1 {
        assert(r =~= t);
        assert(!has_key(t, key, key(s[i]))) by {
            if has_key(t, key, key(s[i])) {
                let j = choose|j: int| 0 <= j < t.len() && key(t[j]) == key(s[i]);
                assert(key(s[j]) == key(s[i]));
            }
        }
        assert(seq_to_map(r, key) =~= seq_to_map(s, key).remove(key(s[i])));
    } else {
        assert(keys_distinct(t, key));
        lemma_seq_to_map_remove(t, key, i);
        assert(r.drop_last() =~= t.remove(i));
        assert(r.last() == s.last());
        assert(key(s.last()) != key(s[i])) by {
            assert(key(s[s.len() - 1]) != key(s[i]));
        }
        assert(seq_to_map(r, key) =~= seq_to_map(s, key).remove(key(s[i])));
    }
}

} // verus!

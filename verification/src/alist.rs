//! Association lists with distinct keys, the finite maps they denote, and the
//! sequence utilities the registry state is built from.
//!
//! Every persistent table of the registry is a vector of `(key, value)` pairs
//! whose keys are pairwise distinct; its mathematical meaning is the `Map`
//! produced by [`map_view`], or by [`seq_map_view`] for the table whose
//! values are vectors of identifiers. The lemmas here relate the executable
//! operations (lookup, upsert, removal) to `Map::insert` and `Map::remove`.

use vstd::prelude::*;

verus! {

/// The keys of the entry sequence are pairwise distinct.
pub open spec fn keys_distinct<K, V>(s: Seq<(K, V)>) -> bool {
    forall|i: int, j: int|
        0 <= i < j < s.len() ==> (#[trigger] s[i]).0 != (#[trigger] s[j]).0
}

/// Some entry of the sequence carries `key`.
pub open spec fn has_key<K, V>(s: Seq<(K, V)>, key: K) -> bool {
    exists|i: int| 0 <= i < s.len() && (#[trigger] s[i]).0 == key
}

/// The elements of the sequence are pairwise distinct.
pub open spec fn distinct_seq<T>(s: Seq<T>) -> bool {
    forall|i: int, j: int| 0 <= i < j < s.len() ==> s[i] != s[j]
}

/// The finite map denoted by an entry sequence. When a key occurs twice the
/// later entry wins; the registry keeps keys distinct, so the case does not
/// arise.
pub open spec fn map_view<K, V>(s: Seq<(K, V)>) -> Map<K, V>
    decreases s.len(),
{
    if s.len() == 0 {
        Map::empty()
    } else {
        map_view(s.drop_last()).insert(s.last().0, s.last().1)
    }
}

/// The finite map denoted by an entry sequence whose values are vectors,
/// each value taken as the sequence it holds.
pub open spec fn seq_map_view<K>(s: Seq<(K, Vec<u64>)>) -> Map<K, Seq<u64>>
    decreases s.len(),
{
    if s.len() == 0 {
        Map::empty()
    } else {
        seq_map_view(s.drop_last()).insert(s.last().0, s.last().1@)
    }
}

/// The sequence with every occurrence of `x` removed, order preserved.
pub open spec fn seq_without(s: Seq<u64>, x: u64) -> Seq<u64>
    decreases s.len(),
{
    if s.len() == 0 {
        Seq::empty()
    } else if s.last() == x {
        seq_without(s.drop_last(), x)
    } else {
        seq_without(s.drop_last(), x).push(s.last())
    }
}

/// A pushed sequence contains exactly the old elements and the new one.
pub proof fn lemma_contains_push<T>(s: Seq<T>, x: T, y: T)
    ensures
        s.push(x).contains(y) <==> (s.contains(y) || x == y),
{
    if s.contains(y) {
        let i = choose|i: int| 0 <= i < s.len() && s[i] == y;
        assert(s.push(x)[i] == y);
    }
    if x == y {
        assert(s.push(x)[s.len() as int] == y);
    }
    if s.push(x).contains(y) {
        let i = choose|i: int| 0 <= i < s.push(x).len() && s.push(x)[i] == y;
        if i < s.len() {
            assert(s[i] == y);
        }
    }
}

/// A map view contains a key exactly when some entry carries it.
pub proof fn lemma_map_view_contains<K, V>(s: Seq<(K, V)>, key: K)
    ensures
        map_view(s).contains_key(key) <==> has_key(s, key),
    decreases s.len(),
{
    if s.len() > 0 {
        let t = s.drop_last();
        lemma_map_view_contains(t, key);
        if s.last().0 == key {
            assert(s[s.len() - 1].0 == key);
        } else {
            if has_key(t, key) {
                let i = choose|i: int| 0 <= i < t.len() && (#[trigger] t[i]).0 == key;
                assert(s[i].0 == key);
            }
            if has_key(s, key) {
                let i = choose|i: int| 0 <= i < s.len() && (#[trigger] s[i]).0 == key;
                assert(i < s.len() - 1);
                assert(t[i].0 == key);
            }
        }
    }
}

/// As [`lemma_map_view_contains`], for [`seq_map_view`].
pub proof fn lemma_seq_map_view_contains<K>(s: Seq<(K, Vec<u64>)>, key: K)
    ensures
        seq_map_view(s).contains_key(key) <==> has_key(s, key),
    decreases s.len(),
{
    if s.len() > 0 {
        let t = s.drop_last();
        lemma_seq_map_view_contains(t, key);
        if s.last().0 == key {
            assert(s[s.len() - 1].0 == key);
        } else {
            if has_key(t, key) {
                let i = choose|i: int| 0 <= i < t.len() && (#[trigger] t[i]).0 == key;
                assert(s[i].0 == key);
            }
            if has_key(s, key) {
                let i = choose|i: int| 0 <= i < s.len() && (#[trigger] s[i]).0 == key;
                assert(i < s.len() - 1);
                assert(t[i].0 == key);
            }
        }
    }
}

/// With distinct keys, the map view sends each entry's key to its value.
pub proof fn lemma_map_view_index<K, V>(s: Seq<(K, V)>, i: int)
    requires
        keys_distinct(s),
        0 <= i < s.len(),
    ensures
        map_view(s).contains_key(s[i].0),
        map_view(s)[s[i].0] == s[i].1,
    decreases s.len(),
{
    if i == s.len() - 1 {
    } else {
        let t = s.drop_last();
        assert(keys_distinct(t)) by {
            assert(forall|a: int| 0 <= a < t.len() ==> (#[trigger] t[a]) == s[a]);
        }
        assert(t[i] == s[i]);
        lemma_map_view_index(t, i);
        assert(s[i].0 != s[s.len() - 1].0);
    }
}

/// As [`lemma_map_view_index`], for [`seq_map_view`].
pub proof fn lemma_seq_map_view_index<K>(s: Seq<(K, Vec<u64>)>, i: int)
    requires
        keys_distinct(s),
        0 <= i < s.len(),
    ensures
        seq_map_view(s).contains_key(s[i].0),
        seq_map_view(s)[s[i].0] == s[i].1@,
    decreases s.len(),
{
    if i == s.len() - 1 {
    } else {
        let t = s.drop_last();
        assert(keys_distinct(t)) by {
            assert(forall|a: int| 0 <= a < t.len() ==> (#[trigger] t[a]) == s[a]);
        }
        assert(t[i] == s[i]);
        lemma_seq_map_view_index(t, i);
        assert(s[i].0 != s[s.len() - 1].0);
    }
}

/// The domain of a map view is finite and no larger than the sequence.
pub proof fn lemma_map_view_finite<K, V>(s: Seq<(K, V)>)
    ensures
        map_view(s).dom().finite(),
        map_view(s).dom().len() <= s.len(),
    decreases s.len(),
{
    if s.len() > 0 {
        lemma_map_view_finite(s.drop_last());
    }
}

/// With distinct keys, the map view has exactly one key per entry.
pub proof fn lemma_map_view_len_distinct<K, V>(s: Seq<(K, V)>)
    requires
        keys_distinct(s),
    ensures
        map_view(s).dom().finite(),
        map_view(s).dom().len() == s.len(),
    decreases s.len(),
{
    if s.len() > 0 {
        let t = s.drop_last();
        assert(forall|a: int| 0 <= a < t.len() ==> (#[trigger] t[a]) == s[a]);
        assert(keys_distinct(t));
        lemma_map_view_len_distinct(t);
        lemma_map_view_contains(t, s.last().0);
        assert(!has_key(t, s.last().0)) by {
            if has_key(t, s.last().0) {
                let a = choose|a: int| 0 <= a < t.len() && (#[trigger] t[a]).0 == s.last().0;
                assert(s[a].0 == s[s.len() - 1].0);
            }
        }
    }
}

/// Pushing an entry inserts its pair into the map view.
pub proof fn lemma_map_view_push<K, V>(s: Seq<(K, V)>, key: K, value: V)
    ensures
        map_view(s.push((key, value))) == map_view(s).insert(key, value),
{
    assert(s.push((key, value)).drop_last() =~= s);
    assert(s.push((key, value)).last() == (key, value));
}

/// As [`lemma_map_view_push`], for [`seq_map_view`].
pub proof fn lemma_seq_map_view_push<K>(s: Seq<(K, Vec<u64>)>, key: K, value: Vec<u64>)
    ensures
        seq_map_view(s.push((key, value))) == seq_map_view(s).insert(key, value@),
{
    assert(s.push((key, value)).drop_last() =~= s);
    assert(s.push((key, value)).last() == (key, value));
}

/// Pushing a fresh key keeps the keys distinct.
pub proof fn lemma_keys_distinct_push<K, V>(s: Seq<(K, V)>, key: K, value: V)
    requires
        keys_distinct(s),
        !has_key(s, key),
    ensures
        keys_distinct(s.push((key, value))),
{
    let p = s.push((key, value));
    assert forall|i: int, j: int|
        0 <= i < j < p.len() implies (#[trigger] p[i]).0 != (#[trigger] p[j]).0 by {
        if j == s.len() {
            assert(p[i] == s[i]);
            if s[i].0 == key {
                assert(has_key(s, key));
            }
        } else {
            assert(p[i] == s[i]);
            assert(p[j] == s[j]);
        }
    }
}

/// Removing an entry keeps the keys distinct.
pub proof fn lemma_keys_distinct_remove<K, V>(s: Seq<(K, V)>, i: int)
    requires
        keys_distinct(s),
        0 <= i < s.len(),
    ensures
        keys_distinct(s.remove(i)),
{
    let r = s.remove(i);
    assert forall|a: int, b: int|
        0 <= a < b < r.len() implies (#[trigger] r[a]).0 != (#[trigger] r[b]).0 by {
        let a0: int = if a < i { a } else { a + 1 };
        let b0: int = if b < i { b } else { b + 1 };
        assert(r[a] == s[a0]);
        assert(r[b] == s[b0]);
    }
}

/// With distinct keys, removing the entry that carries a key leaves no entry
/// carrying it.
pub proof fn lemma_remove_key_gone<K, V>(s: Seq<(K, V)>, i: int)
    requires
        keys_distinct(s),
        0 <= i < s.len(),
    ensures
        !has_key(s.remove(i), s[i].0),
{
    let r = s.remove(i);
    if has_key(r, s[i].0) {
        let a = choose|a: int| 0 <= a < r.len() && (#[trigger] r[a]).0 == s[i].0;
        let a0: int = if a < i { a } else { a + 1 };
        assert(r[a] == s[a0]);
    }
}

/// With distinct keys, removing an entry removes its key from the map view.
pub proof fn lemma_map_view_remove<K, V>(s: Seq<(K, V)>, i: int)
    requires
        keys_distinct(s),
        0 <= i < s.len(),
    ensures
        map_view(s.remove(i)) == map_view(s).remove(s[i].0),
    decreases s.len(),
{
    let k = s[i].0;
    let t = s.drop_last();
    assert(forall|a: int| 0 <= a < t.len() ==> (#[trigger] t[a]) == s[a]);
    assert(keys_distinct(t));
    if i == s.len() - 1 {
        assert(s.remove(i) =~= t);
        lemma_map_view_contains(t, k);
        assert(!has_key(t, k)) by {
            if has_key(t, k) {
                let a = choose|a: int| 0 <= a < t.len() && (#[trigger] t[a]).0 == k;
                assert(s[a].0 == s[i].0);
            }
        }
        assert(map_view(s).remove(k) =~= map_view(t));
    } else {
        lemma_map_view_remove(t, i);
        assert(s.remove(i) =~= t.remove(i).push(s.last()));
        lemma_map_view_push(t.remove(i), s.last().0, s.last().1);
        assert(k != s.last().0);
        assert(
            map_view(t).remove(k).insert(s.last().0, s.last().1)
            =~= map_view(t).insert(s.last().0, s.last().1).remove(k)
        );
    }
}

/// As [`lemma_map_view_remove`], for [`seq_map_view`].
pub proof fn lemma_seq_map_view_remove<K>(s: Seq<(K, Vec<u64>)>, i: int)
    requires
        keys_distinct(s),
        0 <= i < s.len(),
    ensures
        seq_map_view(s.remove(i)) == seq_map_view(s).remove(s[i].0),
    decreases s.len(),
{
    let k = s[i].0;
    let t = s.drop_last();
    assert(forall|a: int| 0 <= a < t.len() ==> (#[trigger] t[a]) == s[a]);
    assert(keys_distinct(t));
    if i == s.len() - 1 {
        assert(s.remove(i) =~= t);
        lemma_seq_map_view_contains(t, k);
        assert(!has_key(t, k)) by {
            if has_key(t, k) {
                let a = choose|a: int| 0 <= a < t.len() && (#[trigger] t[a]).0 == k;
                assert(s[a].0 == s[i].0);
            }
        }
        assert(seq_map_view(s).remove(k) =~= seq_map_view(t));
    } else {
        lemma_seq_map_view_remove(t, i);
        assert(s.remove(i) =~= t.remove(i).push(s.last()));
        lemma_seq_map_view_push(t.remove(i), s.last().0, s.last().1);
        assert(k != s.last().0);
        assert(
            seq_map_view(t).remove(k).insert(s.last().0, s.last().1@)
            =~= seq_map_view(t).insert(s.last().0, s.last().1@).remove(k)
        );
    }
}

/// What [`seq_without`] keeps: every element but `x`, distinctness preserved.
pub proof fn lemma_seq_without_props(s: Seq<u64>, x: u64)
    ensures
        forall|y: u64| #[trigger] seq_without(s, x).contains(y) <==> (s.contains(y) && y != x),
        distinct_seq(s) ==> distinct_seq(seq_without(s, x)),
        seq_without(s, x).len() <= s.len(),
    decreases s.len(),
{
    if s.len() == 0 {
        assert forall|y: u64| #[trigger] seq_without(s, x).contains(y) implies false by {}
        assert forall|y: u64| !(#[trigger] s.contains(y)) by {}
    } else {
        let t = s.drop_last();
        lemma_seq_without_props(t, x);
        assert(distinct_seq(s) ==> distinct_seq(t)) by {
            assert(forall|a: int| 0 <= a < t.len() ==> (#[trigger] t[a]) == s[a]);
        }
        assert(t.push(s.last()) =~= s);
        assert forall|y: u64|
            #[trigger] seq_without(s, x).contains(y) <==> (s.contains(y) && y != x) by {
            lemma_contains_push(t, s.last(), y);
            assert(seq_without(t, x).contains(y) <==> (t.contains(y) && y != x));
            if s.last() != x {
                lemma_contains_push(seq_without(t, x), s.last(), y);
            }
        }
        if distinct_seq(s) {
            assert(distinct_seq(seq_without(s, x))) by {
                if s.last() != x {
                    let w = seq_without(t, x);
                    assert(!t.contains(s.last())) by {
                        if t.contains(s.last()) {
                            let a = choose|a: int| 0 <= a < t.len() && t[a] == s.last();
                            assert(s[a] == s[s.len() - 1]);
                        }
                    }
                    assert(!w.contains(s.last()));
                    let p = w.push(s.last());
                    assert forall|i: int, j: int|
                        0 <= i < j < p.len() implies p[i] != p[j] by {
                        if j == w.len() {
                            assert(p[i] == w[i]);
                            assert(w.contains(w[i]));
                        } else {
                            assert(p[i] == w[i]);
                            assert(p[j] == w[j]);
                        }
                    }
                }
            }
        }
    }
}

/// Pushing a fresh element keeps a sequence distinct.
pub proof fn lemma_distinct_seq_push<T>(s: Seq<T>, x: T)
    requires
        distinct_seq(s),
        !s.contains(x),
    ensures
        distinct_seq(s.push(x)),
{
    let p = s.push(x);
    assert forall|i: int, j: int| 0 <= i < j < p.len() implies p[i] != p[j] by {
        if j == s.len() {
            assert(p[i] == s[i]);
            assert(s.contains(s[i]));
        } else {
            assert(p[i] == s[i]);
            assert(p[j] == s[j]);
        }
    }
}

/// Removing an element keeps a sequence distinct.
pub proof fn lemma_distinct_seq_remove<T>(s: Seq<T>, i: int)
    requires
        distinct_seq(s),
        0 <= i < s.len(),
    ensures
        distinct_seq(s.remove(i)),
{
    let r = s.remove(i);
    assert forall|a: int, b: int| 0 <= a < b < r.len() implies r[a] != r[b] by {
        let a0: int = if a < i { a } else { a + 1 };
        let b0: int = if b < i { b } else { b + 1 };
        assert(r[a] == s[a0]);
        assert(r[b] == s[b0]);
    }
}

/// The pushed set is the old set with the new element inserted.
pub proof fn lemma_to_set_push<T>(s: Seq<T>, x: T)
    ensures
        s.push(x).to_set() == s.to_set().insert(x),
{
    let p = s.push(x);
    assert forall|y: T|
        #![trigger p.to_set().contains(y)]
        p.to_set().contains(y) <==> (s.to_set().contains(y) || y == x) by {
        lemma_contains_push(s, x, y);
    }
    assert(p.to_set() =~= s.to_set().insert(x));
}

/// With distinct elements, removing one entry removes it from the set.
pub proof fn lemma_to_set_remove_distinct<T>(s: Seq<T>, i: int)
    requires
        distinct_seq(s),
        0 <= i < s.len(),
    ensures
        s.remove(i).to_set() == s.to_set().remove(s[i]),
{
    let r = s.remove(i);
    assert(forall|a: int|
        0 <= a < r.len() ==> (#[trigger] r[a]) == (if a < i { s[a] } else { s[a + 1] }));
    assert forall|y: T|
        #![trigger r.to_set().contains(y)]
        r.to_set().contains(y) <==> (s.to_set().contains(y) && y != s[i]) by {
        if r.contains(y) {
            let a = choose|a: int| 0 <= a < r.len() && r[a] == y;
            let a0: int = if a < i { a } else { a + 1 };
            assert(s[a0] == y);
        }
        if s.contains(y) && y != s[i] {
            let a = choose|a: int| 0 <= a < s.len() && s[a] == y;
            let a1: int = if a < i { a } else { a - 1 };
            assert(r[a1] == y);
        }
    }
    assert(r.to_set() =~= s.to_set().remove(s[i]));
}

/// Finds the entry carrying `key`, if any.
pub fn find_key<V>(entries: &Vec<(u64, V)>, key: u64) -> (r: Option<usize>)
    ensures
        match r {
            Some(i) => i < entries@.len() && entries@[i as int].0 == key,
            None => !has_key(entries@, key),
        },
{
    let mut i: usize = 0;
    while i < entries.len()
        invariant
            i <= entries@.len(),
            forall|j: int| 0 <= j < i ==> (#[trigger] entries@[j]).0 != key,
        decreases entries@.len() - i,
    {
        if entries[i].0 == key {
            return Some(i);
        }
        i = i + 1;
    }
    None
}

/// Inserts or overwrites the value carried by `key`.
pub fn upsert<V>(entries: &mut Vec<(u64, V)>, key: u64, value: V)
    requires
        keys_distinct(old(entries)@),
    ensures
        keys_distinct(final(entries)@),
        if has_key(old(entries)@, key) {
            exists|i: int|
                0 <= i < old(entries)@.len() && (#[trigger] old(entries)@[i]).0 == key
                && final(entries)@ == old(entries)@.remove(i).push((key, value))
        } else {
            final(entries)@ == old(entries)@.push((key, value))
        },
{
    match find_key(entries, key) {
        Some(i) => {
            let ghost pre = entries@;
            entries.remove(i);
            proof {
                lemma_keys_distinct_remove(pre, i as int);
                lemma_remove_key_gone(pre, i as int);
                lemma_keys_distinct_push(pre.remove(i as int), key, value);
            }
            entries.push((key, value));
            proof {
                assert(pre[i as int].0 == key);
            }
        }
        None => {
            proof {
                lemma_keys_distinct_push(entries@, key, value);
            }
            entries.push((key, value));
        }
    }
}

/// Removes the entry carrying `key` and returns its value, if any.
pub fn remove_key<V>(entries: &mut Vec<(u64, V)>, key: u64) -> (removed: Option<V>)
    requires
        keys_distinct(old(entries)@),
    ensures
        keys_distinct(final(entries)@),
        match removed {
            Some(v) => exists|i: int|
                0 <= i < old(entries)@.len() && (#[trigger] old(entries)@[i]).0 == key
                && old(entries)@[i].1 == v && final(entries)@ == old(entries)@.remove(i),
            None => final(entries)@ == old(entries)@ && !has_key(old(entries)@, key),
        },
{
    match find_key(entries, key) {
        Some(i) => {
            let ghost pre = entries@;
            let entry = entries.remove(i);
            proof {
                lemma_keys_distinct_remove(pre, i as int);
                assert(pre[i as int].0 == key);
            }
            Some(entry.1)
        }
        None => None,
    }
}

/// After an upsert, the map view is the old view with the pair inserted.
pub proof fn lemma_upsert_map_view<K, V>(pre: Seq<(K, V)>, post: Seq<(K, V)>, key: K, value: V)
    requires
        keys_distinct(pre),
        if has_key(pre, key) {
            exists|i: int|
                0 <= i < pre.len() && (#[trigger] pre[i]).0 == key
                && post == pre.remove(i).push((key, value))
        } else {
            post == pre.push((key, value))
        },
    ensures
        map_view(post) == map_view(pre).insert(key, value),
{
    if has_key(pre, key) {
        let i = choose|i: int|
            0 <= i < pre.len() && (#[trigger] pre[i]).0 == key
            && post == pre.remove(i).push((key, value));
        lemma_map_view_remove(pre, i);
        lemma_map_view_push(pre.remove(i), key, value);
        assert(
            map_view(pre).remove(key).insert(key, value)
            =~= map_view(pre).insert(key, value)
        );
    } else {
        lemma_map_view_push(pre, key, value);
    }
}

/// As [`lemma_upsert_map_view`], for [`seq_map_view`].
pub proof fn lemma_upsert_seq_map_view<K>(
    pre: Seq<(K, Vec<u64>)>,
    post: Seq<(K, Vec<u64>)>,
    key: K,
    value: Vec<u64>,
)
    requires
        keys_distinct(pre),
        if has_key(pre, key) {
            exists|i: int|
                0 <= i < pre.len() && (#[trigger] pre[i]).0 == key
                && post == pre.remove(i).push((key, value))
        } else {
            post == pre.push((key, value))
        },
    ensures
        seq_map_view(post) == seq_map_view(pre).insert(key, value@),
{
    if has_key(pre, key) {
        let i = choose|i: int|
            0 <= i < pre.len() && (#[trigger] pre[i]).0 == key
            && post == pre.remove(i).push((key, value));
        lemma_seq_map_view_remove(pre, i);
        lemma_seq_map_view_push(pre.remove(i), key, value);
        assert(
            seq_map_view(pre).remove(key).insert(key, value@)
            =~= seq_map_view(pre).insert(key, value@)
        );
    } else {
        lemma_seq_map_view_push(pre, key, value);
    }
}

/// After a keyed removal, the map view is the old view without the key.
pub proof fn lemma_remove_key_map_view<K, V>(pre: Seq<(K, V)>, post: Seq<(K, V)>, key: K)
    requires
        keys_distinct(pre),
        (exists|i: int|
            0 <= i < pre.len() && (#[trigger] pre[i]).0 == key && post == pre.remove(i))
            || (post == pre && !has_key(pre, key)),
    ensures
        map_view(post) == map_view(pre).remove(key),
{
    if exists|i: int|
        0 <= i < pre.len() && (#[trigger] pre[i]).0 == key && post == pre.remove(i) {
        let i = choose|i: int|
            0 <= i < pre.len() && (#[trigger] pre[i]).0 == key && post == pre.remove(i);
        lemma_map_view_remove(pre, i);
    } else {
        lemma_map_view_contains(pre, key);
        assert(map_view(pre).remove(key) =~= map_view(pre));
    }
}

/// Whether a plain vector contains `x`.
pub fn contains_u64(v: &Vec<u64>, x: u64) -> (r: bool)
    ensures
        r == v@.contains(x),
{
    let mut i: usize = 0;
    while i < v.len()
        invariant
            i <= v@.len(),
            forall|j: int| 0 <= j < i ==> v@[j] != x,
        decreases v@.len() - i,
    {
        if v[i] == x {
            assert(v@[i as int] == x);
            return true;
        }
        i = i + 1;
    }
    assert(!v@.contains(x));
    false
}

/// Finds the position of `x` in a plain vector, if any.
pub fn position_u64(v: &Vec<u64>, x: u64) -> (r: Option<usize>)
    ensures
        match r {
            Some(i) => i < v@.len() && v@[i as int] == x,
            None => !v@.contains(x),
        },
{
    let mut i: usize = 0;
    while i < v.len()
        invariant
            i <= v@.len(),
            forall|j: int| 0 <= j < i ==> v@[j] != x,
        decreases v@.len() - i,
    {
        if v[i] == x {
            return Some(i);
        }
        i = i + 1;
    }
    None
}

/// Copies a vector of identifiers element by element.
pub fn copy_ids(v: &Vec<u64>) -> (r: Vec<u64>)
    ensures
        r@ == v@,
{
    let mut out: Vec<u64> = Vec::new();
    let mut i: usize = 0;
    while i < v.len()
        invariant
            i <= v@.len(),
            out@ == v@.take(i as int),
        decreases v@.len() - i,
    {
        out.push(v[i]);
        proof {
            assert(v@.take(i + 1 as int) =~= v@.take(i as int).push(v@[i as int]));
        }
        i = i + 1;
    }
    proof {
        assert(v@.take(v@.len() as int) =~= v@);
    }
    out
}

} // verus!

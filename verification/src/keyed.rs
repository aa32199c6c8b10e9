//! Tables kept as vectors of records, each record carrying its own key,
//! with no key occurring twice. Such a table is read as a map from key to record.
use vstd::prelude::*;

verus! {

/// No two records of `s` share a key.
pub open spec fn unique_keys<T, K>(s: Seq<T>, key: spec_fn(T) -> K) -> bool {
    forall|i: int, j: int| 0 <= i < s.len() && 0 <= j < s.len() && i != j ==> key(#[trigger] s[i]) != key(#[trigger] s[j])
}

/// Some record of `s` has key `a`.
pub open spec fn has_key<T, K>(s: Seq<T>, key: spec_fn(T) -> K, a: K) -> bool {
    exists|i: int| 0 <= i < s.len() && key(#[trigger] s[i]) == a
}

/// The table read as a map from key to record.
pub open spec fn keyed_map<T, K>(s: Seq<T>, key: spec_fn(T) -> K) -> Map<K, T> {
    Map::new(
        |a: K| has_key(s, key, a),
        |a: K| s[choose|i: int| 0 <= i < s.len() && key(#[trigger] s[i]) == a],
    )
}

/// Each record of a table is what the map holds under its key.
pub proof fn lemma_keyed_at<T, K>(s: Seq<T>, key: spec_fn(T) -> K, i: int)
    requires
        unique_keys(s, key),
        0 <= i < s.len(),
    ensures
        keyed_map(s, key).dom().contains(key(s[i])),
        keyed_map(s, key)[key(s[i])] == s[i],
{
    let a = key(s[i]);
    assert(has_key(s, key, a));
    let j = choose|j: int| 0 <= j < s.len() && key(#[trigger] s[j]) == a;
    if j != i {
        assert(key(s[i]) != key(s[j]));
    }
}

/// The empty table is the empty map.
pub proof fn lemma_keyed_empty<T, K>(key: spec_fn(T) -> K)
    ensures
        unique_keys(Seq::<T>::empty(), key),
        keyed_map(Seq::<T>::empty(), key) == Map::<K, T>::empty(),
{
    assert(keyed_map(Seq::<T>::empty(), key) =~= Map::<K, T>::empty());
}

/// Appending a record under a new key inserts it into the map.
pub proof fn lemma_keyed_push<T, K>(s: Seq<T>, key: spec_fn(T) -> K, e: T)
    requires
        unique_keys(s, key),
        !has_key(s, key, key(e)),
    ensures
        unique_keys(s.push(e), key),
        keyed_map(s.push(e), key) == keyed_map(s, key).insert(key(e), e),
{
    let t = s.push(e);
    let n = s.len() as int;
    assert forall|i: int| 0 <= i < n implies #[trigger] t[i] == s[i] by {}
    assert(t[n] == e);
    assert forall|i: int, j: int| 0 <= i < t.len() && 0 <= j < t.len() && i != j implies key(#[trigger] t[i]) != key(
        #[trigger] t[j],
    ) by {
        if i < n && j < n {
            assert(key(s[i]) != key(s[j]));
        } else if i < n {
            assert(key(s[i]) != key(e));
        } else {
            assert(key(s[j]) != key(e));
        }
    }
    let m = keyed_map(s, key).insert(key(e), e);
    assert forall|a: K| #[trigger] keyed_map(t, key).dom().contains(a) <==> m.dom().contains(a) by {
        if has_key(t, key, a) {
            let i = choose|i: int| 0 <= i < t.len() && key(#[trigger] t[i]) == a;
            if i < n {
                assert(key(s[i]) == a);
            }
        }
        if has_key(s, key, a) {
            let i = choose|i: int| 0 <= i < s.len() && key(#[trigger] s[i]) == a;
            assert(key(t[i]) == a);
        }
        if a == key(e) {
            assert(key(t[n]) == a);
        }
    }
    assert forall|a: K| #[trigger] m.dom().contains(a) implies keyed_map(t, key)[a] == m[a] by {
        if a == key(e) {
            lemma_keyed_at(t, key, n);
        } else {
            let i = choose|i: int| 0 <= i < s.len() && key(#[trigger] s[i]) == a;
            lemma_keyed_at(s, key, i);
            lemma_keyed_at(t, key, i);
        }
    }
    assert(keyed_map(t, key) =~= m);
}

/// Replacing a record by one with the same key overwrites the map at that key.
pub proof fn lemma_keyed_update<T, K>(s: Seq<T>, key: spec_fn(T) -> K, i: int, e: T)
    requires
        unique_keys(s, key),
        0 <= i < s.len(),
        key(e) == key(s[i]),
    ensures
        unique_keys(s.update(i, e), key),
        keyed_map(s.update(i, e), key) == keyed_map(s, key).insert(key(e), e),
{
    let t = s.update(i, e);
    assert forall|p: int, q: int| 0 <= p < t.len() && 0 <= q < t.len() && p != q implies key(#[trigger] t[p]) != key(
        #[trigger] t[q],
    ) by {
        assert(key(s[p]) != key(s[q]));
    }
    let m = keyed_map(s, key).insert(key(e), e);
    lemma_keyed_at(s, key, i);
    assert forall|a: K| #[trigger] keyed_map(t, key).dom().contains(a) <==> m.dom().contains(a) by {
        if has_key(t, key, a) {
            let k = choose|k: int| 0 <= k < t.len() && key(#[trigger] t[k]) == a;
            assert(key(s[k]) == a);
        }
        if has_key(s, key, a) {
            let k = choose|k: int| 0 <= k < s.len() && key(#[trigger] s[k]) == a;
            assert(key(t[k]) == a);
        }
    }
    assert forall|a: K| #[trigger] m.dom().contains(a) implies keyed_map(t, key)[a] == m[a] by {
        if a == key(e) {
            lemma_keyed_at(t, key, i);
        } else {
            let k = choose|k: int| 0 <= k < s.len() && key(#[trigger] s[k]) == a;
            lemma_keyed_at(s, key, k);
            lemma_keyed_at(t, key, k);
        }
    }
    assert(keyed_map(t, key) =~= m);
}

/// Removing a record removes its key from the map.
pub proof fn lemma_keyed_remove<T, K>(s: Seq<T>, key: spec_fn(T) -> K, i: int)
    requires
        unique_keys(s, key),
        0 <= i < s.len(),
    ensures
        unique_keys(s.remove(i), key),
        keyed_map(s.remove(i), key) == keyed_map(s, key).remove(key(s[i])),
{
    let t = s.remove(i);
    let gone = key(s[i]);
    assert forall|k: int| 0 <= k < t.len() implies #[trigger] t[k] == (if k < i {
        s[k]
    } else {
        s[k + 1]
    }) by {}
    assert forall|p: int, q: int| 0 <= p < t.len() && 0 <= q < t.len() && p != q implies key(#[trigger] t[p]) != key(
        #[trigger] t[q],
    ) by {
        let pp = if p < i { p } else { p + 1 };
        let qq = if q < i { q } else { q + 1 };
        assert(key(s[pp]) != key(s[qq]));
    }
    let m = keyed_map(s, key).remove(gone);
    assert forall|a: K| #[trigger] keyed_map(t, key).dom().contains(a) <==> m.dom().contains(a) by {
        if has_key(t, key, a) {
            let k = choose|k: int| 0 <= k < t.len() && key(#[trigger] t[k]) == a;
            let kk = if k < i { k } else { k + 1 };
            assert(key(s[kk]) == a);
            assert(key(s[kk]) != key(s[i]));
        }
        if has_key(s, key, a) && a != gone {
            let k = choose|k: int| 0 <= k < s.len() && key(#[trigger] s[k]) == a;
            if k < i {
                assert(key(t[k]) == a);
            } else {
                assert(k != i);
                assert(key(t[k - 1]) == a);
            }
        }
    }
    assert forall|a: K| #[trigger] m.dom().contains(a) implies keyed_map(t, key)[a] == m[a] by {
        let k = choose|k: int| 0 <= k < s.len() && key(#[trigger] s[k]) == a;
        lemma_keyed_at(s, key, k);
        assert(k != i);
        let kt = if k < i { k } else { k - 1 };
        assert(t[kt] == s[k]);
        lemma_keyed_at(t, key, kt);
    }
    assert(keyed_map(t, key) =~= m);
}

/// A table with unique keys has as many map entries as records.
pub proof fn lemma_keyed_len<T, K>(s: Seq<T>, key: spec_fn(T) -> K)
    requires
        unique_keys(s, key),
    ensures
        keyed_map(s, key).dom().finite(),
        keyed_map(s, key).dom().len() == s.len(),
    decreases s.len(),
{
    if s.len() == 0 {
        lemma_keyed_empty(key);
        assert(s =~= Seq::<T>::empty());
    } else {
        let p = s.drop_last();
        let e = s.last();
        assert(p.push(e) =~= s);
        assert forall|i: int, j: int| 0 <= i < p.len() && 0 <= j < p.len() && i != j implies key(#[trigger] p[i]) != key(
            #[trigger] p[j],
        ) by {
            assert(key(s[i]) != key(s[j]));
        }
        if has_key(p, key, key(e)) {
            let k = choose|k: int| 0 <= k < p.len() && key(#[trigger] p[k]) == key(e);
            assert(key(s[k]) != key(s[s.len() - 1]));
        }
        lemma_keyed_len(p, key);
        lemma_keyed_push(p, key, e);
    }
}

} // verus!

//! Sequences of entries with distinct string keys, viewed as maps.
use vstd::prelude::*;

verus! {

/// No two entries share a key.
pub open spec fn unique_keys<T>(v: Seq<T>, key: spec_fn(T) -> Seq<char>) -> bool {
    forall|i: int, j: int| 0 <= i < v.len() && 0 <= j < v.len() && i != j ==> key(v[i]) != key(v[j])
}

/// Some entry has key `k`.
pub open spec fn has_key<T>(v: Seq<T>, key: spec_fn(T) -> Seq<char>, k: Seq<char>) -> bool {
    exists|i: int| 0 <= i < v.len() && key(v[i]) == k
}

/// The index of an entry with key `k`.
pub open spec fn key_index<T>(v: Seq<T>, key: spec_fn(T) -> Seq<char>, k: Seq<char>) -> int {
    choose|i: int| 0 <= i < v.len() && key(v[i]) == k
}

/// The entries as a map from key to value.
pub open spec fn kmap<T, V>(v: Seq<T>, key: spec_fn(T) -> Seq<char>, val: spec_fn(T) -> V) -> Map<Seq<char>, V> {
    Map::new(|k: Seq<char>| has_key(v, key, k), |k: Seq<char>| val(v[key_index(v, key, k)]))
}

pub proof fn lemma_kmap_at<T, V>(v: Seq<T>, key: spec_fn(T) -> Seq<char>, val: spec_fn(T) -> V, i: int)
    requires
        unique_keys(v, key),
        0 <= i < v.len(),
    ensures
        kmap(v, key, val).contains_key(key(v[i])),
        kmap(v, key, val)[key(v[i])] == val(v[i]),
{
    assert(has_key(v, key, key(v[i])));
    let j = key_index(v, key, key(v[i]));
    assert(j == i);
}

pub proof fn lemma_kmap_push<T, V>(v: Seq<T>, key: spec_fn(T) -> Seq<char>, val: spec_fn(T) -> V, x: T)
    requires
        unique_keys(v, key),
        !has_key(v, key, key(x)),
    ensures
        unique_keys(v.push(x), key),
        kmap(v.push(x), key, val) == kmap(v, key, val).insert(key(x), val(x)),
{
    let w = v.push(x);
    assert(unique_keys(w, key)) by {
        assert forall|i: int, j: int| 0 <= i < w.len() && 0 <= j < w.len() && i != j implies key(w[i]) != key(w[j]) by {
            if i == v.len() as int {
                assert(w[j] == v[j]);
            } else if j == v.len() as int {
                assert(w[i] == v[i]);
            } else {
                assert(w[i] == v[i] && w[j] == v[j]);
            }
        }
    }
    let m1 = kmap(w, key, val);
    let m2 = kmap(v, key, val).insert(key(x), val(x));
    assert forall|k: Seq<char>| #[trigger] m1.contains_key(k) == m2.contains_key(k) by {
        if has_key(w, key, k) {
            let i = key_index(w, key, k);
            if i < v.len() {
                assert(w[i] == v[i]);
                assert(has_key(v, key, k));
            }
        }
        if has_key(v, key, k) {
            let i = key_index(v, key, k);
            assert(w[i] == v[i]);
            assert(has_key(w, key, k));
        }
        if k == key(x) {
            assert(w[v.len() as int] == x);
            assert(has_key(w, key, k));
        }
    }
    assert forall|k: Seq<char>| m1.contains_key(k) implies #[trigger] m1[k] == m2[k] by {
        let i = key_index(w, key, k);
        if k == key(x) {
            lemma_kmap_at(w, key, val, v.len() as int);
            assert(w[v.len() as int] == x);
        } else {
            assert(i < v.len());
            assert(w[i] == v[i]);
            lemma_kmap_at(v, key, val, i);
            lemma_kmap_at(w, key, val, i);
        }
    }
    assert(m1 =~= m2);
}

pub proof fn lemma_kmap_update<T, V>(v: Seq<T>, key: spec_fn(T) -> Seq<char>, val: spec_fn(T) -> V, i: int, x: T)
    requires
        unique_keys(v, key),
        0 <= i < v.len(),
        key(x) == key(v[i]),
    ensures
        unique_keys(v.update(i, x), key),
        kmap(v.update(i, x), key, val) == kmap(v, key, val).insert(key(x), val(x)),
{
    let w = v.update(i, x);
    assert(unique_keys(w, key)) by {
        assert forall|a: int, b: int| 0 <= a < w.len() && 0 <= b < w.len() && a != b implies key(w[a]) != key(w[b]) by {
            assert(key(w[a]) == key(v[a]));
            assert(key(w[b]) == key(v[b]));
        }
    }
    let m1 = kmap(w, key, val);
    let m2 = kmap(v, key, val).insert(key(x), val(x));
    assert forall|k: Seq<char>| #[trigger] m1.contains_key(k) == m2.contains_key(k) by {
        if has_key(w, key, k) {
            let j = key_index(w, key, k);
            assert(key(w[j]) == key(v[j]));
            assert(has_key(v, key, k));
        }
        if has_key(v, key, k) {
            let j = key_index(v, key, k);
            assert(key(w[j]) == key(v[j]));
            assert(has_key(w, key, k));
        }
    }
    assert forall|k: Seq<char>| m1.contains_key(k) implies #[trigger] m1[k] == m2[k] by {
        let j = key_index(w, key, k);
        lemma_kmap_at(w, key, val, j);
        if j == i {
            assert(w[i] == x);
        } else {
            assert(w[j] == v[j]);
            lemma_kmap_at(v, key, val, j);
        }
    }
    assert(m1 =~= m2);
}

pub proof fn lemma_kmap_remove<T, V>(v: Seq<T>, key: spec_fn(T) -> Seq<char>, val: spec_fn(T) -> V, i: int)
    requires
        unique_keys(v, key),
        0 <= i < v.len(),
    ensures
        unique_keys(v.remove(i), key),
        kmap(v.remove(i), key, val) == kmap(v, key, val).remove(key(v[i])),
{
    let w = v.remove(i);
    let idx = |a: int| if a < i { a } else { a + 1 };
    assert forall|a: int| 0 <= a < w.len() implies w[a] == v[idx(a)] by {}
    assert(unique_keys(w, key)) by {
        assert forall|a: int, b: int| 0 <= a < w.len() && 0 <= b < w.len() && a != b implies key(w[a]) != key(w[b]) by {
            assert(w[a] == v[idx(a)]);
            assert(w[b] == v[idx(b)]);
        }
    }
    let m1 = kmap(w, key, val);
    let m2 = kmap(v, key, val).remove(key(v[i]));
    assert forall|k: Seq<char>| #[trigger] m1.contains_key(k) == m2.contains_key(k) by {
        if has_key(w, key, k) {
            let j = key_index(w, key, k);
            assert(w[j] == v[idx(j)]);
            assert(has_key(v, key, k));
            assert(k != key(v[i]));
        }
        if has_key(v, key, k) && k != key(v[i]) {
            let j = key_index(v, key, k);
            assert(j != i);
            let a = if j < i { j } else { j - 1 };
            assert(w[a] == v[j]);
            assert(has_key(w, key, k));
        }
    }
    assert forall|k: Seq<char>| m1.contains_key(k) implies #[trigger] m1[k] == m2[k] by {
        let j = key_index(w, key, k);
        assert(w[j] == v[idx(j)]);
        lemma_kmap_at(w, key, val, j);
        lemma_kmap_at(v, key, val, idx(j));
    }
    assert(m1 =~= m2);
}

pub proof fn lemma_kmap_empty<T, V>(v: Seq<T>, key: spec_fn(T) -> Seq<char>, val: spec_fn(T) -> V)
    requires
        v.len() == 0,
    ensures
        unique_keys(v, key),
        kmap(v, key, val) == Map::<Seq<char>, V>::empty(),
{
    assert(kmap(v, key, val) =~= Map::<Seq<char>, V>::empty());
}

} // verus!

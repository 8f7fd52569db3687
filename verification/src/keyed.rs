//! A sequence of records with distinct string keys, read as a map from key to
//! record: what lookup, in-place update, push and removal do to that map.
use vstd::prelude::*;

verus! {

/// No two records of `s` share a key.
pub open spec fn keys_unique<T>(s: Seq<T>, key: spec_fn(T) -> Seq<char>) -> bool {
    forall|i: int, j: int| 0 <= i < j < s.len() ==> key(#[trigger] s[i]) != key(#[trigger] s[j])
}

/// The records of `s` by key.
pub open spec fn keyed_map<T>(s: Seq<T>, key: spec_fn(T) -> Seq<char>) -> Map<Seq<char>, T> {
    Map::new(
        |k: Seq<char>| exists|i: int| 0 <= i < s.len() && key(#[trigger] s[i]) == k,
        |k: Seq<char>| s[choose|i: int| 0 <= i < s.len() && key(#[trigger] s[i]) == k],
    )
}

pub proof fn lemma_keyed_at<T>(s: Seq<T>, key: spec_fn(T) -> Seq<char>, i: int)
    requires
        keys_unique(s, key),
        0 <= i < s.len(),
    ensures
        keyed_map(s, key).contains_key(key(s[i])),
        keyed_map(s, key)[key(s[i])] == s[i],
{
    let k = key(s[i]);
    assert(keyed_map(s, key).dom().contains(k));
    let j = choose|j: int| 0 <= j < s.len() && key(#[trigger] s[j]) == k;
    if j != i {
        if j < i {
            assert(key(s[j]) != key(s[i]));
        } else {
            assert(key(s[i]) != key(s[j]));
        }
    }
}

pub proof fn lemma_keyed_update<T>(s: Seq<T>, key: spec_fn(T) -> Seq<char>, i: int, x: T)
    requires
        keys_unique(s, key),
        0 <= i < s.len(),
        key(x) == key(s[i]),
    ensures
        keys_unique(s.update(i, x), key),
        keyed_map(s.update(i, x), key) == keyed_map(s, key).insert(key(x), x),
{
    let t = s.update(i, x);
    assert forall|a: int, b: int| 0 <= a < b < t.len() implies key(#[trigger] t[a]) != key(
        #[trigger] t[b],
    ) by {
        assert(key(t[a]) == key(s[a]));
        assert(key(t[b]) == key(s[b]));
    }
    let m = keyed_map(s, key).insert(key(x), x);
    assert forall|k: Seq<char>| #[trigger] keyed_map(t, key).contains_key(k) <==> m.contains_key(
        k,
    ) by {
        if keyed_map(t, key).contains_key(k) {
            let j = choose|j: int| 0 <= j < t.len() && key(#[trigger] t[j]) == k;
            if j != i {
                assert(key(s[j]) == k);
                assert(keyed_map(s, key).contains_key(k));
            }
        }
        if m.contains_key(k) && k != key(x) {
            let j = choose|j: int| 0 <= j < s.len() && key(#[trigger] s[j]) == k;
            assert(key(t[j]) == k);
        }
        if k == key(x) {
            assert(key(t[i]) == k);
        }
    }
    assert forall|k: Seq<char>| #[trigger] keyed_map(t, key).contains_key(k) implies keyed_map(
        t,
        key,
    )[k] == m[k] by {
        let j = choose|j: int| 0 <= j < t.len() && key(#[trigger] t[j]) == k;
        lemma_keyed_at(t, key, j);
        if j != i {
            assert(s[j] == t[j]);
            lemma_keyed_at(s, key, j);
        }
    }
    assert(keyed_map(t, key) =~= m);
}

pub proof fn lemma_keyed_push<T>(s: Seq<T>, key: spec_fn(T) -> Seq<char>, x: T)
    requires
        keys_unique(s, key),
        !keyed_map(s, key).contains_key(key(x)),
    ensures
        keys_unique(s.push(x), key),
        keyed_map(s.push(x), key) == keyed_map(s, key).insert(key(x), x),
{
    let t = s.push(x);
    assert forall|a: int, b: int| 0 <= a < b < t.len() implies key(#[trigger] t[a]) != key(
        #[trigger] t[b],
    ) by {
        if b == s.len() {
            assert(t[a] == s[a]);
            if key(s[a]) == key(x) {
                assert(keyed_map(s, key).contains_key(key(x)));
            }
        } else {
            assert(t[a] == s[a] && t[b] == s[b]);
        }
    }
    let m = keyed_map(s, key).insert(key(x), x);
    assert forall|k: Seq<char>| #[trigger] keyed_map(t, key).contains_key(k) <==> m.contains_key(
        k,
    ) by {
        if keyed_map(t, key).contains_key(k) {
            let j = choose|j: int| 0 <= j < t.len() && key(#[trigger] t[j]) == k;
            if j < s.len() {
                assert(s[j] == t[j]);
                assert(keyed_map(s, key).contains_key(k));
            }
        }
        if m.contains_key(k) && k != key(x) {
            let j = choose|j: int| 0 <= j < s.len() && key(#[trigger] s[j]) == k;
            assert(t[j] == s[j]);
        }
        if k == key(x) {
            assert(t[s.len() as int] == x);
        }
    }
    assert forall|k: Seq<char>| #[trigger] keyed_map(t, key).contains_key(k) implies keyed_map(
        t,
        key,
    )[k] == m[k] by {
        let j = choose|j: int| 0 <= j < t.len() && key(#[trigger] t[j]) == k;
        lemma_keyed_at(t, key, j);
        if j < s.len() {
            assert(s[j] == t[j]);
            lemma_keyed_at(s, key, j);
        }
    }
    assert(keyed_map(t, key) =~= m);
}

pub proof fn lemma_keyed_remove<T>(s: Seq<T>, key: spec_fn(T) -> Seq<char>, i: int)
    requires
        keys_unique(s, key),
        0 <= i < s.len(),
    ensures
        keys_unique(s.remove(i), key),
        keyed_map(s.remove(i), key) == keyed_map(s, key).remove(key(s[i])),
{
    let t = s.remove(i);
    let gone = key(s[i]);
    assert forall|a: int| 0 <= a < t.len() implies #[trigger] t[a] == s[if a < i {
        a
    } else {
        a + 1
    }] by {}
    assert forall|a: int, b: int| 0 <= a < b < t.len() implies key(#[trigger] t[a]) != key(
        #[trigger] t[b],
    ) by {
        let sa = if a < i {
            a
        } else {
            a + 1
        };
        let sb = if b < i {
            b
        } else {
            b + 1
        };
        assert(t[a] == s[sa] && t[b] == s[sb]);
        assert(sa < sb);
    }
    let m = keyed_map(s, key).remove(gone);
    assert forall|k: Seq<char>| #[trigger] keyed_map(t, key).contains_key(k) <==> m.contains_key(
        k,
    ) by {
        if keyed_map(t, key).contains_key(k) {
            let j = choose|j: int| 0 <= j < t.len() && key(#[trigger] t[j]) == k;
            let sj = if j < i {
                j
            } else {
                j + 1
            };
            assert(t[j] == s[sj]);
            assert(keyed_map(s, key).contains_key(k));
            if k == gone {
                if sj < i {
                    assert(key(s[sj]) != key(s[i]));
                } else {
                    assert(key(s[i]) != key(s[sj]));
                }
            }
        }
        if m.contains_key(k) {
            let j = choose|j: int| 0 <= j < s.len() && key(#[trigger] s[j]) == k;
            assert(j != i);
            let tj = if j < i {
                j
            } else {
                j - 1
            };
            assert(t[tj] == s[j]);
        }
    }
    assert forall|k: Seq<char>| #[trigger] keyed_map(t, key).contains_key(k) implies keyed_map(
        t,
        key,
    )[k] == m[k] by {
        let j = choose|j: int| 0 <= j < t.len() && key(#[trigger] t[j]) == k;
        lemma_keyed_at(t, key, j);
        let sj = if j < i {
            j
        } else {
            j + 1
        };
        assert(t[j] == s[sj]);
        lemma_keyed_at(s, key, sj);
    }
    assert(keyed_map(t, key) =~= m);
}

} // verus!

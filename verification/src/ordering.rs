//! Ordering strings as `str::cmp` orders them (by code point, which is the
//! byte order of their UTF-8), and a stable sort of positions by their keys.
use vstd::prelude::*;

verus! {

/// `a` sorts strictly before `b`: at the first differing character the one
/// of `a` is smaller, or `a` is a proper prefix of `b`.
pub open spec fn spec_str_lt(a: Seq<char>, b: Seq<char>) -> bool
    decreases a.len(),
{
    if b.len() == 0 {
        false
    } else if a.len() == 0 {
        true
    } else if a[0] != b[0] {
        a[0] < b[0]
    } else {
        spec_str_lt(a.drop_first(), b.drop_first())
    }
}

pub proof fn lemma_str_lt_irreflexive(a: Seq<char>)
    ensures
        !spec_str_lt(a, a),
    decreases a.len(),
{
    if a.len() > 0 {
        lemma_str_lt_irreflexive(a.drop_first());
    }
}

pub proof fn lemma_str_lt_total(a: Seq<char>, b: Seq<char>)
    ensures
        a != b ==> spec_str_lt(a, b) || spec_str_lt(b, a),
        spec_str_lt(a, b) ==> !spec_str_lt(b, a),
    decreases a.len(),
{
    if a.len() > 0 && b.len() > 0 {
        if a[0] == b[0] {
            lemma_str_lt_total(a.drop_first(), b.drop_first());
            if a != b {
                if a.drop_first() == b.drop_first() {
                    assert(a =~= seq![a[0]] + a.drop_first());
                    assert(b =~= seq![b[0]] + b.drop_first());
                }
            }
        }
    } else if a.len() == 0 && b.len() == 0 {
        assert(a =~= b);
    }
}

pub proof fn lemma_str_lt_transitive(a: Seq<char>, b: Seq<char>, c: Seq<char>)
    requires
        spec_str_lt(a, b),
        spec_str_lt(b, c),
    ensures
        spec_str_lt(a, c),
    decreases a.len(),
{
    if a.len() > 0 && b.len() > 0 && c.len() > 0 {
        if a[0] == b[0] && b[0] == c[0] {
            lemma_str_lt_transitive(a.drop_first(), b.drop_first(), c.drop_first());
        }
    }
}

/// Whether `a` sorts strictly before `b`.
pub fn str_lt(a: &[char], b: &[char]) -> (r: bool)
    ensures
        r == spec_str_lt(a@, b@),
{
    let mut i: usize = 0;
    assert(a@.skip(0) =~= a@ && b@.skip(0) =~= b@);
    while i < a.len() && i < b.len() && a[i] == b[i]
        invariant
            i <= a@.len(),
            i <= b@.len(),
            spec_str_lt(a@, b@) == spec_str_lt(a@.skip(i as int), b@.skip(i as int)),
        decreases a@.len() - i,
    {
        proof {
            let x = a@.skip(i as int);
            let y = b@.skip(i as int);
            assert(x.drop_first() =~= a@.skip(i + 1));
            assert(y.drop_first() =~= b@.skip(i + 1));
        }
        i = i + 1;
    }
    if i == b.len() {
        false
    } else if i == a.len() {
        true
    } else {
        proof {
            assert(a@.skip(i as int)[0] == a@[i as int]);
            assert(b@.skip(i as int)[0] == b@[i as int]);
        }
        a[i] < b[i]
    }
}

/// Position `x` sorts before position `y`: by key, then by position.
pub open spec fn spec_pos_lt(keys: Seq<Seq<char>>, x: int, y: int) -> bool {
    spec_str_lt(keys[x], keys[y]) || (keys[x] == keys[y] && x < y)
}

/// Position `k` occurs in `order`.
pub open spec fn spec_listed(order: Seq<usize>, k: int) -> bool {
    exists|p: int| 0 <= p < order.len() && order[p] == k
}

/// `order` lists each position below `n` once, in key order (equal keys in
/// their original order).
pub open spec fn spec_is_stable_order(keys: Seq<Seq<char>>, order: Seq<usize>) -> bool {
    &&& order.len() == keys.len()
    &&& forall|p: int| 0 <= p < order.len() ==> #[trigger] order[p] < keys.len()
    &&& forall|k: int| 0 <= k < keys.len() ==> #[trigger] spec_listed(order, k)
    &&& forall|p: int, q: int|
        0 <= p < q < order.len() ==> spec_pos_lt(keys, #[trigger] order[p] as int, #[trigger] order[q] as int)
}

proof fn lemma_pos_lt_total(keys: Seq<Seq<char>>, x: int, y: int)
    ensures
        x != y ==> spec_pos_lt(keys, x, y) || spec_pos_lt(keys, y, x),
        spec_pos_lt(keys, x, y) ==> !spec_pos_lt(keys, y, x),
{
    lemma_str_lt_total(keys[x], keys[y]);
    lemma_str_lt_total(keys[y], keys[x]);
    if keys[x] == keys[y] {
        lemma_str_lt_irreflexive(keys[x]);
    }
}

proof fn lemma_pos_lt_transitive(keys: Seq<Seq<char>>, x: int, y: int, z: int)
    requires
        spec_pos_lt(keys, x, y),
        spec_pos_lt(keys, y, z),
    ensures
        spec_pos_lt(keys, x, z),
{
    if spec_str_lt(keys[x], keys[y]) && spec_str_lt(keys[y], keys[z]) {
        lemma_str_lt_transitive(keys[x], keys[y], keys[z]);
    }
}

/// The positions of `keys` in sorted order, as a stable sort orders them.
pub fn stable_order(keys: &Vec<String>) -> (order: Vec<usize>)
    ensures
        spec_is_stable_order(keys@.map_values(|k: String| k@), order@),
{
    let ghost ks = keys@.map_values(|k: String| k@);
    let mut order: Vec<usize> = Vec::new();
    let mut i: usize = 0;
    while i < keys.len()
        invariant
            i <= keys@.len(),
            ks == keys@.map_values(|k: String| k@),
            order@.len() == i,
            forall|p: int| 0 <= p < order@.len() ==> #[trigger] order@[p] < i,
            forall|k: int| 0 <= k < i ==> #[trigger] spec_listed(order@, k),
            forall|p: int, q: int|
                0 <= p < q < order@.len() ==> spec_pos_lt(
                    ks,
                    #[trigger] order@[p] as int,
                    #[trigger] order@[q] as int,
                ),
        decreases keys@.len() - i,
    {
        let key = crate::text::chars_of(keys[i].as_str());
        let mut p: usize = 0;
        while p < order.len() && !str_lt(
            key.as_slice(),
            crate::text::chars_of(keys[order[p]].as_str()).as_slice(),
        )
            invariant
                p <= order@.len(),
                i < keys@.len(),
                key@ == ks[i as int],
                ks == keys@.map_values(|k: String| k@),
                forall|q: int| 0 <= q < order@.len() ==> #[trigger] order@[q] < i,
                forall|q: int| 0 <= q < p ==> !spec_str_lt(ks[i as int], ks[#[trigger] order@[q] as int]),
            decreases order@.len() - p,
        {
            p = p + 1;
        }
        let ghost before = order@;
        proof {
            assert forall|q: int| 0 <= q < p implies spec_pos_lt(ks, #[trigger] before[q] as int, i as int) by {
                lemma_pos_lt_total(ks, before[q] as int, i as int);
            }
            if p < before.len() {
                assert(spec_str_lt(ks[i as int], ks[before[p as int] as int]));
                assert forall|q: int| p <= q < before.len() implies spec_pos_lt(ks, i as int, #[trigger] before[q] as int) by {
                    if q > p {
                        lemma_pos_lt_transitive(ks, i as int, before[p as int] as int, before[q] as int);
                    }
                }
            }
        }
        order.insert(p, i);
        proof {
            let s = order@;
            assert(s =~= before.insert(p as int, i));
            assert forall|a: int, b: int| 0 <= a < b < s.len() implies spec_pos_lt(
                ks,
                #[trigger] s[a] as int,
                #[trigger] s[b] as int,
            ) by {
                if b < p {
                    assert(s[a] == before[a] && s[b] == before[b]);
                } else if b == p {
                    assert(s[a] == before[a]);
                } else if a < p {
                    assert(s[a] == before[a] && s[b] == before[b - 1]);
                    if p < before.len() {
                        assert(spec_pos_lt(ks, i as int, before[b - 1] as int));
                    }
                    lemma_pos_lt_transitive(ks, before[a] as int, i as int, before[b - 1] as int);
                } else if a == p {
                    assert(s[b] == before[b - 1]);
                } else {
                    assert(s[a] == before[a - 1] && s[b] == before[b - 1]);
                }
            }
            assert forall|k: int| 0 <= k < i + 1 implies #[trigger] spec_listed(s, k) by {
                if k == i {
                    assert(s[p as int] == i);
                } else {
                    assert(spec_listed(before, k));
                    let q0 = choose|q: int| 0 <= q < before.len() && before[q] == k;
                    if q0 < p {
                        assert(s[q0] == k);
                    } else {
                        assert(s[q0 + 1] == k);
                    }
                }
            }
            assert forall|q: int| 0 <= q < s.len() implies #[trigger] s[q] < i + 1 by {
                if q < p {
                    assert(s[q] == before[q]);
                } else if q > p {
                    assert(s[q] == before[q - 1]);
                }
            }
        }
        i = i + 1;
    }
    order
}

} // verus!

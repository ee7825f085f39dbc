//! The stable ordering the stores and the token list use: by a text key,
//! equal keys keeping their original order (as `slice::sort_by_key` does).
use vstd::prelude::*;
use crate::text::{text_less, text_lt};

verus! {

/// `order` with position `i` inserted before the first position whose key
/// sorts after `keys[i]`.
pub open spec fn insert_by_key(order: Seq<int>, keys: Seq<Seq<char>>, i: int) -> Seq<int>
    decreases order.len(),
{
    if order.len() == 0 {
        seq![i]
    } else if text_lt(keys[i], keys[order[0]]) {
        seq![i] + order
    } else {
        seq![order[0]] + insert_by_key(order.drop_first(), keys, i)
    }
}

/// The positions `0..n` of `keys` in stable sorted order: insertion sort,
/// each later position going after every earlier one with an equal key.
pub open spec fn stable_order(keys: Seq<Seq<char>>, n: int) -> Seq<int>
    decreases n,
{
    if n <= 0 {
        Seq::<int>::empty()
    } else {
        insert_by_key(stable_order(keys, n - 1), keys, n - 1)
    }
}

proof fn lemma_insert_at(order: Seq<int>, keys: Seq<Seq<char>>, i: int, p: int)
    requires
        0 <= p <= order.len(),
        forall|q: int| 0 <= q < p ==> !text_lt(keys[i], #[trigger] keys[order[q]]),
        p < order.len() ==> text_lt(keys[i], keys[order[p]]),
    ensures
        insert_by_key(order, keys, i) == order.subrange(0, p) + seq![i] + order.subrange(p, order.len() as int),
    decreases order.len(),
{
    if order.len() == 0 {
        assert(order.subrange(0, p) + seq![i] + order.subrange(p, order.len() as int) =~= seq![i]);
    } else if p == 0 {
        assert(order.subrange(0, p) + seq![i] + order.subrange(p, order.len() as int) =~= seq![i] + order);
    } else {
        let rest = order.drop_first();
        assert forall|q: int| 0 <= q < p - 1 implies !text_lt(keys[i], #[trigger] keys[rest[q]]) by {
            assert(rest[q] == order[q + 1]);
        }
        if p - 1 < rest.len() {
            assert(rest[p - 1] == order[p]);
        }
        assert(!text_lt(keys[i], keys[order[0]]));
        lemma_insert_at(rest, keys, i, p - 1);
        assert(seq![order[0]] + (rest.subrange(0, p - 1) + seq![i] + rest.subrange(p - 1, rest.len() as int))
            =~= order.subrange(0, p) + seq![i] + order.subrange(p, order.len() as int));
    }
}

/// Stable order lists `n` positions, each in `0..n`.
pub proof fn lemma_stable_order_in_range(keys: Seq<Seq<char>>, n: int)
    requires
        n >= 0,
    ensures
        stable_order(keys, n).len() == n,
        forall|q: int| 0 <= q < n ==> 0 <= #[trigger] stable_order(keys, n)[q] < n,
    decreases n,
{
    if n > 0 {
        lemma_stable_order_in_range(keys, n - 1);
        lemma_insert_in_range(stable_order(keys, n - 1), keys, n - 1);
    }
}

proof fn lemma_insert_in_range(order: Seq<int>, keys: Seq<Seq<char>>, i: int)
    requires
        i >= 0,
        forall|q: int| 0 <= q < order.len() ==> 0 <= #[trigger] order[q] < i,
    ensures
        insert_by_key(order, keys, i).len() == order.len() + 1,
        forall|q: int| 0 <= q < order.len() + 1 ==> 0 <= #[trigger] insert_by_key(order, keys, i)[q] <= i,
    decreases order.len(),
{
    if order.len() > 0 && !text_lt(keys[i], keys[order[0]]) {
        let rest = order.drop_first();
        assert forall|q: int| 0 <= q < rest.len() implies 0 <= #[trigger] rest[q] < i by {
            assert(rest[q] == order[q + 1]);
        }
        lemma_insert_in_range(rest, keys, i);
        let r = insert_by_key(order, keys, i);
        assert forall|q: int| 0 <= q < order.len() + 1 implies 0 <= #[trigger] r[q] <= i by {
            if q > 0 {
                assert(r[q] == insert_by_key(rest, keys, i)[q - 1]);
            }
        }
    }
}

/// The positions of `keys` in stable sorted order.
pub fn stable_sort_positions(keys: &Vec<Vec<char>>) -> (r: Vec<usize>)
    ensures
        r@.len() == keys@.len(),
        r@.map_values(|p: usize| p as int) == stable_order(keys@.map_values(|k: Vec<char>| k@), keys@.len() as int),
{
    let ghost text = keys@.map_values(|k: Vec<char>| k@);
    let mut order: Vec<usize> = Vec::new();
    let mut i: usize = 0;
    while i < keys.len()
        invariant
            i <= keys@.len(),
            text == keys@.map_values(|k: Vec<char>| k@),
            order@.len() == i,
            order@.map_values(|p: usize| p as int) == stable_order(text, i as int),
        decreases keys@.len() - i,
    {
        let ghost before = order@.map_values(|p: usize| p as int);
        proof {
            lemma_stable_order_in_range(text, i as int);
        }
        let mut p: usize = 0;
        proof {
            assert forall|q: int| 0 <= q < i implies (#[trigger] order@[q] as int) < i by {
                assert(before[q] == order@[q] as int);
            }
        }
        while p < order.len() && !text_less(&keys[i], &keys[order[p]])
            invariant
                p <= order@.len(),
                i < keys@.len(),
                order@.len() == i,
                text == keys@.map_values(|k: Vec<char>| k@),
                before == order@.map_values(|p: usize| p as int),
                forall|q: int| 0 <= q < i ==> 0 <= #[trigger] before[q] < i,
                forall|q: int| 0 <= q < i ==> (#[trigger] order@[q] as int) < i,
                forall|q: int| 0 <= q < p ==> !text_lt(text[i as int], #[trigger] text[before[q]]),
            decreases order@.len() - p,
        {
            proof {
                assert(before[p as int] == order@[p as int] as int);
                assert(text[before[p as int]] == keys@[order@[p as int] as int]@);
            }
            p = p + 1;
        }
        proof {
            if p < order@.len() {
                assert(before[p as int] == order@[p as int] as int);
                assert(text[before[p as int]] == keys@[order@[p as int] as int]@);
            }
            assert(text[i as int] == keys@[i as int]@);
            lemma_insert_at(before, text, i as int, p as int);
        }
        order.insert(p, i);
        proof {
            assert(order@.map_values(|p: usize| p as int) =~= before.subrange(0, p as int) + seq![i as int]
                + before.subrange(p as int, before.len() as int));
        }
        i = i + 1;
    }
    order
}

proof fn lemma_text_lt_irreflexive(a: Seq<char>)
    ensures
        !text_lt(a, a),
    decreases a.len(),
{
    if a.len() > 0 {
        lemma_text_lt_irreflexive(a.drop_first());
    }
}

proof fn lemma_text_lt_transitive(a: Seq<char>, b: Seq<char>, c: Seq<char>)
    requires
        text_lt(a, b),
        text_lt(b, c),
    ensures
        text_lt(a, c),
    decreases a.len(),
{
    if a.len() > 0 && b.len() > 0 && c.len() > 0 && a[0] == b[0] && b[0] == c[0] {
        lemma_text_lt_transitive(a.drop_first(), b.drop_first(), c.drop_first());
    }
}

/// Positions in `order` never sort after a later position.
pub open spec fn sorted_by(order: Seq<int>, keys: Seq<Seq<char>>) -> bool {
    forall|a: int, b: int| 0 <= a < b < order.len() ==> !text_lt(#[trigger] keys[order[b]], #[trigger] keys[order[a]])
}

/// Positions with equal keys keep their original order.
pub open spec fn stable_by(order: Seq<int>, keys: Seq<Seq<char>>) -> bool {
    forall|a: int, b: int| 0 <= a < b < order.len() && #[trigger] keys[order[a]] == #[trigger] keys[order[b]] ==> order[a] < order[b]
}

/// No position occurs twice.
pub open spec fn distinct(order: Seq<int>) -> bool {
    forall|a: int, b: int| 0 <= a < b < order.len() ==> #[trigger] order[a] != #[trigger] order[b]
}

proof fn lemma_insert_keeps_order(order: Seq<int>, keys: Seq<Seq<char>>, i: int)
    requires
        sorted_by(order, keys),
        stable_by(order, keys),
        distinct(order),
        forall|q: int| 0 <= q < order.len() ==> 0 <= #[trigger] order[q] < i,
    ensures
        sorted_by(insert_by_key(order, keys, i), keys),
        stable_by(insert_by_key(order, keys, i), keys),
        distinct(insert_by_key(order, keys, i)),
        insert_by_key(order, keys, i).len() == order.len() + 1,
        forall|k: int| 0 <= k < insert_by_key(order, keys, i).len() ==> (#[trigger] insert_by_key(order, keys, i)[k]
            == i || order.contains(insert_by_key(order, keys, i)[k])),
    decreases order.len(),
{
    let r = insert_by_key(order, keys, i);
    if order.len() == 0 {
    } else if text_lt(keys[i], keys[order[0]]) {
        assert(r =~= seq![i] + order);
        assert forall|a: int, b: int| 0 <= a < b < r.len() implies !text_lt(#[trigger] keys[r[b]], #[trigger] keys[r[a]]) by {
            if a == 0 {
                if text_lt(keys[r[b]], keys[i]) {
                    if b - 1 == 0 {
                        lemma_text_lt_transitive(keys[order[0]], keys[i], keys[order[0]]);
                        lemma_text_lt_irreflexive(keys[order[0]]);
                    } else {
                        lemma_text_lt_transitive(keys[order[b - 1]], keys[i], keys[order[0]]);
                        assert(!text_lt(keys[order[b - 1]], keys[order[0]]));
                    }
                }
            } else {
                assert(r[a] == order[a - 1] && r[b] == order[b - 1]);
            }
        }
        assert forall|a: int, b: int| 0 <= a < b < r.len() && #[trigger] keys[r[a]] == #[trigger] keys[r[b]] implies r[a] < r[b] by {
            if a == 0 {
                assert(r[b] == order[b - 1]);
                if b - 1 == 0 {
                    lemma_text_lt_irreflexive(keys[i]);
                } else {
                    assert(!text_lt(keys[order[b - 1]], keys[order[0]]));
                }
            } else {
                assert(r[a] == order[a - 1] && r[b] == order[b - 1]);
            }
        }
        assert forall|a: int, b: int| 0 <= a < b < r.len() implies #[trigger] r[a] != #[trigger] r[b] by {
            if a == 0 {
                assert(r[b] == order[b - 1]);
            } else {
                assert(r[a] == order[a - 1] && r[b] == order[b - 1]);
            }
        }
        assert forall|k: int| 0 <= k < r.len() implies (#[trigger] r[k] == i || order.contains(r[k])) by {
            if k > 0 {
                assert(r[k] == order[k - 1]);
            }
        }
    } else {
        let rest = order.drop_first();
        assert forall|a: int, b: int| 0 <= a < b < rest.len() implies !text_lt(#[trigger] keys[rest[b]], #[trigger] keys[rest[a]]) by {
            assert(rest[a] == order[a + 1] && rest[b] == order[b + 1]);
        }
        assert forall|a: int, b: int| 0 <= a < b < rest.len() && #[trigger] keys[rest[a]] == #[trigger] keys[rest[b]] implies rest[a] < rest[b] by {
            assert(rest[a] == order[a + 1] && rest[b] == order[b + 1]);
        }
        assert forall|a: int, b: int| 0 <= a < b < rest.len() implies #[trigger] rest[a] != #[trigger] rest[b] by {
            assert(rest[a] == order[a + 1] && rest[b] == order[b + 1]);
        }
        assert forall|q: int| 0 <= q < rest.len() implies 0 <= #[trigger] rest[q] < i by {
            assert(rest[q] == order[q + 1]);
        }
        lemma_insert_keeps_order(rest, keys, i);
        let t = insert_by_key(rest, keys, i);
        assert(r =~= seq![order[0]] + t);
        assert forall|k: int| 0 <= k < t.len() implies (#[trigger] t[k] == i || exists|q: int| 1 <= q < order.len() && order[q] == t[k]) by {
            if t[k] != i {
                let q = choose|q: int| 0 <= q < rest.len() && rest[q] == t[k];
                assert(order[q + 1] == t[k]);
            }
        }
        assert forall|a: int, b: int| 0 <= a < b < r.len() implies !text_lt(#[trigger] keys[r[b]], #[trigger] keys[r[a]]) by {
            if a == 0 {
                assert(r[b] == t[b - 1]);
                if t[b - 1] != i {
                    let q = choose|q: int| 1 <= q < order.len() && order[q] == t[b - 1];
                    assert(!text_lt(keys[order[q]], keys[order[0]]));
                }
            } else {
                assert(r[a] == t[a - 1] && r[b] == t[b - 1]);
            }
        }
        assert forall|a: int, b: int| 0 <= a < b < r.len() && #[trigger] keys[r[a]] == #[trigger] keys[r[b]] implies r[a] < r[b] by {
            if a == 0 {
                assert(r[b] == t[b - 1]);
                if t[b - 1] != i {
                    let q = choose|q: int| 1 <= q < order.len() && order[q] == t[b - 1];
                    assert(keys[order[0]] == keys[order[q]]);
                }
            } else {
                assert(r[a] == t[a - 1] && r[b] == t[b - 1]);
            }
        }
        assert forall|a: int, b: int| 0 <= a < b < r.len() implies #[trigger] r[a] != #[trigger] r[b] by {
            if a == 0 {
                assert(r[b] == t[b - 1]);
                if t[b - 1] != i {
                    let q = choose|q: int| 1 <= q < order.len() && order[q] == t[b - 1];
                }
            } else {
                assert(r[a] == t[a - 1] && r[b] == t[b - 1]);
            }
        }
        assert forall|k: int| 0 <= k < r.len() implies (#[trigger] r[k] == i || order.contains(r[k])) by {
            if k > 0 {
                assert(r[k] == t[k - 1]);
                if t[k - 1] != i {
                    let q = choose|q: int| 1 <= q < order.len() && order[q] == t[k - 1];
                }
            } else {
                assert(order[0] == r[0]);
            }
        }
    }
}

/// A list in stable order is sorted and loses nothing: it lists each of
/// the positions `0..n` exactly once, no key sorts before the one listed
/// ahead of it, and positions with equal keys keep their original order.
pub proof fn law_stable_order_sorts(keys: Seq<Seq<char>>, n: int)
    requires
        n >= 0,
    ensures
        stable_order(keys, n).len() == n,
        forall|q: int| 0 <= q < n ==> 0 <= #[trigger] stable_order(keys, n)[q] < n,
        distinct(stable_order(keys, n)),
        sorted_by(stable_order(keys, n), keys),
        stable_by(stable_order(keys, n), keys),
    decreases n,
{
    lemma_stable_order_in_range(keys, n);
    if n > 0 {
        law_stable_order_sorts(keys, n - 1);
        lemma_insert_keeps_order(stable_order(keys, n - 1), keys, n - 1);
    }
}

} // verus!

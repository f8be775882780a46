//! Stable ordering by a key, greatest first.

use vstd::prelude::*;

verus! {

/// The items at `a` and `b` stand in this order: the greater key first, and
/// among equal keys the one that came first.
pub open spec fn comes_before(keys: Seq<i64>, a: int, b: int) -> bool {
    keys[a] > keys[b] || (keys[a] == keys[b] && a < b)
}

/// `p` lists the indices of `keys`, each once, in that order.
pub open spec fn is_descending(keys: Seq<i64>, p: Seq<int>) -> bool {
    &&& p.len() == keys.len()
    &&& forall|i: int| 0 <= i < p.len() ==> 0 <= #[trigger] p[i] < keys.len()
    &&& forall|i: int, j: int|
        #![trigger p[i], p[j]]
        0 <= i < j < p.len() ==> comes_before(keys, p[i], p[j])
}

/// The indices of `keys`, greatest key first, equal keys in their own order.
pub open spec fn descending(keys: Seq<i64>) -> Seq<int> {
    choose|p: Seq<int>| is_descending(keys, p)
}

/// The items of a list in the order given by their indices.
pub open spec fn arranged<A>(list: Seq<A>, p: Seq<int>) -> Seq<A> {
    Seq::new(p.len(), |i: int| list[p[i]])
}

/// The items of a list, greatest key first, equal keys in their own order.
pub open spec fn sorted_by_key<A>(list: Seq<A>, keys: Seq<i64>) -> Seq<A> {
    arranged(list, descending(keys))
}

/// Every index occurs in a descending order.
pub proof fn lemma_descending_complete(keys: Seq<i64>, p: Seq<int>, x: int)
    requires
        is_descending(keys, p),
        0 <= x < keys.len(),
    ensures
        p.contains(x),
        p.no_duplicates(),
{
    assert forall|i: int, j: int| 0 <= i < p.len() && 0 <= j < p.len() && i != j implies p[i]
        != p[j] by {
        if i < j {
            assert(comes_before(keys, p[i], p[j]));
        } else {
            assert(comes_before(keys, p[j], p[i]));
        }
    }
    p.unique_seq_to_set();
    let all = vstd::set_lib::set_int_range(0, keys.len() as int);
    vstd::set_lib::lemma_int_range(0, keys.len() as int);
    assert(p.to_set().subset_of(all)) by {
        assert forall|v: int| p.to_set().contains(v) implies all.contains(v) by {
            let i = choose|i: int| 0 <= i < p.len() && p[i] == v;
            assert(0 <= p[i] < keys.len());
        }
    }
    vstd::set_lib::lemma_subset_equality(p.to_set(), all);
    assert(all.contains(x));
    assert(p.to_set().contains(x));
}

/// There is one descending order only.
pub proof fn lemma_descending_unique(keys: Seq<i64>, p: Seq<int>, q: Seq<int>)
    requires
        is_descending(keys, p),
        is_descending(keys, q),
    ensures
        p == q,
{
    lemma_descending_agree(keys, p, q, p.len() as int);
    assert(p =~= q);
}

proof fn lemma_descending_agree(keys: Seq<i64>, p: Seq<int>, q: Seq<int>, n: int)
    requires
        is_descending(keys, p),
        is_descending(keys, q),
        0 <= n <= p.len(),
    ensures
        forall|i: int| 0 <= i < n ==> p[i] == q[i],
    decreases n,
{
    if n > 0 {
        lemma_descending_agree(keys, p, q, n - 1);
        let a = p[n - 1];
        let b = q[n - 1];
        if a != b {
            lemma_descending_complete(keys, q, a);
            lemma_descending_complete(keys, p, b);
            let k = choose|k: int| 0 <= k < q.len() && q[k] == a;
            let m = choose|m: int| 0 <= m < p.len() && p[m] == b;
            if k < n - 1 {
                assert(p[k] == q[k]);
                lemma_descending_complete(keys, p, a);
            }
            if m < n - 1 {
                assert(p[m] == q[m]);
                lemma_descending_complete(keys, q, b);
            }
            assert(comes_before(keys, q[n - 1], q[k]));
            assert(comes_before(keys, p[n - 1], p[m]));
        }
    }
}

proof fn lemma_descending(keys: Seq<i64>, p: Seq<int>)
    requires
        is_descending(keys, p),
    ensures
        descending(keys) == p,
{
    lemma_descending_unique(keys, p, descending(keys));
}

/// The indices as mathematical integers.
pub open spec fn indices(p: Seq<usize>) -> Seq<int> {
    p.map_values(|i: usize| i as int)
}

/// `p` lists the first `n` indices in descending order.
spec fn orders_first(keys: Seq<i64>, p: Seq<int>, n: int) -> bool {
    &&& p.len() == n
    &&& forall|k: int| 0 <= k < n ==> 0 <= #[trigger] p[k] < n
    &&& forall|a: int, b: int|
        #![trigger p[a], p[b]]
        0 <= a < b < n ==> comes_before(keys, p[a], p[b])
}

/// `at` is where the index `n` belongs in `p`.
spec fn slot_for(keys: Seq<i64>, p: Seq<int>, n: int, at: int) -> bool {
    &&& 0 <= at <= p.len()
    &&& forall|k: int| 0 <= k < at ==> keys[#[trigger] p[k]] >= keys[n]
    &&& at < p.len() ==> keys[p[at]] < keys[n]
}

proof fn lemma_insert_index(keys: Seq<i64>, p: Seq<int>, n: int, at: int)
    requires
        orders_first(keys, p, n),
        slot_for(keys, p, n, at),
    ensures
        orders_first(keys, p.insert(at, n), n + 1),
{
    let q = p.insert(at, n);
    assert forall|k: int| 0 <= k < n + 1 implies 0 <= #[trigger] q[k] < n + 1 by {
        if k < at {
            assert(q[k] == p[k]);
        } else if k > at {
            assert(q[k] == p[k - 1]);
        }
    }
    assert forall|a: int, b: int|
        #![trigger q[a], q[b]]
        0 <= a < b < n + 1 implies comes_before(keys, q[a], q[b]) by {
        if b < at {
            assert(q[a] == p[a] && q[b] == p[b]);
        } else if b == at {
            assert(q[a] == p[a]);
        } else if a < at {
            assert(q[a] == p[a] && q[b] == p[b - 1]);
        } else if a == at {
            assert(q[b] == p[b - 1]);
            if b - 1 > at {
                assert(comes_before(keys, p[at], p[b - 1]));
            }
        } else {
            assert(q[a] == p[a - 1] && q[b] == p[b - 1]);
        }
    }
}

proof fn lemma_find_slot(keys: Seq<i64>, p: Seq<int>, n: int, from: int) -> (at: int)
    requires
        0 <= from <= p.len(),
        forall|k: int| 0 <= k < from ==> keys[#[trigger] p[k]] >= keys[n],
    ensures
        slot_for(keys, p, n, at),
    decreases p.len() - from,
{
    if from < p.len() && keys[p[from]] >= keys[n] {
        lemma_find_slot(keys, p, n, from + 1)
    } else {
        from
    }
}

proof fn lemma_order_first(keys: Seq<i64>, n: int) -> (p: Seq<int>)
    requires
        0 <= n <= keys.len(),
    ensures
        orders_first(keys, p, n),
    decreases n,
{
    if n == 0 {
        Seq::empty()
    } else {
        let q = lemma_order_first(keys, n - 1);
        let at = lemma_find_slot(keys, q, n - 1, 0);
        lemma_insert_index(keys, q, n - 1, at);
        q.insert(at, n - 1)
    }
}

/// Every list of keys has a descending order.
pub proof fn lemma_descending_exists(keys: Seq<i64>)
    ensures
        is_descending(keys, descending(keys)),
{
    let p = lemma_order_first(keys, keys.len() as int);
    assert(is_descending(keys, p));
}

/// Orders the indices of `keys`, greatest key first.
pub fn descending_order(keys: &Vec<i64>) -> (r: Vec<usize>)
    ensures
        indices(r@) == descending(keys@),
        r@.len() == keys@.len(),
        forall|i: int| 0 <= i < r@.len() ==> #[trigger] r@[i] < keys@.len(),
{
    let mut p: Vec<usize> = Vec::new();
    let mut i: usize = 0;
    while i < keys.len()
        invariant
            i <= keys@.len(),
            orders_first(keys@, indices(p@), i as int),
        decreases keys@.len() - i,
    {
        let ghost q = indices(p@);
        assert forall|k: int| 0 <= k < p@.len() implies #[trigger] p@[k] < i by {
            assert(q[k] == p@[k]);
        }
        let mut at: usize = 0;
        while at < p.len() && keys[p[at]] >= keys[i]
            invariant
                i < keys@.len(),
                q == indices(p@),
                orders_first(keys@, q, i as int),
                at <= p@.len(),
                forall|k: int| 0 <= k < p@.len() ==> #[trigger] p@[k] < i,
                forall|k: int| 0 <= k < at ==> keys@[#[trigger] q[k]] >= keys@[i as int],
            decreases p@.len() - at,
        {
            at += 1;
        }
        p.insert(at, i);
        proof {
            lemma_insert_index(keys@, q, i as int, at as int);
            assert(indices(p@) =~= q.insert(at as int, i as int));
        }
        i += 1;
    }
    proof {
        let q = indices(p@);
        lemma_descending(keys@, q);
        assert forall|k: int| 0 <= k < p@.len() implies #[trigger] p@[k] < keys@.len() by {
            assert(q[k] == p@[k]);
        }
    }
    p
}

/// Ordering a list keeps its items: it only rearranges them.
pub proof fn lemma_arranged_items<A>(list: Seq<A>, keys: Seq<i64>)
    requires
        keys.len() == list.len(),
    ensures
        sorted_by_key(list, keys).len() == list.len(),
        forall|x: A| #[trigger] list.contains(x) <==> sorted_by_key(list, keys).contains(x),
{
    lemma_descending_exists(keys);
    let p = descending(keys);
    let s = sorted_by_key(list, keys);
    assert forall|x: A| #[trigger] list.contains(x) implies s.contains(x) by {
        let i = choose|i: int| 0 <= i < list.len() && list[i] == x;
        lemma_descending_complete(keys, p, i);
        let k = choose|k: int| 0 <= k < p.len() && p[k] == i;
        assert(s[k] == x);
    }
    assert forall|x: A| s.contains(x) implies #[trigger] list.contains(x) by {
        let k = choose|k: int| 0 <= k < s.len() && s[k] == x;
        assert(list[p[k]] == x);
    }
}

/// Ordering a list puts the greatest keys first and keeps equal keys in their
/// own order.
pub proof fn lemma_sorted_by_key<A>(list: Seq<A>, keys: Seq<i64>, i: int, j: int)
    requires
        keys.len() == list.len(),
        0 <= i < j < list.len(),
    ensures
        ({
            let p = descending(keys);
            let s = sorted_by_key(list, keys);
            &&& s[i] == list[p[i]]
            &&& s[j] == list[p[j]]
            &&& 0 <= p[i] < keys.len()
            &&& 0 <= p[j] < keys.len()
            &&& keys[p[i]] >= keys[p[j]]
            &&& keys[p[i]] == keys[p[j]] ==> p[i] < p[j]
        }),
{
    lemma_descending_exists(keys);
    assert(comes_before(keys, descending(keys)[i], descending(keys)[j]));
}

} // verus!

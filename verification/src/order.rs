//! Stable ordering of rows by a descending integer key.
use vstd::prelude::*;

verus! {

/// The keys of the rows that `order` lists, in that order.
pub open spec fn keys_at(keys: Seq<i64>, order: Seq<usize>) -> Seq<i64> {
    order.map_values(|j: usize| keys[j as int])
}

/// Index of the first key below `k` (or the length): where a row with key `k` goes
/// into a list sorted by descending key, behind every row whose key is at least `k`.
pub open spec fn first_below(ks: Seq<i64>, k: i64) -> int
    decreases ks.len(),
{
    if ks.len() == 0 {
        0
    } else if ks[0] < k {
        0
    } else {
        1 + first_below(ks.drop_first(), k)
    }
}

/// The row indices of a stable sort by descending key: each row in turn is placed
/// behind all earlier rows whose key is at least its own.
pub open spec fn desc_order(keys: Seq<i64>) -> Seq<usize>
    decreases keys.len(),
{
    if keys.len() == 0 {
        Seq::empty()
    } else {
        let prev = desc_order(keys.drop_last());
        prev.insert(first_below(keys_at(keys, prev), keys.last()), (keys.len() - 1) as usize)
    }
}

proof fn lemma_first_below(ks: Seq<i64>, k: i64, p: int)
    requires
        0 <= p <= ks.len(),
        forall|q: int| 0 <= q < p ==> ks[q] >= k,
        p == ks.len() || ks[p] < k,
    ensures
        first_below(ks, k) == p,
    decreases p,
{
    if p > 0 {
        lemma_first_below(ks.drop_first(), k, p - 1);
    }
}

proof fn lemma_first_below_bounds(ks: Seq<i64>, k: i64)
    ensures
        0 <= first_below(ks, k) <= ks.len(),
        forall|q: int| 0 <= q < first_below(ks, k) ==> ks[q] >= k,
        first_below(ks, k) < ks.len() ==> ks[first_below(ks, k)] < k,
    decreases ks.len(),
{
    if ks.len() > 0 && ks[0] >= k {
        lemma_first_below_bounds(ks.drop_first(), k);
        assert forall|q: int| 0 <= q < first_below(ks, k) implies ks[q] >= k by {
            if q > 0 {
                assert(ks.drop_first()[q - 1] == ks[q]);
            }
        }
    }
}

/// A valid order lists every index below `n` exactly once.
pub open spec fn is_permutation_of_indices(order: Seq<usize>, n: nat) -> bool {
    &&& order.len() == n
    &&& forall|q: int| 0 <= q < order.len() ==> (order[q] as int) < n
    &&& forall|q1: int, q2: int|
        0 <= q1 < order.len() && 0 <= q2 < order.len() && q1 != q2 ==> order[q1] != order[q2]
}

/// The order sorts keys from largest to smallest.
pub open spec fn is_descending(keys: Seq<i64>, order: Seq<usize>) -> bool {
    forall|p: int, q: int|
        0 <= p < q < order.len() ==> keys[order[p] as int] >= keys[order[q] as int]
}

/// Rows with equal keys keep their relative order from the input.
pub open spec fn is_stable(keys: Seq<i64>, order: Seq<usize>) -> bool {
    forall|p: int, q: int|
        0 <= p < q < order.len() && keys[order[p] as int] == keys[order[q] as int]
            ==> order[p] < order[q]
}

/// Law: the descending order of `keys` lists every row exactly once, sorts the rows
/// from the largest key to the smallest, and keeps rows with equal keys in their
/// relative order from the input.
pub proof fn lemma_desc_order(keys: Seq<i64>)
    requires
        keys.len() <= usize::MAX + 1,
    ensures
        is_permutation_of_indices(desc_order(keys), keys.len()),
        is_descending(keys, desc_order(keys)),
        is_stable(keys, desc_order(keys)),
    decreases keys.len(),
{
    if keys.len() > 0 {
        let pk = keys.drop_last();
        let prev = desc_order(pk);
        lemma_desc_order(pk);
        let n = keys.len() - 1;
        let k = keys.last();
        let ks = keys_at(keys, prev);
        let p = first_below(ks, k);
        lemma_first_below_bounds(ks, k);
        let r = prev.insert(p, n as usize);
        assert(r == desc_order(keys));
        assert forall|q: int| 0 <= q < prev.len() implies keys[prev[q] as int] == pk[prev[q] as int] by {}
        assert forall|q: int| 0 <= q < r.len() implies
            (if q < p { r[q] == prev[q] } else if q == p { r[q] == n as usize } else { r[q] == prev[q - 1] }) by {}
        assert(is_permutation_of_indices(r, keys.len()));
        assert forall|a: int, b: int| 0 <= a < b < r.len() implies keys[r[a] as int] >= keys[r[b] as int] by {
            if a < p && b == p {
                assert(ks[a] >= k);
            } else if a == p && b > p {
                assert(ks[p] < k);
                assert(keys[prev[p] as int] >= keys[prev[b - 1] as int] || p == b - 1);
            }
        }
        assert forall|a: int, b: int|
            0 <= a < b < r.len() && keys[r[a] as int] == keys[r[b] as int] implies r[a] < r[b] by {
            if a == p && b > p {
                assert(ks[p] < k);
                assert(keys[prev[p] as int] >= keys[prev[b - 1] as int] || p == b - 1);
            }
        }
    }
}

/// The row indices of `keys` in stable descending order of key.
pub fn desc_order_of(keys: &Vec<i64>) -> (r: Vec<usize>)
    ensures
        r@ == desc_order(keys@),
{
    let mut order: Vec<usize> = Vec::new();
    let mut i: usize = 0;
    while i < keys.len()
        invariant
            i <= keys.len(),
            order@ == desc_order(keys@.take(i as int)),
        decreases keys.len() - i,
    {
        let ghost pre = keys@.take(i as int);
        let ghost post = keys@.take(i + 1);
        proof {
            lemma_desc_order(pre);
            assert(post.drop_last() =~= pre);
        }
        let k = keys[i];
        let mut p: usize = 0;
        while p < order.len() && keys[order[p]] >= k
            invariant
                order@ == desc_order(pre),
                is_permutation_of_indices(order@, i as nat),
                i < keys.len(),
                p <= order.len(),
                forall|q: int| 0 <= q < p ==> keys@[order@[q] as int] >= k,
            decreases order.len() - p,
        {
            p = p + 1;
        }
        proof {
            let ks = keys_at(post, order@);
            assert forall|q: int| 0 <= q < order@.len() implies ks[q] == keys@[order@[q] as int] by {}
            lemma_first_below(ks, k, p as int);
        }
        order.insert(p, i);
        i = i + 1;
    }
    assert(keys@.take(keys.len() as int) =~= keys@);
    order
}

/// A list of `n` distinct indices below `n` names every index below `n`.
pub proof fn lemma_index_covered(order: Seq<usize>, n: nat, j: int)
    requires
        is_permutation_of_indices(order, n),
        0 <= j < n,
    ensures
        exists|p: int| 0 <= p < order.len() && order[p] as int == j,
{
    if !(exists|p: int| 0 <= p < order.len() && order[p] as int == j) {
        let s = Set::new(|x: int| exists|p: int| 0 <= p < order.len() && order[p] as int == x);
        let full = Set::new(|x: int| 0 <= x < n && x != j);
        assert(s.subset_of(full));
        vstd::set_lib::lemma_int_range(0, n as int);
        let range = vstd::set_lib::set_int_range(0, n as int);
        assert(full =~= range.remove(j));
        assert(full.len() == n - 1);
        lemma_image_len(order, n as int);
        vstd::set_lib::lemma_len_subset(s, full);
        assert(false);
    }
}

proof fn lemma_image_len(order: Seq<usize>, k: int)
    requires
        0 <= k <= order.len(),
        forall|q1: int, q2: int|
            0 <= q1 < order.len() && 0 <= q2 < order.len() && q1 != q2 ==> order[q1] != order[q2],
    ensures
        Set::new(|x: int| exists|p: int| 0 <= p < k && order[p] as int == x).finite(),
        Set::new(|x: int| exists|p: int| 0 <= p < k && order[p] as int == x).len() == k,
    decreases k,
{
    let s = Set::new(|x: int| exists|p: int| 0 <= p < k && order[p] as int == x);
    if k == 0 {
        assert(s =~= Set::<int>::empty());
    } else {
        lemma_image_len(order, k - 1);
        let s0 = Set::new(|x: int| exists|p: int| 0 <= p < k - 1 && order[p] as int == x);
        let v = order[k - 1] as int;
        assert(s =~= s0.insert(v));
        assert(!s0.contains(v));
    }
}

} // verus!

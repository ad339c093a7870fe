use vstd::prelude::*;

use crate::chars::{chars_lt, lemma_seq_lt_irreflexive, lemma_seq_lt_transitive, lemma_seq_lt_trichotomy, seq_lt};

verus! {

/// A sort key: a rank first, then a text compared as std compares strings.
pub open spec fn key_lt(a: (int, Seq<char>), b: (int, Seq<char>)) -> bool {
    a.0 < b.0 || (a.0 == b.0 && seq_lt(a.1, b.1))
}

/// Whether item `x` comes before item `y` in a stable sort by `keys`: a
/// smaller key first, and on equal keys the earlier item first.
pub open spec fn goes_before(keys: Seq<(int, Seq<char>)>, x: int, y: int) -> bool {
    key_lt(keys[x], keys[y]) || (keys[x] == keys[y] && x < y)
}

/// `p` lists the indices of `keys` in stable-sorted order.
pub open spec fn is_sorted_order(keys: Seq<(int, Seq<char>)>, p: Seq<int>) -> bool {
    &&& p.len() == keys.len()
    &&& forall|i: int| 0 <= i < p.len() ==> 0 <= #[trigger] p[i] < keys.len()
    &&& forall|i: int, j: int| 0 <= i < j < p.len() ==> goes_before(keys, #[trigger] p[i], #[trigger] p[j])
}

/// The items of `items` taken in the order of the indices `p`.
pub open spec fn permuted<T>(items: Seq<T>, p: Seq<int>) -> Seq<T> {
    Seq::new(p.len(), |i: int| items[p[i]])
}

/// `out` is `items` sorted stably by `keys`: the items reordered by a
/// permutation under which the keys ascend, equal keys keeping their order.
/// (Such an order is unique.)
pub open spec fn is_stable_sort<T>(items: Seq<T>, keys: Seq<(int, Seq<char>)>, out: Seq<T>) -> bool {
    &&& items.len() == keys.len()
    &&& exists|p: Seq<int>| is_sorted_order(keys, p) && out == permuted(items, p)
}

/// The view of executable sort keys.
pub open spec fn keys_view(keys: Seq<(usize, Vec<char>)>) -> Seq<(int, Seq<char>)> {
    Seq::new(keys.len(), |i: int| (keys[i].0 as int, keys[i].1@))
}

/// The view of a vector of indices.
pub open spec fn indices_view(p: Seq<usize>) -> Seq<int> {
    Seq::new(p.len(), |i: int| p[i] as int)
}

pub proof fn lemma_key_lt_total(a: (int, Seq<char>), b: (int, Seq<char>))
    ensures
        key_lt(a, b) || key_lt(b, a) || a == b,
        !(key_lt(a, b) && key_lt(b, a)),
        !key_lt(a, a),
{
    lemma_seq_lt_trichotomy(a.1, b.1);
    lemma_seq_lt_irreflexive(a.1);
}

pub proof fn lemma_key_lt_transitive(a: (int, Seq<char>), b: (int, Seq<char>), c: (int, Seq<char>))
    requires
        key_lt(a, b),
        key_lt(b, c),
    ensures
        key_lt(a, c),
{
    if a.0 == b.0 && b.0 == c.0 {
        lemma_seq_lt_transitive(a.1, b.1, c.1);
    }
}

pub proof fn lemma_goes_before_transitive(keys: Seq<(int, Seq<char>)>, x: int, y: int, z: int)
    requires
        0 <= x < keys.len(),
        0 <= y < keys.len(),
        0 <= z < keys.len(),
        goes_before(keys, x, y),
        goes_before(keys, y, z),
    ensures
        goes_before(keys, x, z),
{
    if key_lt(keys[x], keys[y]) && key_lt(keys[y], keys[z]) {
        lemma_key_lt_transitive(keys[x], keys[y], keys[z]);
    }
}

pub proof fn lemma_goes_before_irreflexive(keys: Seq<(int, Seq<char>)>, x: int)
    requires
        0 <= x < keys.len(),
    ensures
        !goes_before(keys, x, x),
{
    lemma_key_lt_total(keys[x], keys[x]);
}

fn key_lt_exec(a: &(usize, Vec<char>), b: &(usize, Vec<char>)) -> (r: bool)
    ensures
        r == key_lt((a.0 as int, a.1@), (b.0 as int, b.1@)),
{
    a.0 < b.0 || (a.0 == b.0 && chars_lt(&a.1, &b.1))
}

/// The indices of `keys` in stable-sorted order (an insertion sort).
pub fn sort_order(keys: &Vec<(usize, Vec<char>)>) -> (p: Vec<usize>)
    ensures
        is_sorted_order(keys_view(keys@), indices_view(p@)),
{
    let ghost k = keys_view(keys@);
    let mut p: Vec<usize> = Vec::new();
    let mut i: usize = 0;
    while i < keys.len()
        invariant
            k == keys_view(keys@),
            i <= keys@.len(),
            p@.len() == i,
            forall|a: int| 0 <= a < p@.len() ==> (#[trigger] p@[a]) < i,
            forall|a: int, b: int|
                0 <= a < b < p@.len() ==> goes_before(k, #[trigger] p@[a] as int, #[trigger] p@[b] as int),
        decreases keys@.len() - i,
    {
        let mut q: usize = 0;
        while q < p.len() && !key_lt_exec(&keys[i], &keys[p[q]])
            invariant
                k == keys_view(keys@),
                i < keys@.len(),
                p@.len() == i,
                q <= p@.len(),
                forall|a: int| 0 <= a < p@.len() ==> (#[trigger] p@[a]) < i,
                forall|a: int| 0 <= a < q ==> !key_lt(k[i as int], k[#[trigger] p@[a] as int]),
            decreases p@.len() - q,
        {
            q = q + 1;
        }
        let ghost old_p = p@;
        p.insert(q, i);
        proof {
            assert forall|a: int| 0 <= a < p@.len() implies (#[trigger] p@[a]) < i + 1 by {
                if a < q {
                    assert(p@[a] == old_p[a]);
                } else if a > q {
                    assert(p@[a] == old_p[a - 1]);
                }
            }
            assert forall|a: int, b: int| 0 <= a < b < p@.len() implies goes_before(
                k,
                #[trigger] p@[a] as int,
                #[trigger] p@[b] as int,
            ) by {
                if b < q {
                    assert(p@[a] == old_p[a] && p@[b] == old_p[b]);
                } else if b == q {
                    assert(p@[a] == old_p[a]);
                    let x = old_p[a] as int;
                    assert(!key_lt(k[i as int], k[x]));
                    lemma_key_lt_total(k[i as int], k[x]);
                } else if a == q {
                    assert(p@[b] == old_p[b - 1]);
                    let y = old_p[b - 1] as int;
                    let z = old_p[q as int] as int;
                    assert(key_lt(k[i as int], k[z]));
                    if b - 1 > q {
                        assert(goes_before(k, old_p[q as int] as int, old_p[b - 1] as int));
                        lemma_goes_before_transitive(k, i as int, z, y);
                    }
                } else if a < q {
                    assert(p@[a] == old_p[a] && p@[b] == old_p[b - 1]);
                } else {
                    assert(p@[a] == old_p[a - 1] && p@[b] == old_p[b - 1]);
                }
            }
        }
        i = i + 1;
    }
    proof {
        let pv = indices_view(p@);
        assert forall|a: int, b: int| 0 <= a < b < pv.len() implies goes_before(
            k,
            #[trigger] pv[a],
            #[trigger] pv[b],
        ) by {
            assert(pv[a] == p@[a] as int);
            assert(pv[b] == p@[b] as int);
        }
    }
    p
}


/// A stable sort order lists no index twice.
pub proof fn lemma_sorted_order_injective(keys: Seq<(int, Seq<char>)>, p: Seq<int>, i: int, j: int)
    requires
        is_sorted_order(keys, p),
        0 <= i < p.len(),
        0 <= j < p.len(),
        i != j,
    ensures
        p[i] != p[j],
{
    if i < j {
        assert(goes_before(keys, p[i], p[j]));
        if p[i] == p[j] {
            lemma_goes_before_irreflexive(keys, p[i]);
        }
    } else {
        assert(goes_before(keys, p[j], p[i]));
        if p[i] == p[j] {
            lemma_goes_before_irreflexive(keys, p[j]);
        }
    }
}

/// A stable sort order lists every index.
pub proof fn lemma_sorted_order_covers(keys: Seq<(int, Seq<char>)>, p: Seq<int>, x: int)
    requires
        is_sorted_order(keys, p),
        0 <= x < keys.len(),
    ensures
        exists|i: int| 0 <= i < p.len() && p[i] == x,
{
    assert(p.no_duplicates()) by {
        assert forall|i: int, j: int| 0 <= i < p.len() && 0 <= j < p.len() && i != j implies p[i] != p[j] by {
            lemma_sorted_order_injective(keys, p, i, j);
        }
    }
    p.unique_seq_to_set();
    let range = vstd::set_lib::set_int_range(0, keys.len() as int);
    vstd::set_lib::lemma_int_range(0, keys.len() as int);
    assert(p.to_set().subset_of(range)) by {
        assert forall|y: int| p.to_set().contains(y) implies range.contains(y) by {
            assert(p.contains(y));
        }
    }
    vstd::seq_lib::seq_to_set_is_finite(p);
    vstd::set_lib::lemma_subset_equality(p.to_set(), range);
    assert(range.contains(x));
    assert(p.to_set().contains(x));
    assert(p.contains(x));
}

/// A stable sort has as many items as it sorts.
pub proof fn lemma_stable_sort_len<T>(items: Seq<T>, keys: Seq<(int, Seq<char>)>, out: Seq<T>)
    requires
        is_stable_sort(items, keys, out),
    ensures
        out.len() == items.len(),
{
    let p = choose|p: Seq<int>| is_sorted_order(keys, p) && out == permuted(items, p);
}

/// Every item of a stable sort of `items` is an item of `items`.
pub proof fn lemma_stable_sort_from<T>(items: Seq<T>, keys: Seq<(int, Seq<char>)>, out: Seq<T>, k: int)
    requires
        is_stable_sort(items, keys, out),
        0 <= k < out.len(),
    ensures
        exists|j: int| 0 <= j < items.len() && out[k] == #[trigger] items[j],
{
    let p = choose|p: Seq<int>| is_sorted_order(keys, p) && out == permuted(items, p);
    assert(out[k] == items[p[k]]);
}

/// Every item of `items` is in a stable sort of it.
pub proof fn lemma_stable_sort_keeps<T>(items: Seq<T>, keys: Seq<(int, Seq<char>)>, out: Seq<T>, j: int)
    requires
        is_stable_sort(items, keys, out),
        0 <= j < items.len(),
    ensures
        out.contains(items[j]),
{
    let p = choose|p: Seq<int>| is_sorted_order(keys, p) && out == permuted(items, p);
    lemma_sorted_order_covers(keys, p, j);
    let i = choose|i: int| 0 <= i < p.len() && p[i] == j;
    assert(out[i] == items[j]);
}

/// A stable sort of items that are all different has all different items.
pub proof fn lemma_stable_sort_no_duplicates<T>(items: Seq<T>, keys: Seq<(int, Seq<char>)>, out: Seq<T>)
    requires
        is_stable_sort(items, keys, out),
        items.no_duplicates(),
    ensures
        out.no_duplicates(),
{
    let p = choose|p: Seq<int>| is_sorted_order(keys, p) && out == permuted(items, p);
    assert forall|i: int, j: int| 0 <= i < out.len() && 0 <= j < out.len() && i != j implies out[i] != out[j] by {
        lemma_sorted_order_injective(keys, p, i, j);
        assert(out[i] == items[p[i]]);
        assert(out[j] == items[p[j]]);
    }
}

/// In a stable sort, an earlier item has a key no greater than a later one's.
pub proof fn lemma_stable_sort_ordered<T>(items: Seq<T>, keys: Seq<(int, Seq<char>)>, out: Seq<T>, i: int, j: int)
    requires
        is_stable_sort(items, keys, out),
        0 <= i < j < out.len(),
    ensures
        exists|x: int, y: int|
            0 <= x < items.len() && 0 <= y < items.len() && out[i] == items[x] && out[j] == items[y]
                && goes_before(keys, x, y),
{
    let p = choose|p: Seq<int>| is_sorted_order(keys, p) && out == permuted(items, p);
    assert(out[i] == items[p[i]] && out[j] == items[p[j]]);
    assert(goes_before(keys, p[i], p[j]));
}

} // verus!

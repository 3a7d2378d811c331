//! Stable insertion order: the order in which a stable sort leaves a list of
//! items, given which items must come after which.

use vstd::prelude::*;

verus! {

/// Position, at or after `j`, of the first item of `order` that must come
/// after `x`; the length of `order` when there is none.
pub open spec fn first_after(order: Seq<int>, after: spec_fn(int, int) -> bool, x: int, j: int) -> int
    decreases order.len() - j,
{
    if j >= order.len() || j < 0 {
        order.len() as int
    } else if after(x, order[j]) {
        j
    } else {
        first_after(order, after, x, j + 1)
    }
}

/// `order` with `x` inserted before the first item that must come after it.
pub open spec fn insert_stable(order: Seq<int>, after: spec_fn(int, int) -> bool, x: int) -> Seq<int> {
    let p = first_after(order, after, x, 0);
    order.take(p).push(x) + order.skip(p)
}

/// The items of `items` stably sorted: each item, taken in turn, is placed
/// before the first already placed item that must come after it. With
/// `after(x, y)` meaning "y's key is greater than x's key" this is the order
/// of a stable ascending sort.
pub open spec fn stable_sort(items: Seq<int>, after: spec_fn(int, int) -> bool) -> Seq<int>
    decreases items.len(),
{
    if items.len() == 0 {
        items
    } else {
        insert_stable(stable_sort(items.drop_last(), after), after, items.last())
    }
}

pub proof fn lemma_first_after_bounds(order: Seq<int>, after: spec_fn(int, int) -> bool, x: int, j: int)
    requires
        0 <= j <= order.len(),
    ensures
        j <= first_after(order, after, x, j) <= order.len(),
        forall|k: int| j <= k < first_after(order, after, x, j) ==> !after(x, #[trigger] order[k]),
        first_after(order, after, x, j) < order.len() ==> after(x, order[first_after(order, after, x, j)]),
    decreases order.len() - j,
{
    if j < order.len() && !after(x, order[j]) {
        lemma_first_after_bounds(order, after, x, j + 1);
    }
}

pub proof fn lemma_stable_sort_len(items: Seq<int>, after: spec_fn(int, int) -> bool)
    ensures
        stable_sort(items, after).len() == items.len(),
    decreases items.len(),
{
    if items.len() > 0 {
        let o = stable_sort(items.drop_last(), after);
        lemma_stable_sort_len(items.drop_last(), after);
        lemma_first_after_bounds(o, after, items.last(), 0);
    }
}

/// The items kept in the sorted list are exactly the items given: a stable
/// sort is a permutation.
pub proof fn law_stable_sort_permutes(items: Seq<int>, after: spec_fn(int, int) -> bool)
    ensures
        stable_sort(items, after).to_multiset() == items.to_multiset(),
    decreases items.len(),
{
    broadcast use vstd::seq_lib::group_to_multiset_ensures;
    if items.len() > 0 {
        let o = stable_sort(items.drop_last(), after);
        law_stable_sort_permutes(items.drop_last(), after);
        lemma_first_after_bounds(o, after, items.last(), 0);
        let p = first_after(o, after, items.last(), 0);
        vstd::seq_lib::lemma_multiset_commutative(o.take(p).push(items.last()), o.skip(p));
        vstd::seq_lib::lemma_multiset_commutative(o.take(p), o.skip(p));
        assert(o.take(p) + o.skip(p) =~= o);
        assert(items.drop_last().push(items.last()) =~= items);
    }
}

/// No item of the sorted list is followed by one it must come after, when
/// `after` is a strict order that is total up to ties: the sorted list is
/// ordered.
pub open spec fn ordered_by(s: Seq<int>, after: spec_fn(int, int) -> bool) -> bool {
    forall|a: int, b: int| 0 <= a < b < s.len() ==> !after(s[b], s[a])
}

/// `after` is a strict order: irreflexive and transitive.
pub open spec fn strict_order(after: spec_fn(int, int) -> bool) -> bool {
    &&& forall|x: int| !#[trigger] after(x, x)
    &&& forall|x: int, y: int, z: int| #[trigger] after(x, y) && #[trigger] after(y, z) ==> after(x, z)
}

/// A stable sort by a strict order yields an ordered list.
pub proof fn law_stable_sort_ordered(items: Seq<int>, after: spec_fn(int, int) -> bool)
    requires
        strict_order(after),
    ensures
        ordered_by(stable_sort(items, after), after),
    decreases items.len(),
{
    if items.len() > 0 {
        let o = stable_sort(items.drop_last(), after);
        law_stable_sort_ordered(items.drop_last(), after);
        let x = items.last();
        lemma_first_after_bounds(o, after, x, 0);
        let p = first_after(o, after, x, 0);
        let r = insert_stable(o, after, x);
        assert(r.len() == o.len() + 1);
        assert forall|a: int, b: int| 0 <= a < b < r.len() implies !after(r[b], r[a]) by {
            if b < p {
                assert(r[a] == o[a] && r[b] == o[b]);
            } else if b == p {
                assert(r[b] == x);
                assert(r[a] == o[a]);
                assert(!after(x, o[a]));
            } else if a == p {
                assert(r[a] == x && r[b] == o[b - 1]);
                if b - 1 == p {
                    assert(after(x, o[p]));
                    if after(o[p], x) {
                        assert(after(x, x));
                    }
                } else {
                    assert(!after(o[b - 1], o[p]));
                    assert(after(x, o[p]));
                    if after(o[b - 1], x) {
                        assert(after(o[b - 1], o[p]));
                    }
                }
            } else if a < p {
                assert(r[a] == o[a] && r[b] == o[b - 1]);
            } else {
                assert(r[a] == o[a - 1] && r[b] == o[b - 1]);
            }
        }
    }
}

} // verus!

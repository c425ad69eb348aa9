//! The first item of a sequence that has a given property.

use vstd::prelude::*;

verus! {

/// `i` is the position of the first item of `items` that `wanted` holds of.
pub open spec fn is_first_where<T>(items: Seq<T>, wanted: spec_fn(T) -> bool, i: int) -> bool {
    &&& 0 <= i < items.len()
    &&& wanted(items[i])
    &&& forall|j: int| 0 <= j < i ==> !wanted(#[trigger] items[j])
}

/// `wanted` holds of no item of `items`.
pub open spec fn none_where<T>(items: Seq<T>, wanted: spec_fn(T) -> bool) -> bool {
    forall|j: int| 0 <= j < items.len() ==> !wanted(#[trigger] items[j])
}

/// The position of the first item that `wanted` holds of, if there is one.
pub open spec fn first_where<T>(items: Seq<T>, wanted: spec_fn(T) -> bool) -> Option<int> {
    if exists|i: int| is_first_where(items, wanted, i) {
        Some(choose|i: int| is_first_where(items, wanted, i))
    } else {
        None
    }
}

/// There is one first item at most, and `first_where` finds it.
pub proof fn lemma_first_where_is<T>(items: Seq<T>, wanted: spec_fn(T) -> bool, i: int)
    requires
        is_first_where(items, wanted, i),
    ensures
        first_where(items, wanted) == Some(i),
{
    let k = choose|k: int| is_first_where(items, wanted, k);
    assert(is_first_where(items, wanted, k));
    if k < i {
        assert(!wanted(items[k]));
    }
    if i < k {
        assert(!wanted(items[i]));
    }
}

/// `first_where` finds nothing exactly where there is nothing to find, and
/// what it finds is a first item.
pub proof fn lemma_first_where<T>(items: Seq<T>, wanted: spec_fn(T) -> bool)
    ensures
        first_where(items, wanted) is None <==> none_where(items, wanted),
        first_where(items, wanted) matches Some(i) ==> is_first_where(items, wanted, i),
{
    if exists|i: int| is_first_where(items, wanted, i) {
        let k = choose|k: int| is_first_where(items, wanted, k);
        assert(wanted(items[k]));
    } else if !none_where(items, wanted) {
        let j = choose|j: int| 0 <= j < items.len() && wanted(#[trigger] items[j]);
        lemma_some_where(items, wanted, j);
    }
}

/// Where `wanted` holds of some item, it holds of a first one.
proof fn lemma_some_where<T>(items: Seq<T>, wanted: spec_fn(T) -> bool, j: int)
    requires
        0 <= j < items.len(),
        wanted(items[j]),
    ensures
        exists|i: int| is_first_where(items, wanted, i),
    decreases j,
{
    if forall|k: int| 0 <= k < j ==> !wanted(#[trigger] items[k]) {
        assert(is_first_where(items, wanted, j));
    } else {
        let k = choose|k: int| 0 <= k < j && wanted(#[trigger] items[k]);
        lemma_some_where(items, wanted, k);
    }
}

} // verus!

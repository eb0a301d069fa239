//! From values to their mathematical counterparts, item by item.

use vstd::prelude::*;

verus! {

/// The values of a sequence of items, in the same order.
pub open spec fn view_each<T: View>(items: Seq<T>) -> Seq<T::V> {
    items.map_values(|item: T| item@)
}

/// Appending an item appends its value.
pub proof fn lemma_view_each_push<T: View>(items: Seq<T>, item: T)
    ensures
        view_each(items.push(item)) == view_each(items).push(item@),
{
    assert(view_each(items.push(item)) =~= view_each(items).push(item@));
}

} // verus!

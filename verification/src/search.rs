//! Finding and selecting items of a sequence.

use vstd::prelude::*;

verus! {

/// The first item of `items` that meets `test`.
pub open spec fn first_of<A>(items: Seq<A>, test: spec_fn(A) -> bool) -> Option<A>
    decreases items.len(),
{
    if items.len() == 0 {
        None
    } else if test(items[0]) {
        Some(items[0])
    } else {
        first_of(items.drop_first(), test)
    }
}

/// The first item that meets a test is an item that meets it and that no
/// item meeting it precedes; there is none exactly when no item meets the
/// test.
pub proof fn lemma_first_of<A>(items: Seq<A>, test: spec_fn(A) -> bool)
    ensures
        first_of(items, test) is None <==> forall|i: int| 0 <= i < items.len() ==> !test(items[i]),
        first_of(items, test) matches Some(found) ==> exists|i: int|
            0 <= i < items.len() && items[i] == found && test(found) && forall|j: int|
                0 <= j < i ==> !test(items[j]),
    decreases items.len(),
{
    if items.len() > 0 {
        let rest = items.drop_first();
        lemma_first_of(rest, test);
        if test(items[0]) {
            assert(items[0] == first_of(items, test)->0);
        } else {
            assert forall|j: int| 0 <= j < rest.len() implies rest[j] == items[j + 1] by {}
            if first_of(rest, test) is None {
                assert forall|i: int| 0 <= i < items.len() implies !test(items[i]) by {
                    if i > 0 {
                        assert(!test(rest[i - 1]));
                    }
                }
            } else {
                let found = first_of(rest, test)->0;
                let k = choose|i: int|
                    0 <= i < rest.len() && rest[i] == found && test(found) && forall|j: int|
                        0 <= j < i ==> !test(rest[j]);
                assert(items[k + 1] == found);
                assert forall|j: int| 0 <= j < k + 1 implies !test(items[j]) by {
                    if j > 0 {
                        assert(!test(rest[j - 1]));
                    }
                }
                assert(test(items[k + 1]));
            }
        }
    }
}

/// A selection holds exactly the items that meet the test, in the order in
/// which they stand among all: an item is selected if and only if it is
/// among the items and meets the test.
pub proof fn lemma_selection_is_exact<A>(items: Seq<A>, test: spec_fn(A) -> bool, item: A)
    ensures
        items.filter(test).contains(item) <==> items.contains(item) && test(item),
{
    if items.filter(test).contains(item) {
        items.lemma_filter_contains_rev(test, item);
        let k = choose|k: int| 0 <= k < items.filter(test).len() && items.filter(test)[k] == item;
        items.lemma_filter_pred(test, k);
    }
    if items.contains(item) && test(item) {
        let k = choose|k: int| 0 <= k < items.len() && items[k] == item;
        items.lemma_filter_contains(test, k);
    }
}

/// The item at a position is the first that meets a test if it meets the
/// test and no item before it does.
pub proof fn lemma_first_of_at<A>(items: Seq<A>, test: spec_fn(A) -> bool, at: int)
    requires
        0 <= at < items.len(),
        test(items[at]),
        forall|j: int| 0 <= j < at ==> !test(items[j]),
    ensures
        first_of(items, test) == Some(items[at]),
    decreases items.len(),
{
    if at > 0 {
        let rest = items.drop_first();
        assert(!test(items[0]));
        assert(rest[at - 1] == items[at]);
        assert forall|j: int| 0 <= j < at - 1 implies !test(rest[j]) by {
            assert(rest[j] == items[j + 1]);
        }
        lemma_first_of_at(rest, test, at - 1);
    }
}

} // verus!

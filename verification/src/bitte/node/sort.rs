//! Sorting nodes by name.

use vstd::prelude::*;
use vstd::string::*;
use crate::bitte::node::{BitteNode, BitteNodeView, BitteNodes};
use crate::text::{
    lemma_equal_order_is_same_text, lemma_order_is_total, lemma_order_is_transitive, not_after,
    text_order, TextOrder,
};

verus! {

/// Where `node` goes into `sorted`: behind the last node whose name does not
/// come after its own.
pub open spec fn place(sorted: Seq<BitteNodeView>, node: BitteNodeView) -> int
    decreases sorted.len(),
{
    if sorted.len() == 0 {
        0
    } else if not_after(sorted.last().name, node.name) {
        sorted.len() as int
    } else {
        place(sorted.drop_last(), node)
    }
}

/// The nodes `nodes` in the order of their names; nodes of one name keep
/// the order that they have in `nodes`.
pub open spec fn sort_by_name(nodes: Seq<BitteNodeView>) -> Seq<BitteNodeView>
    decreases nodes.len(),
{
    if nodes.len() == 0 {
        Seq::empty()
    } else {
        let sorted = sort_by_name(nodes.drop_last());
        sorted.insert(place(sorted, nodes.last()), nodes.last())
    }
}

/// Whether no node of `nodes` stands before one whose name comes before its
/// own.
pub open spec fn ordered(nodes: Seq<BitteNodeView>) -> bool {
    forall|i: int, j: int|
        0 <= i < j < nodes.len() ==> not_after(#[trigger] nodes[i].name, #[trigger] nodes[j].name)
}

/// The test that a node has the name `name`.
pub open spec fn named(name: Seq<char>) -> spec_fn(BitteNodeView) -> bool {
    |node: BitteNodeView| node.name == name
}

/// A node goes behind the nodes whose names do not come after its own, and
/// before nodes whose names come after it.
pub proof fn lemma_place(sorted: Seq<BitteNodeView>, node: BitteNodeView)
    ensures
        0 <= place(sorted, node) <= sorted.len(),
        forall|k: int|
            place(sorted, node) <= k < sorted.len() ==> !not_after(
                (#[trigger] sorted[k]).name,
                node.name,
            ),
        place(sorted, node) > 0 ==> not_after(sorted[place(sorted, node) - 1].name, node.name),
    decreases sorted.len(),
{
    if sorted.len() > 0 && !not_after(sorted.last().name, node.name) {
        lemma_place(sorted.drop_last(), node);
        assert forall|k: int| place(sorted, node) <= k < sorted.len() implies !not_after(
            (#[trigger] sorted[k]).name,
            node.name,
        ) by {
            if k < sorted.len() - 1 {
                assert(sorted.drop_last()[k] == sorted[k]);
            }
        }
        if place(sorted, node) > 0 {
            assert(sorted.drop_last()[place(sorted, node) - 1] == sorted[place(sorted, node) - 1]);
        }
    }
}

/// Sorted nodes are ordered by name.
pub proof fn lemma_sorted_is_ordered(nodes: Seq<BitteNodeView>)
    ensures
        ordered(sort_by_name(nodes)),
        sort_by_name(nodes).len() == nodes.len(),
    decreases nodes.len(),
{
    if nodes.len() > 0 {
        let sorted = sort_by_name(nodes.drop_last());
        let node = nodes.last();
        let p = place(sorted, node);
        let result = sorted.insert(p, node);
        lemma_sorted_is_ordered(nodes.drop_last());
        lemma_place(sorted, node);
        assert forall|i: int, j: int| 0 <= i < j < result.len() implies not_after(
            #[trigger] result[i].name,
            #[trigger] result[j].name,
        ) by {
            if j < p {
                assert(result[i] == sorted[i] && result[j] == sorted[j]);
            } else if j == p {
                assert(result[i] == sorted[i]);
                assert(not_after(sorted[i].name, sorted[p - 1].name)) by {
                    if i < p - 1 {
                        assert(not_after(sorted[i].name, sorted[p - 1].name));
                    } else {
                        lemma_order_is_total(sorted[i].name, sorted[i].name);
                        lemma_equal_order_is_same_text(sorted[i].name, sorted[i].name);
                    }
                }
                lemma_order_is_transitive(sorted[i].name, sorted[p - 1].name, node.name);
            } else if i < p {
                assert(result[i] == sorted[i] && result[j] == sorted[j - 1]);
            } else if i == p {
                assert(result[j] == sorted[j - 1]);
                assert(!not_after(sorted[j - 1].name, node.name));
                lemma_order_is_total(sorted[j - 1].name, node.name);
            } else {
                assert(result[i] == sorted[i - 1] && result[j] == sorted[j - 1]);
            }
        }
    }
}

/// Sorting moves no node past another of the same name: the nodes of each
/// name are the same before and after, in the same order. So sorting neither
/// drops a node nor makes one up.
pub proof fn lemma_sorted_keeps_each_name(nodes: Seq<BitteNodeView>, name: Seq<char>)
    ensures
        sort_by_name(nodes).filter(named(name)) == nodes.filter(named(name)),
    decreases nodes.len(),
{
    reveal(Seq::filter);
    if nodes.len() > 0 {
        let sorted = sort_by_name(nodes.drop_last());
        let node = nodes.last();
        let p = place(sorted, node);
        let test = named(name);
        lemma_sorted_keeps_each_name(nodes.drop_last(), name);
        lemma_sorted_is_ordered(nodes.drop_last());
        lemma_place(sorted, node);
        let front = sorted.take(p);
        let back = sorted.skip(p);
        assert(sorted =~= front + back);
        assert(sorted.insert(p, node) =~= front.push(node) + back);
        Seq::filter_distributes_over_add(front, back, test);
        Seq::filter_distributes_over_add(front.push(node), back, test);
        front.lemma_filter_push(node, test);
        if test(node) {
            assert forall|k: int| 0 <= k < back.len() implies !test(#[trigger] back[k]) by {
                assert(back[k] == sorted[p + k]);
                if back[k].name == node.name {
                    lemma_equal_order_is_same_text(back[k].name, node.name);
                }
            }
            back.lemma_all_neg_filter_empty(test);
            assert(back.filter(test) =~= Seq::empty());
            assert(front.filter(test) + Seq::<BitteNodeView>::empty() =~= front.filter(test));
            assert(front.filter(test).push(node) + Seq::<BitteNodeView>::empty()
                =~= front.filter(test).push(node));
        }
    }
}

/// Sorts nodes by name. Nodes of one name keep their order.
pub fn sort_nodes(nodes: BitteNodes) -> (sorted: BitteNodes)
    ensures
        sorted.deep_view() == sort_by_name(nodes.deep_view()),
{
    let ghost all = nodes.deep_view();
    let ghost items = nodes@;
    let mut sorted: BitteNodes = Vec::new();
    proof {
        assert(all.take(0) =~= Seq::<BitteNodeView>::empty());
        assert(sorted.deep_view() =~= sort_by_name(all.take(0)));
    }
    for node in it: nodes.into_iter()
        invariant
            it.seq() == items,
            items == nodes@,
            all == nodes.deep_view(),
            sorted.deep_view() == sort_by_name(all.take(it.index() as int)),
    {
        let ghost before = sorted.deep_view();
        proof {
            let upto = all.take(it.index() + 1);
            assert(upto.drop_last() =~= all.take(it.index() as int));
            assert(upto.last() == node@);
        }
        let mut p: usize = sorted.len();
        proof {
            assert(before.take(p as int) =~= before);
        }
        while p > 0 && is_after(&sorted[p - 1], &node)
            invariant
                p <= sorted.len(),
                before == sorted.deep_view(),
                place(before, node@) == place(before.take(p as int), node@),
            decreases p,
        {
            proof {
                let upto = before.take(p as int);
                assert(upto.last() == sorted[p - 1]@);
                assert(upto.drop_last() =~= before.take(p - 1));
            }
            p -= 1;
        }
        proof {
            let upto = before.take(p as int);
            if p > 0 {
                assert(upto.last() == sorted[p - 1]@);
            }
            assert(place(before, node@) == p);
        }
        sorted.insert(p, node);
        assert(sorted.deep_view() =~= before.insert(p as int, node@));
    }
    proof {
        assert(all.take(all.len() as int) =~= all);
    }
    sorted
}

/// Whether the name of `a` comes after the name of `b`.
fn is_after(a: &BitteNode, b: &BitteNode) -> (after: bool)
    ensures
        after == !not_after(a@.name, b@.name),
{
    match text_order(a.name.as_str(), b.name.as_str()) {
        TextOrder::Greater => true,
        _ => false,
    }
}

} // verus!

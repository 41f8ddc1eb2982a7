//! The order of nodes: by name, and by nothing else.

use std::cmp::Ordering;
use vstd::prelude::*;
use vstd::std_specs::cmp::{PartialEqSpec, PartialOrdSpec};
use crate::bitte::node::{BitteNode, BitteNodeView};
use crate::text::{lemma_equal_order_is_same_text, lex_order, text_order, TextOrder};

verus! {

/// How `a` stands to `b`: as their names stand in the lexicographic order.
pub open spec fn node_order(a: BitteNodeView, b: BitteNodeView) -> Ordering {
    match lex_order(a.name, b.name) {
        TextOrder::Less => Ordering::Less,
        TextOrder::Equal => Ordering::Equal,
        TextOrder::Greater => Ordering::Greater,
    }
}

impl BitteNode {
    /// Compares two nodes by name.
    pub fn cmp(&self, other: &Self) -> (order: Ordering)
        ensures
            order == node_order(self@, other@),
    {
        match text_order(self.name.as_str(), other.name.as_str()) {
            TextOrder::Less => Ordering::Less,
            TextOrder::Equal => Ordering::Equal,
            TextOrder::Greater => Ordering::Greater,
        }
    }
}

impl PartialOrd for BitteNode {
    fn partial_cmp(&self, other: &Self) -> (order: Option<Ordering>) {
        Some(self.cmp(other))
    }
}

impl vstd::std_specs::cmp::PartialOrdSpecImpl for BitteNode {
    open spec fn obeys_partial_cmp_spec() -> bool {
        true
    }

    open spec fn partial_cmp_spec(&self, other: &Self) -> Option<Ordering> {
        Some(node_order(self@, other@))
    }
}

impl PartialEq for BitteNode {
    fn eq(&self, other: &Self) -> (same: bool) {
        self.name == other.name
    }
}

impl vstd::std_specs::cmp::PartialEqSpecImpl for BitteNode {
    open spec fn obeys_eq_spec() -> bool {
        true
    }

    open spec fn eq_spec(&self, other: &Self) -> bool {
        self.name@ == other.name@
    }
}

impl Eq for BitteNode {

}

/// Two nodes of one name are equal and stand equal in the order, whatever
/// their ids, their addresses and their other fields are; and two nodes that
/// stand equal in the order have one name.
pub proof fn lemma_same_name_is_equal(a: BitteNode, b: BitteNode)
    ensures
        a@.name == b@.name <==> a.eq_spec(&b),
        a@.name == b@.name <==> a.partial_cmp_spec(&b) == Some(Ordering::Equal),
{
    lemma_equal_order_is_same_text(a@.name, b@.name);
}

} // verus!

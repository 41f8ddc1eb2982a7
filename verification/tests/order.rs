use std::cmp::Ordering;

use bitte::address::IpAddress;
use bitte::bitte::node::sort::sort_nodes;
use bitte::bitte::node::BitteNode;
use bitte::text::{text_order, TextOrder};

fn node(id: &str, name: &str, last: u8) -> BitteNode {
    BitteNode {
        id: id.to_string(),
        name: name.to_string(),
        priv_ip: IpAddress::v4(10, 0, 0, last),
        pub_ip: IpAddress::v4(52, 0, 0, last),
        nixos: String::new(),
        nomad_client: None,
        node_type: None,
        zone: None,
        asg: None,
    }
}

fn as_std(order: TextOrder) -> Ordering {
    match order {
        TextOrder::Less => Ordering::Less,
        TextOrder::Equal => Ordering::Equal,
        TextOrder::Greater => Ordering::Greater,
    }
}

#[test]
fn nodes_of_one_name_are_equal_whatever_else_differs() {
    let a = node("i-1", "core-1", 4);
    let b = node("i-2", "core-1", 5);
    assert!(a == b);
    assert_eq!(a.cmp(&b), Ordering::Equal);
    assert_eq!(a.partial_cmp(&b), Some(Ordering::Equal));
    assert!(!(a < b) && !(a > b));
}

#[test]
fn nodes_of_different_names_are_ordered_by_name() {
    let a = node("i-9", "core-1", 9);
    let b = node("i-1", "core-2", 1);
    assert!(a != b);
    assert!(a < b);
    assert_eq!(a.cmp(&b), Ordering::Less);
    assert_eq!(b.cmp(&a), Ordering::Greater);
    assert_eq!(b.partial_cmp(&a), Some(Ordering::Greater));
}

#[test]
fn a_name_comes_before_the_names_that_it_begins() {
    assert!(node("i", "core", 1) < node("i", "core-1", 1));
    assert!(node("i", "", 1) < node("i", "a", 1));
    assert_eq!(node("i", "", 1).cmp(&node("j", "", 2)), Ordering::Equal);
}

#[test]
fn names_are_ordered_by_code_point_not_by_number() {
    assert!(node("i", "client-10", 1) < node("i", "client-9", 1));
    assert!(node("i", "Zeta", 1) < node("i", "alpha", 1));
}

#[test]
fn text_order_agrees_with_the_standard_order_of_strings() {
    let words = [
        "", "a", "A", "ab", "abc", "abd", "b", "core-1", "core-10", "core-2", "\u{e9}", "e",
        "z", "\u{1F600}", "\u{ffff}", "~", "zz", " ", "0", "9", "10",
    ];
    for a in words {
        for b in words {
            assert_eq!(as_std(text_order(a, b)), a.cmp(b), "{:?} and {:?}", a, b);
        }
    }
}

#[test]
fn sorting_orders_by_name_and_keeps_equal_names_in_place() {
    let nodes = vec![
        node("i-1", "delta", 1),
        node("i-2", "alpha", 2),
        node("i-3", "charlie", 3),
        node("i-4", "alpha", 4),
        node("i-5", "bravo", 5),
        node("i-6", "alpha", 6),
        node("i-7", "charlie", 7),
    ];
    let sorted = sort_nodes(nodes);
    let ids: Vec<&str> = sorted.iter().map(|n| n.id.as_str()).collect();
    assert_eq!(ids, vec!["i-2", "i-4", "i-6", "i-5", "i-3", "i-7", "i-1"]);
}

#[test]
fn sorting_agrees_with_the_standard_stable_sort() {
    let names = ["m", "a", "z", "a", "k", "", "m", "b", "zz", "a", "k", "B"];
    let make = || -> Vec<BitteNode> {
        names.iter().enumerate().map(|(i, n)| node(&format!("i-{}", i), n, 0)).collect()
    };
    let mut expected = make();
    expected.sort_by(|a, b| a.name.cmp(&b.name));
    let sorted = sort_nodes(make());
    let got: Vec<&str> = sorted.iter().map(|n| n.id.as_str()).collect();
    let want: Vec<&str> = expected.iter().map(|n| n.id.as_str()).collect();
    assert_eq!(got, want);
}

#[test]
fn sorting_nothing_gives_nothing() {
    assert!(sort_nodes(Vec::new()).is_empty());
}

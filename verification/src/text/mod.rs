//! Small operations on text.

pub mod digits;
pub mod once;
pub mod order;

use vstd::prelude::*;
use vstd::string::*;

pub use digits::{
    all_digits, decimal, decimal_u32, is_ascii_digit, is_digit, lemma_decimal_grows, parse_digits,
    parse_u32, unsigned_decimal,
};
pub use once::{
    distinct, distinct_texts, has_text, lemma_distinct_counts_the_set,
    lemma_distinct_has_no_repetition, push_distinct,
};
pub use order::{
    lemma_equal_order_is_same_text, lemma_order_is_total, lemma_order_is_transitive, lex_order,
    not_after, text_order, TextOrder,
};

verus! {

/// Whether two texts hold the same characters.
pub fn same_text(a: &str, b: &str) -> (same: bool)
    ensures
        same == (a@ == b@),
{
    let left = a.to_owned();
    let right = b.to_owned();
    left == right
}

/// Whether a text that may be missing is there and holds the characters of
/// `b`.
pub fn holds_text(a: &Option<String>, b: &str) -> (same: bool)
    ensures
        same == (a.deep_view() == Some(b@)),
{
    match a {
        Some(text) => same_text(text.as_str(), b),
        None => false,
    }
}

/// Copies a text that may be missing.
pub fn copy_text(a: &Option<String>) -> (copy: Option<String>)
    ensures
        copy.deep_view() == a.deep_view(),
{
    match a {
        Some(text) => Some(text.clone()),
        None => None,
    }
}

/// The text itself where there is one, the empty text where there is none.
pub open spec fn or_empty(a: Option<Seq<char>>) -> Seq<char> {
    match a {
        Some(text) => text,
        None => Seq::empty(),
    }
}

/// Copies a text that may be missing, with the empty text for a missing one.
pub fn copy_or_empty(a: &Option<String>) -> (copy: String)
    ensures
        copy@ == or_empty(a.deep_view()),
{
    match a {
        Some(text) => text.clone(),
        None => String::new(),
    }
}

/// Joins three texts.
pub fn join3(a: &str, b: &str, c: &str) -> (joined: String)
    ensures
        joined@ == a@ + b@ + c@,
{
    let mut joined = a.to_owned();
    joined.append(b);
    joined.append(c);
    joined
}

} // verus!

//! The lexicographic order of texts.

use vstd::prelude::*;
use vstd::string::*;

verus! {

/// How one text stands to another in an order.
#[derive(Clone, Copy, Debug, PartialEq, Eq, Structural)]
pub enum TextOrder {
    Less,
    Equal,
    Greater,
}

/// The lexicographic order of two texts by the code points of their
/// characters: the first position at which they differ decides, and a text
/// comes before every text that it begins.
pub open spec fn lex_order(a: Seq<char>, b: Seq<char>) -> TextOrder
    decreases a.len(),
{
    if a.len() == 0 {
        if b.len() == 0 {
            TextOrder::Equal
        } else {
            TextOrder::Less
        }
    } else if b.len() == 0 {
        TextOrder::Greater
    } else if a[0] < b[0] {
        TextOrder::Less
    } else if a[0] > b[0] {
        TextOrder::Greater
    } else {
        lex_order(a.drop_first(), b.drop_first())
    }
}

/// Compares two texts lexicographically.
pub fn text_order(a: &str, b: &str) -> (order: TextOrder)
    ensures
        order == lex_order(a@, b@),
{
    let n = a.unicode_len();
    let m = b.unicode_len();
    let mut i: usize = 0;
    proof {
        assert(a@.skip(0) =~= a@);
        assert(b@.skip(0) =~= b@);
    }
    while i < n && i < m
        invariant
            i <= n == a@.len(),
            i <= m == b@.len(),
            lex_order(a@, b@) == lex_order(a@.skip(i as int), b@.skip(i as int)),
        decreases n - i,
    {
        let x = a.get_char(i);
        let y = b.get_char(i);
        proof {
            assert(a@.skip(i as int)[0] == x);
            assert(b@.skip(i as int)[0] == y);
            assert(a@.skip(i as int).drop_first() =~= a@.skip(i + 1));
            assert(b@.skip(i as int).drop_first() =~= b@.skip(i + 1));
        }
        if x < y {
            return TextOrder::Less;
        }
        if x > y {
            return TextOrder::Greater;
        }
        i += 1;
    }
    if n == m {
        TextOrder::Equal
    } else if i == n {
        TextOrder::Less
    } else {
        TextOrder::Greater
    }
}

/// Whether `a` does not come after `b` in the lexicographic order.
pub open spec fn not_after(a: Seq<char>, b: Seq<char>) -> bool {
    lex_order(a, b) != TextOrder::Greater
}

/// The lexicographic order is total: one of two texts does not come after
/// the other, and a text comes after another exactly when that one comes
/// before it.
pub proof fn lemma_order_is_total(a: Seq<char>, b: Seq<char>)
    ensures
        lex_order(a, b) == TextOrder::Greater <==> lex_order(b, a) == TextOrder::Less,
        lex_order(a, b) == TextOrder::Equal <==> lex_order(b, a) == TextOrder::Equal,
    decreases a.len(),
{
    if a.len() > 0 && b.len() > 0 {
        lemma_order_is_total(a.drop_first(), b.drop_first());
    }
}

/// The lexicographic order is transitive.
pub proof fn lemma_order_is_transitive(a: Seq<char>, b: Seq<char>, c: Seq<char>)
    requires
        not_after(a, b),
        not_after(b, c),
    ensures
        not_after(a, c),
    decreases a.len(),
{
    if a.len() > 0 && b.len() > 0 && c.len() > 0 {
        if a[0] == b[0] && b[0] == c[0] {
            lemma_order_is_transitive(a.drop_first(), b.drop_first(), c.drop_first());
        }
    }
}

/// Two texts stand equal in the lexicographic order exactly when they are the
/// same text.
pub proof fn lemma_equal_order_is_same_text(a: Seq<char>, b: Seq<char>)
    ensures
        lex_order(a, b) == TextOrder::Equal <==> a == b,
    decreases a.len(),
{
    if a.len() == 0 || b.len() == 0 {
        if a.len() == 0 && b.len() == 0 {
            assert(a =~= b);
        }
    } else {
        lemma_equal_order_is_same_text(a.drop_first(), b.drop_first());
        if a[0] == b[0] && a.drop_first() == b.drop_first() {
            assert(a =~= seq![a[0]] + a.drop_first());
            assert(b =~= seq![b[0]] + b.drop_first());
        }
    }
}

} // verus!

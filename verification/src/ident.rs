//! Scheduler identifiers and their canonical text.

use vstd::prelude::*;

verus! {

/// The sixteen lower-case hexadecimal digits, in order of value.
pub open spec fn hex_digits() -> Seq<char> {
    seq!['0', '1', '2', '3', '4', '5', '6', '7', '8', '9', 'a', 'b', 'c', 'd', 'e', 'f']
}

/// The last `count` hexadecimal digits of `value`, most significant first,
/// in lower case.
pub open spec fn hex(value: nat, count: nat) -> Seq<char>
    decreases count,
{
    if count == 0 {
        Seq::empty()
    } else {
        hex(value / 16, (count - 1) as nat).push(hex_digits()[(value % 16) as int])
    }
}

/// The hyphenated text of a 128-bit identifier: its 32 hexadecimal digits in
/// lower case, most significant first, in groups of 8, 4, 4, 4 and 12 that
/// hyphens separate.
pub open spec fn hyphenated_text(id: u128) -> Seq<char> {
    let digits = hex(id as nat, 32);
    digits.subrange(0, 8) + seq!['-'] + digits.subrange(8, 12) + seq!['-'] + digits.subrange(
        12,
        16,
    ) + seq!['-'] + digits.subrange(16, 20) + seq!['-'] + digits.subrange(20, 32)
}

/// As many hexadecimal digits are given as are asked for.
pub proof fn lemma_hex_len(value: nat, count: nat)
    ensures
        hex(value, count).len() == count,
    decreases count,
{
    if count > 0 {
        lemma_hex_len(value / 16, (count - 1) as nat);
    }
}

/// A hyphenated text has 36 characters, and its hyphens stand behind the
/// 8th, the 12th, the 16th and the 20th digit.
pub proof fn lemma_hyphenated_shape(id: u128)
    ensures
        hyphenated_text(id).len() == 36,
        hyphenated_text(id)[8] == '-',
        hyphenated_text(id)[13] == '-',
        hyphenated_text(id)[18] == '-',
        hyphenated_text(id)[23] == '-',
{
    lemma_hex_len(id as nat, 32);
}

/// Renders an identifier as hyphenated text.
///
/// Trusted: calls `uuid::Uuid::from_u128`, `Uuid::hyphenated` and the
/// `to_string` of the result. The contract claims that the text is the 32
/// lower-case hexadecimal digits of the value, most significant first, with
/// hyphens after the 8th, 12th, 16th and 20th digit.
#[verifier::external_body]
pub(crate) fn hyphenated(id: u128) -> (text: String)
    ensures
        text@ == hyphenated_text(id),
{
    uuid::Uuid::from_u128(id).hyphenated().to_string()
}

} // verus!

//! Numbers spelled in decimal digits.

use vstd::prelude::*;
use vstd::string::*;

verus! {

/// Whether `c` is one of the ten ASCII digits.
pub open spec fn is_digit(c: char) -> bool {
    '0' <= c <= '9'
}

/// Whether `c` is one of the ten ASCII digits.
pub fn is_ascii_digit(c: char) -> (digit: bool)
    ensures
        digit == is_digit(c),
{
    c >= '0' && c <= '9'
}

/// Whether `text` holds ASCII digits only.
pub open spec fn all_digits(text: Seq<char>) -> bool {
    forall|i: int| 0 <= i < text.len() ==> is_digit(#[trigger] text[i])
}

/// The number that the ASCII digits `digits` spell in base ten.
pub open spec fn decimal(digits: Seq<char>) -> int
    decreases digits.len(),
{
    if digits.len() == 0 {
        0
    } else {
        decimal(digits.drop_last()) * 10 + (digits.last() as int - '0' as int)
    }
}

/// The number that `digits` spells, where it is one or more ASCII digits and
/// the number fits in 32 bits.
pub open spec fn decimal_u32(digits: Seq<char>) -> Option<u32> {
    if digits.len() > 0 && all_digits(digits) && decimal(digits) <= u32::MAX {
        Some(decimal(digits) as u32)
    } else {
        None
    }
}

/// The number that `text` spells as an unsigned integer: one or more ASCII
/// digits, which a single `+` may precede.
pub open spec fn unsigned_decimal(text: Seq<char>) -> Option<u32> {
    if text.len() > 0 && text[0] == '+' {
        decimal_u32(text.drop_first())
    } else {
        decimal_u32(text)
    }
}

/// A number spelled by digits is not negative, and no shorter beginning of
/// the digits spells a greater one.
pub proof fn lemma_decimal_grows(digits: Seq<char>, k: int)
    requires
        all_digits(digits),
        0 <= k <= digits.len(),
    ensures
        0 <= decimal(digits.take(k)) <= decimal(digits),
    decreases digits.len(),
{
    if digits.len() == 0 {
        assert(digits.take(k) =~= digits);
    } else if k == digits.len() {
        assert(digits.take(k) =~= digits);
        assert(is_digit(digits.last()));
        lemma_decimal_grows(digits.drop_last(), k - 1);
        assert(digits.drop_last().take(k - 1) =~= digits.drop_last());
    } else {
        assert(is_digit(digits.last()));
        lemma_decimal_grows(digits.drop_last(), k);
        assert(digits.drop_last().take(k) =~= digits.take(k));
    }
}

/// Reads the characters of `text` from position `from` up to `to` as a
/// number in base ten.
pub fn parse_digits(text: &str, from: usize, to: usize) -> (value: Option<u32>)
    requires
        from <= to <= text@.len(),
    ensures
        value == decimal_u32(text@.subrange(from as int, to as int)),
{
    let ghost digits = text@.subrange(from as int, to as int);
    if from == to {
        return None;
    }
    let mut value: u32 = 0;
    let mut i: usize = from;
    proof {
        assert(digits.take(0) =~= Seq::<char>::empty());
    }
    while i < to
        invariant
            from <= i <= to <= text@.len(),
            digits == text@.subrange(from as int, to as int),
            all_digits(digits.take(i - from)),
            value == decimal(digits.take(i - from)),
        decreases to - i,
    {
        let c = text.get_char(i);
        let ghost seen = digits.take(i - from);
        proof {
            assert(digits[i - from] == c);
            assert(digits.take(i - from + 1) =~= seen.push(c));
            assert(seen.push(c).drop_last() =~= seen);
        }
        if !is_ascii_digit(c) {
            return None;
        }
        let digit: u64 = (c as u64) - ('0' as u64);
        let next: u64 = (value as u64) * 10 + digit;
        proof {
            assert forall|j: int| 0 <= j < seen.push(c).len() implies is_digit(
                #[trigger] seen.push(c)[j],
            ) by {
                if j < seen.len() {
                    assert(seen.push(c)[j] == seen[j]);
                }
            }
        }
        if next > u32::MAX as u64 {
            proof {
                if all_digits(digits) {
                    lemma_decimal_grows(digits, i - from + 1);
                }
            }
            return None;
        }
        value = next as u32;
        i += 1;
    }
    proof {
        assert(digits.take(to - from) =~= digits);
    }
    Some(value)
}

/// Reads `text` as an unsigned integer in base ten, as the standard
/// library's parser of `u32` does: digits only, but for one leading `+`.
pub fn parse_u32(text: &str) -> (value: Option<u32>)
    ensures
        value == unsigned_decimal(text@),
{
    let len = text.unicode_len();
    if len > 0 && text.get_char(0) == '+' {
        assert(text@.subrange(1, len as int) =~= text@.drop_first());
        parse_digits(text, 1, len)
    } else {
        assert(text@.subrange(0, len as int) =~= text@);
        parse_digits(text, 0, len)
    }
}

} // verus!

//! Lists of texts without repetitions.

use vstd::prelude::*;
use vstd::string::*;
use crate::text::same_text;

verus! {

/// The texts of `list` without repetitions: each text stands where it first
/// occurs in `list`.
pub open spec fn distinct(list: Seq<Seq<char>>) -> Seq<Seq<char>>
    decreases list.len(),
{
    if list.len() == 0 {
        Seq::empty()
    } else {
        let rest = distinct(list.drop_last());
        if rest.contains(list.last()) {
            rest
        } else {
            rest.push(list.last())
        }
    }
}

/// Whether `list` holds the text `wanted`.
pub fn has_text(list: &Vec<String>, wanted: &str) -> (found: bool)
    ensures
        found == list.deep_view().contains(wanted@),
{
    let mut i: usize = 0;
    while i < list.len()
        invariant
            i <= list.len(),
            forall|j: int| 0 <= j < i ==> list.deep_view()[j] != wanted@,
        decreases list.len() - i,
    {
        if same_text(list[i].as_str(), wanted) {
            assert(list.deep_view()[i as int] == wanted@);
            return true;
        }
        i += 1;
    }
    false
}

/// Adds the text `next` to `seen` unless `seen` holds it already.
pub fn push_distinct(seen: &mut Vec<String>, next: &str)
    ensures
        final(seen).deep_view() == if old(seen).deep_view().contains(next@) {
            old(seen).deep_view()
        } else {
            old(seen).deep_view().push(next@)
        },
{
    if !has_text(seen, next) {
        let ghost before = seen.deep_view();
        seen.push(next.to_owned());
        assert(seen.deep_view() =~= before.push(next@));
    }
}

/// A list without repetitions holds no text twice, and it holds the texts
/// of the list that it was made from, and no others.
pub proof fn lemma_distinct_has_no_repetition(list: Seq<Seq<char>>)
    ensures
        forall|i: int, j: int|
            0 <= i < j < distinct(list).len() ==> distinct(list)[i] != distinct(list)[j],
        forall|text: Seq<char>| distinct(list).contains(text) <==> list.contains(text),
    decreases list.len(),
{
    if list.len() > 0 {
        let front = list.drop_last();
        let rest = distinct(front);
        lemma_distinct_has_no_repetition(front);
        assert forall|text: Seq<char>| distinct(list).contains(text) <==> list.contains(
            text,
        ) by {
            assert(rest.contains(text) <==> front.contains(text));
            if list.contains(text) {
                let k = choose|k: int| 0 <= k < list.len() && list[k] == text;
                if k < list.len() - 1 {
                    assert(front[k] == text);
                    let r = choose|r: int| 0 <= r < rest.len() && rest[r] == text;
                    assert(distinct(list)[r] == text);
                } else if rest.contains(list.last()) {
                    let r = choose|r: int| 0 <= r < rest.len() && rest[r] == text;
                    assert(distinct(list)[r] == text);
                } else {
                    assert(distinct(list)[rest.len() as int] == text);
                }
            }
            if distinct(list).contains(text) {
                let r = choose|r: int| 0 <= r < distinct(list).len() && distinct(list)[r] == text;
                if r < rest.len() {
                    assert(rest[r] == text);
                    let k = choose|k: int| 0 <= k < front.len() && front[k] == text;
                    assert(list[k] == text);
                } else {
                    assert(list[list.len() - 1] == text);
                }
            }
        }
        assert forall|i: int, j: int| 0 <= i < j < distinct(list).len() implies distinct(
            list,
        )[i] != distinct(list)[j] by {
            if j < rest.len() {
                assert(rest[i] != rest[j]);
            } else {
                assert(rest[i] == distinct(list)[i]);
                assert(rest.contains(rest[i]));
            }
        }
    }
}

/// A list without repetitions is as long as the set of the texts of the list
/// that it was made from is large.
pub proof fn lemma_distinct_counts_the_set(list: Seq<Seq<char>>)
    ensures
        distinct(list).no_duplicates(),
        distinct(list).to_set() == list.to_set(),
        distinct(list).len() == list.to_set().len(),
{
    lemma_distinct_has_no_repetition(list);
    assert(distinct(list).no_duplicates()) by {
        assert forall|i: int, j: int|
            0 <= i < distinct(list).len() && 0 <= j < distinct(list).len() && i != j implies distinct(
            list,
        )[i] != distinct(list)[j] by {
            if i < j {
                assert(distinct(list)[i] != distinct(list)[j]);
            } else {
                assert(distinct(list)[j] != distinct(list)[i]);
            }
        }
    }
    assert(distinct(list).to_set() =~= list.to_set());
    distinct(list).unique_seq_to_set();
}

/// The texts of `list` without repetitions.
pub fn distinct_texts(list: &Vec<String>) -> (once: Vec<String>)
    ensures
        once.deep_view() == distinct(list.deep_view()),
{
    let mut once: Vec<String> = Vec::new();
    let mut i: usize = 0;
    assert(once.deep_view() =~= distinct(list.deep_view().take(0)));
    while i < list.len()
        invariant
            i <= list.len(),
            once.deep_view() == distinct(list.deep_view().take(i as int)),
        decreases list.len() - i,
    {
        proof {
            let upto = list.deep_view().take(i + 1);
            assert(upto.drop_last() =~= list.deep_view().take(i as int));
            assert(upto.last() == list[i as int]@);
        }
        push_distinct(&mut once, list[i].as_str());
        i += 1;
    }
    assert(list.deep_view().take(list.len() as int) =~= list.deep_view());
    once
}

} // verus!

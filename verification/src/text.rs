//! The two text operations of the standard library that the merger needs,
//! with what they compute stated over sequences of characters.

use vstd::prelude::*;

verus! {

/// The texts of a sequence of strings, in order.
pub open spec fn texts(strings: Seq<String>) -> Seq<Seq<char>> {
    Seq::new(strings.len(), |i: int| strings[i]@)
}

/// `text` with every occurrence of `from` replaced by the characters of `to`.
pub open spec fn replaced(text: Seq<char>, from: char, to: Seq<char>) -> Seq<char>
    decreases text.len(),
{
    if text.len() == 0 {
        Seq::empty()
    } else {
        replaced(text.drop_last(), from, to) + (if text.last() == from {
            to
        } else {
            seq![text.last()]
        })
    }
}

/// Replacing a character by text that is free of it leaves none behind.
pub proof fn lemma_replaced_is_free(text: Seq<char>, from: char, to: Seq<char>)
    requires
        !to.contains(from),
    ensures
        !replaced(text, from, to).contains(from),
    decreases text.len(),
{
    if text.len() > 0 {
        lemma_replaced_is_free(text.drop_last(), from, to);
        let head = replaced(text.drop_last(), from, to);
        let tail = if text.last() == from {
            to
        } else {
            seq![text.last()]
        };
        assert forall|i: int| 0 <= i < (head + tail).len() implies (head + tail)[i] != from by {
            if i < head.len() {
                assert(head.contains(head[i]));
            } else {
                assert(tail.contains(tail[i - head.len()]));
            }
        }
    }
}

/// Trusted: `str::contains` with a character as its pattern. It answers whether
/// the character occurs anywhere in the text.
#[verifier::external_body]
pub(crate) fn contains_char(text: &str, wanted: char) -> (found: bool)
    ensures
        found == text@.contains(wanted),
{
    text.contains(wanted)
}

/// Trusted: `str::replace` with a character as its pattern. It builds a new
/// string in which every occurrence of the character has given way to `to`,
/// and everything else is kept in place.
#[verifier::external_body]
pub(crate) fn replace_char(text: &str, from: char, to: &str) -> (out: String)
    ensures
        out@ == replaced(text@, from, to@),
{
    text.replace(from, to)
}

/// `pattern` stands in `text` at position `at`.
pub open spec fn occurs_at(text: Seq<char>, pattern: Seq<char>, at: int) -> bool {
    0 <= at && at + pattern.len() <= text.len() && text.subrange(at, at + pattern.len())
        == pattern
}

/// The first position, from `from` on, at which `pattern` stands in `text`;
/// `None` where it stands nowhere from there on.
pub open spec fn first_occurrence(text: Seq<char>, pattern: Seq<char>, from: int) -> Option<int>
    decreases text.len() - from + 1,
{
    if from < 0 || from + pattern.len() > text.len() {
        None
    } else if occurs_at(text, pattern, from) {
        Some(from)
    } else {
        first_occurrence(text, pattern, from + 1)
    }
}

/// The first occurrence is an occurrence with none before it, and there is
/// none exactly when the pattern stands nowhere.
pub proof fn lemma_first_occurrence(text: Seq<char>, pattern: Seq<char>, from: int)
    requires
        0 <= from,
    ensures
        match first_occurrence(text, pattern, from) {
            Some(at) => {
                &&& from <= at
                &&& occurs_at(text, pattern, at)
                &&& forall|earlier: int| from <= earlier < at ==> !occurs_at(text, pattern, earlier)
            },
            None => forall|at: int| from <= at ==> !occurs_at(text, pattern, at),
        },
    decreases text.len() - from + 1,
{
    if from + pattern.len() <= text.len() && !occurs_at(text, pattern, from) {
        lemma_first_occurrence(text, pattern, from + 1);
    }
}

/// Trusted: `str::split_once` with a string as its delimiter. It cuts the text
/// at the first occurrence of the delimiter and yields what stands before it
/// and what stands after it, or nothing where the delimiter does not occur.
#[verifier::external_body]
pub(crate) fn split_once<'a>(text: &'a str, delimiter: &str) -> (parts: Option<
    (&'a str, &'a str),
>)
    ensures
        match parts {
            Some((before, after)) => {
                &&& first_occurrence(text@, delimiter@, 0) == Some(before@.len() as int)
                &&& before@ == text@.take(before@.len() as int)
                &&& after@ == text@.skip((before@.len() + delimiter@.len()) as int)
            },
            None => first_occurrence(text@, delimiter@, 0) is None,
        },
{
    text.split_once(delimiter)
}

/// Trusted: `str::starts_with` with a string as its pattern. It says
/// whether the text begins with the characters of the prefix.
#[verifier::external_body]
pub(crate) fn starts_with(text: &str, prefix: &str) -> (starts: bool)
    ensures
        starts == prefix@.is_prefix_of(text@),
{
    text.starts_with(prefix)
}

/// Trusted: `==` on string slices. Two slices are equal when they hold the
/// same characters.
#[verifier::external_body]
pub(crate) fn same_text(left: &str, right: &str) -> (same: bool)
    ensures
        same == (left@ == right@),
{
    left == right
}

} // verus!

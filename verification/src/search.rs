//! Finding one run of characters in another.

use vstd::prelude::*;
use vstd::slice::slice_subrange;

verus! {

/// Whether `needle` stands in `text` at position `at`.
pub open spec fn matches_at(text: Seq<char>, needle: Seq<char>, at: int) -> bool {
    0 <= at && at + needle.len() <= text.len() && text.subrange(at, at + needle.len()) == needle
}

/// The first position at or after `from` at which `needle` stands in `text`.
pub open spec fn match_from(text: Seq<char>, needle: Seq<char>, from: int) -> Option<int>
    decreases text.len() - from + 1,
{
    if from < 0 || from + needle.len() > text.len() {
        None
    } else if matches_at(text, needle, from) {
        Some(from)
    } else {
        match_from(text, needle, from + 1)
    }
}

/// The first position at which `needle` stands in `text`.
pub open spec fn first_match(text: Seq<char>, needle: Seq<char>) -> Option<int> {
    match_from(text, needle, 0)
}

/// Whether `needle` stands anywhere in `text`.
pub open spec fn contains(text: Seq<char>, needle: Seq<char>) -> bool {
    exists|at: int| matches_at(text, needle, at)
}

/// Whether `at` is the first position at or after `from` at which `needle`
/// stands in `text`.
pub open spec fn is_first_from(text: Seq<char>, needle: Seq<char>, from: int, at: int) -> bool {
    &&& from <= at
    &&& matches_at(text, needle, at)
    &&& forall|j: int| from <= j < at ==> !matches_at(text, needle, j)
}

/// A search finds the first occurrence.
pub proof fn lemma_match_from_finds(text: Seq<char>, needle: Seq<char>, from: int, at: int)
    requires
        0 <= from,
        is_first_from(text, needle, from, at),
    ensures
        match_from(text, needle, from) == Some(at),
    decreases at - from,
{
    if from < at {
        assert(!matches_at(text, needle, from));
        lemma_match_from_finds(text, needle, from + 1, at);
    }
}

/// What a search finds is the first occurrence.
pub proof fn lemma_match_from_found(text: Seq<char>, needle: Seq<char>, from: int)
    requires
        0 <= from,
        match_from(text, needle, from) is Some,
    ensures
        is_first_from(text, needle, from, match_from(text, needle, from).unwrap()),
    decreases text.len() - from + 1,
{
    if !matches_at(text, needle, from) {
        lemma_match_from_found(text, needle, from + 1);
    }
}

/// A search fails only where there is no occurrence.
pub proof fn lemma_match_from_none(text: Seq<char>, needle: Seq<char>, from: int)
    requires
        0 <= from,
        match_from(text, needle, from) is None,
    ensures
        forall|j: int| from <= j ==> !matches_at(text, needle, j),
    decreases text.len() - from + 1,
{
    if from + needle.len() <= text.len() {
        lemma_match_from_none(text, needle, from + 1);
    }
}

/// `first_match` is `Some` exactly where the needle occurs.
pub proof fn lemma_first_match_iff_contains(text: Seq<char>, needle: Seq<char>)
    ensures
        first_match(text, needle) is Some <==> contains(text, needle),
{
    if first_match(text, needle) is Some {
        lemma_match_from_found(text, needle, 0);
        assert(matches_at(text, needle, first_match(text, needle).unwrap()));
    } else {
        lemma_match_from_none(text, needle, 0);
    }
}

/// Whether two slices hold the same characters.
pub fn same_chars(a: &[char], b: &[char]) -> (same: bool)
    ensures
        same == (a@ == b@),
{
    if a.len() != b.len() {
        return false;
    }
    let mut i: usize = 0;
    while i < a.len()
        invariant
            a.len() == b.len(),
            i <= a.len(),
            a@.take(i as int) == b@.take(i as int),
        decreases a.len() - i,
    {
        if a[i] != b[i] {
            return false;
        }
        assert(a@.take(i + 1) == a@.take(i as int).push(a@[i as int]));
        assert(b@.take(i + 1) == b@.take(i as int).push(b@[i as int]));
        i += 1;
    }
    assert(a@.take(i as int) == a@);
    assert(b@.take(i as int) == b@);
    true
}

/// The first position at which `needle` stands in `text`.
pub fn find(text: &[char], needle: &[char]) -> (found: Option<usize>)
    ensures
        match found {
            Some(at) => first_match(text@, needle@) == Some(at as int),
            None => first_match(text@, needle@) is None,
        },
{
    if needle.len() > text.len() {
        return None;
    }
    if needle.len() == 0 {
        assert(text@.subrange(0, 0) == needle@);
        return Some(0);
    }
    let last: usize = text.len() - needle.len();
    let mut at: usize = 0;
    while at <= last
        invariant
            0 < needle.len() <= text.len(),
            last == text.len() - needle.len(),
            at <= last + 1,
            first_match(text@, needle@) == match_from(text@, needle@, at as int),
        decreases last + 1 - at,
    {
        let window = slice_subrange(text, at, at + needle.len());
        if same_chars(window, needle) {
            return Some(at);
        }
        at += 1;
    }
    None
}

} // verus!

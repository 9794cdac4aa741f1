//! The boundary with the `regex` crate: one searched pattern at a time, with
//! the outcome handed back as plain strings.

use vstd::prelude::*;

verus! {

/// The capture groups that the `regex` crate reports for the leftmost match of
/// `pattern` in `haystack`, one entry per group of the pattern with the whole
/// match at index 0; an entry is `None` where its group took no part in the
/// match. The outcome is `None` where `pattern` does not compile or matches
/// nowhere in `haystack`.
pub uninterp spec fn regex_captures(pattern: Seq<char>, haystack: Seq<char>) -> Option<
    Seq<Option<Seq<char>>>,
>;

/// Compiles `pattern` with `regex::Regex::new` and searches `haystack` with
/// `regex::Regex::captures`, copying the text of every group out of the
/// `regex::Captures` value. Nothing is proved of this function: its result is
/// taken to be what [`regex_captures`] names.
#[verifier::external_body]
pub(crate) fn captures(pattern: &str, haystack: &str) -> (groups: Option<Vec<Option<String>>>)
    ensures
        groups.deep_view() == regex_captures(pattern@, haystack@),
{
    match regex::Regex::new(pattern) {
        Ok(re) => re.captures(haystack).map(
            |found| found.iter().map(|group| group.map(|m| m.as_str().to_owned())).collect(),
        ),
        Err(_) => None,
    }
}

/// The text of group `index` in the outcome of a search, if the search found a
/// match and that group took part in it.
pub open spec fn group_text(groups: Option<Seq<Option<Seq<char>>>>, index: int) -> Option<
    Seq<char>,
> {
    match groups {
        Some(texts) => if 0 <= index < texts.len() {
            texts[index]
        } else {
            None
        },
        None => None,
    }
}

/// Copies the text of group `index` out of the outcome of a search.
pub fn take_group(groups: &Option<Vec<Option<String>>>, index: usize) -> (text: Option<String>)
    ensures
        text.deep_view() == group_text(groups.deep_view(), index as int),
{
    match groups {
        Some(texts) => if index < texts.len() {
            match &texts[index] {
                Some(text) => Some(text.clone()),
                None => None,
            }
        } else {
            None
        },
        None => None,
    }
}

} // verus!

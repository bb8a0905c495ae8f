//! Regular expressions, as the `regex` crate matches them.
//!
//! What a pattern captures in a text, and where it splits one, is a function
//! of the pattern and the text alone. It is named here and not written out:
//! the contracts that rest on it say what is done with the groups and the
//! parts, whatever they are.

use crate::text::texts;
use vstd::prelude::*;

verus! {

/// The groups that the leftmost match of `pattern` in `text` captures, the
/// whole match first and then each group in the order of its opening
/// parenthesis, a group that took no part being `None`. `None` where
/// `pattern` is no regular expression or matches nowhere in `text`.
pub uninterp spec fn regex_captures(pattern: Seq<char>, text: Seq<char>) -> Option<
    Seq<Option<Seq<char>>>,
>;

/// The parts of `text` between the successive matches of `pattern`, in
/// order. `None` where `pattern` is no regular expression.
pub uninterp spec fn regex_split(pattern: Seq<char>, text: Seq<char>) -> Option<Seq<Seq<char>>>;

/// The views of captured groups.
pub open spec fn group_views(groups: Seq<Option<String>>) -> Seq<Option<Seq<char>>> {
    Seq::new(
        groups.len(),
        |i: int|
            match groups[i] {
                Some(group) => Some(group@),
                None => None,
            },
    )
}

/// The view of what [`captures`] returns.
pub open spec fn captured_view(groups: Option<Vec<Option<String>>>) -> Option<
    Seq<Option<Seq<char>>>,
> {
    match groups {
        Some(groups) => Some(group_views(groups@)),
        None => None,
    }
}

/// The view of what [`split`] returns.
pub open spec fn split_view(parts: Option<Vec<String>>) -> Option<Seq<Seq<char>>> {
    match parts {
        Some(parts) => Some(texts(parts@)),
        None => None,
    }
}

/// Compiles `pattern` with `regex::Regex::new` and matches it against
/// `text` with `Regex::captures`; each group is copied out as a string.
/// Claimed: the result is [`regex_captures`] of the two texts.
#[verifier::external_body]
pub(crate) fn captures(pattern: &str, text: &str) -> (groups: Option<Vec<Option<String>>>)
    ensures
        captured_view(groups) == regex_captures(pattern@, text@),
{
    let re = regex::Regex::new(pattern).ok()?;
    let found = re.captures(text)?;
    Some(found.iter().map(|group| group.map(|m| m.as_str().to_string())).collect())
}

/// Compiles `pattern` with `regex::Regex::new` and splits `text` with
/// `Regex::split`; each part is copied out as a string. Claimed: the result
/// is [`regex_split`] of the two texts.
#[verifier::external_body]
pub(crate) fn split(pattern: &str, text: &str) -> (parts: Option<Vec<String>>)
    ensures
        split_view(parts) == regex_split(pattern@, text@),
{
    let re = regex::Regex::new(pattern).ok()?;
    Some(re.split(text).map(|part| part.to_string()).collect())
}

} // verus!

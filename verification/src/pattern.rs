//! Regular expressions, as the `regex` crate matches them.
//!
//! What a regular expression matches is not proved here. Each call of the
//! crate stands behind one function, whose contract gives a name to what
//! the call returns; the contracts of the library speak of these names.

use vstd::prelude::*;

use crate::text::texts_view;

verus! {

/// Why `regex` took a text for no regular expression.
#[verifier::external_type_specification]
#[verifier::external_body]
pub struct ExRegexError(regex::Error);

/// A text that is no regular expression.
#[derive(Debug, Clone, Copy, PartialEq, Eq)]
pub struct InvalidPattern;

/// The optional texts of a vector, each by its characters.
pub open spec fn groups_view(groups: Seq<Option<String>>) -> Seq<Option<Seq<char>>> {
    Seq::new(
        groups.len(),
        |k: int|
            match groups[k] {
                Some(text) => Some(text@),
                None => None,
            },
    )
}

/// `pattern` is a regular expression that `regex` takes.
pub uninterp spec fn regex_valid(pattern: Seq<char>) -> bool;

/// Whether the regular expression `pattern` matches somewhere in `text`.
pub uninterp spec fn regex_is_match(pattern: Seq<char>, text: Seq<char>) -> bool;

/// The texts of the successive matches of the regular expression `pattern`
/// in `text`, none overlapping another.
pub uninterp spec fn regex_matches(pattern: Seq<char>, text: Seq<char>) -> Seq<Seq<char>>;

/// For each of the successive matches of the regular expression `pattern`
/// in `text`, what its group number `group` matched, if it took part.
pub uninterp spec fn regex_groups(pattern: Seq<char>, group: nat, text: Seq<char>) -> Seq<
    Option<Seq<char>>,
>;

/// Calls `regex::Regex::new` and `regex::Regex::is_match`. Nothing is
/// proved of them: the contract gives what they return the names
/// [`regex_valid`] and [`regex_is_match`].
#[verifier::external_body]
pub(crate) fn is_match(pattern: &str, text: &str) -> (r: Result<bool, regex::Error>)
    ensures
        match r {
            Ok(found) => regex_valid(pattern@) && found == regex_is_match(pattern@, text@),
            Err(_) => !regex_valid(pattern@),
        },
{
    regex::Regex::new(pattern).map(|re| re.is_match(text))
}

/// Calls `regex::Regex::new` and `regex::Regex::find_iter`. Nothing is
/// proved of them: the contract gives what they return the names
/// [`regex_valid`] and [`regex_matches`].
#[verifier::external_body]
pub(crate) fn find_matches(pattern: &str, text: &str) -> (r: Result<Vec<String>, regex::Error>)
    ensures
        match r {
            Ok(found) => regex_valid(pattern@) && texts_view(found@) == regex_matches(
                pattern@,
                text@,
            ),
            Err(_) => !regex_valid(pattern@),
        },
{
    let re = regex::Regex::new(pattern)?;
    Ok(re.find_iter(text).map(|m| m.as_str().to_string()).collect())
}

/// Calls `regex::Regex::new`, `regex::Regex::captures_iter` and
/// `regex::Captures::get`. Nothing is proved of them: the contract gives
/// what they return the names [`regex_valid`] and [`regex_groups`].
#[verifier::external_body]
pub(crate) fn find_groups(pattern: &str, group: usize, text: &str) -> (r: Result<
    Vec<Option<String>>,
    regex::Error,
>)
    ensures
        match r {
            Ok(found) => regex_valid(pattern@) && groups_view(found@) == regex_groups(
                pattern@,
                group as nat,
                text@,
            ),
            Err(_) => !regex_valid(pattern@),
        },
{
    let re = regex::Regex::new(pattern)?;
    Ok(re.captures_iter(text).map(|c| c.get(group).map(|m| m.as_str().to_string())).collect())
}

} // verus!

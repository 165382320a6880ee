//! Regular expressions, as far as the naming rules need them.

use vstd::prelude::*;

verus! {

/// What `regex::Regex::captures` finds in `haystack` for the expression
/// written as `pattern`: the text of each group of the leftmost match, group
/// 0 being the whole match, with nothing for a group that took no part.
/// Nothing at all where the expression does not compile or does not match.
pub uninterp spec fn regex_captures(pattern: Seq<char>, haystack: Seq<char>) -> Option<
    Seq<Option<Seq<char>>>,
>;

/// What `regex::Regex::replace` makes of `haystack` for the expression
/// written as `pattern`: the text with the leftmost match replaced by the
/// expansion of `replacement`. Nothing where the expression does not compile.
pub uninterp spec fn regex_replace(
    pattern: Seq<char>,
    haystack: Seq<char>,
    replacement: Seq<char>,
) -> Option<Seq<char>>;

/// The groups of a match, each by its view.
pub open spec fn groups_view(groups: Option<Vec<Option<String>>>) -> Option<Seq<Option<Seq<char>>>> {
    match groups {
        Some(list) => Some(
            list@.map_values(
                |group: Option<String>|
                    match group {
                        Some(text) => Some(text@),
                        None => None,
                    },
            ),
        ),
        None => None,
    }
}

/// A text that may be absent, by its view.
pub open spec fn text_view(text: Option<String>) -> Option<Seq<char>> {
    match text {
        Some(t) => Some(t@),
        None => None,
    }
}

/// Compiles the expression with `regex::Regex::new` and calls
/// `regex::Regex::captures`, which looks for the leftmost match and reports
/// what each group took. The answer depends on the two texts alone; the
/// contract gives it a name.
#[verifier::external_body]
pub(crate) fn captures(pattern: &str, haystack: &str) -> (groups: Option<Vec<Option<String>>>)
    ensures
        groups_view(groups) == regex_captures(pattern@, haystack@),
{
    let regex = regex::Regex::new(pattern).ok()?;
    let found = regex.captures(haystack)?;
    Some(found.iter().map(|group| group.map(|text| text.as_str().to_string())).collect())
}

/// Compiles the expression with `regex::Regex::new` and calls
/// `regex::Regex::replace`, which replaces the leftmost match. The answer
/// depends on the three texts alone; the contract gives it a name.
#[verifier::external_body]
pub(crate) fn replace_first(pattern: &str, haystack: &str, replacement: &str) -> (replaced: Option<
    String,
>)
    ensures
        text_view(replaced) == regex_replace(pattern@, haystack@, replacement@),
{
    let regex = regex::Regex::new(pattern).ok()?;
    Some(regex.replace(haystack, replacement).into_owned())
}

} // verus!

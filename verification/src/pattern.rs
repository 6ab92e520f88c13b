//! Regular expressions, matched by the `regex` crate.
//!
//! What a pattern matches in a text is a function of the two texts alone;
//! it is named here and not written out. A pattern that does not compile
//! matches nothing.

use vstd::prelude::*;
use crate::models::text_of;
use crate::text::strings;

verus! {

/// What `regex::Regex::captures` gives for the capture group `group` of the
/// leftmost match of `pattern` in `haystack`: the text of the group, or
/// `None` where the pattern does not compile, does not match, or matches
/// without that group.
pub uninterp spec fn regex_capture(pattern: Seq<char>, haystack: Seq<char>, group: nat) -> Option<
    Seq<char>,
>;

/// What `regex::Regex::find_iter` gives for `pattern` in `haystack`: the
/// texts of the successive non-overlapping matches from left to right, or
/// `None` where the pattern does not compile.
pub uninterp spec fn regex_matches(pattern: Seq<char>, haystack: Seq<char>) -> Option<
    Seq<Seq<char>>,
>;

/// What `regex::Regex::captures_iter` gives for the capture group `group`
/// of the successive non-overlapping matches of `pattern` in `haystack`:
/// for each match the text of the group, if the group took part in it; or
/// `None` where the pattern does not compile.
pub uninterp spec fn regex_capture_all(pattern: Seq<char>, haystack: Seq<char>, group: nat)
    -> Option<Seq<Option<Seq<char>>>>;

/// The views of a vector of optional strings.
pub open spec fn optional_strings(v: Seq<Option<String>>) -> Seq<Option<Seq<char>>> {
    Seq::new(v.len(), |i: int| text_of(v[i]))
}

/// Compiles `pattern` with `regex::Regex::new` and asks
/// `regex::Regex::captures` for the leftmost match in `haystack`; gives the
/// text that `regex::Captures::get` holds for `group`. The result is the
/// named one: it depends on the three arguments alone.
#[verifier::external_body]
pub(crate) fn capture(pattern: &str, haystack: &str, group: usize) -> (r: Option<String>)
    ensures
        text_of(r) == regex_capture(pattern@, haystack@, group as nat),
{
    let compiled = regex::Regex::new(pattern).ok()?;
    let found = compiled.captures(haystack)?;
    found.get(group).map(|m| m.as_str().to_string())
}

/// Compiles `pattern` with `regex::Regex::new` and collects the texts of
/// the matches that `regex::Regex::find_iter` yields in `haystack`. The
/// result is the named one: it depends on the two arguments alone.
#[verifier::external_body]
pub(crate) fn find_all(pattern: &str, haystack: &str) -> (r: Option<Vec<String>>)
    ensures
        match r {
            Some(found) => regex_matches(pattern@, haystack@) == Some(strings(found@)),
            None => regex_matches(pattern@, haystack@) is None,
        },
{
    let compiled = regex::Regex::new(pattern).ok()?;
    Some(compiled.find_iter(haystack).map(|m| m.as_str().to_string()).collect())
}

/// Compiles `pattern` with `regex::Regex::new` and collects, for each match
/// that `regex::Regex::captures_iter` yields in `haystack`, the text that
/// `regex::Captures::get` holds for `group`. The result is the named one:
/// it depends on the three arguments alone.
#[verifier::external_body]
pub(crate) fn capture_all(pattern: &str, haystack: &str, group: usize) -> (r: Option<
    Vec<Option<String>>,
>)
    ensures
        match r {
            Some(found) => regex_capture_all(pattern@, haystack@, group as nat) == Some(
                optional_strings(found@),
            ),
            None => regex_capture_all(pattern@, haystack@, group as nat) is None,
        },
{
    let compiled = regex::Regex::new(pattern).ok()?;
    Some(
        compiled.captures_iter(haystack).map(
            |c| c.get(group).map(|m| m.as_str().to_string()),
        ).collect(),
    )
}

} // verus!

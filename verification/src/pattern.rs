//! Regular-expression matching, done by the `regex` crate.
use vstd::prelude::*;

verus! {

/// Whether `regex::Regex::new` accepts `pattern` (the crate refuses invalid
/// patterns and patterns whose compiled form exceeds its default size limit).
pub uninterp spec fn regex_accepts(pattern: Seq<char>) -> bool;

/// What `regex::Regex::captures` finds when the compiled `pattern` searches
/// `haystack`: `None` when there is no match, otherwise the capture groups of the
/// first match in the crate's leftmost-first semantics, indexed by the order of
/// their opening parenthesis (group 0 is the whole match), each the matched text
/// or `None` when that group took no part in the match.
pub uninterp spec fn regex_captures(pattern: Seq<char>, haystack: Seq<char>) -> Option<
    Seq<Option<Seq<char>>>,
>;

/// Group `group` of the first match of `pattern` in `haystack`, as
/// `Captures::get` reports it: `None` when nothing matches, when the index names
/// no group, or when that group took no part in the match.
pub open spec fn spec_capture_group(pattern: Seq<char>, haystack: Seq<char>, group: usize) -> Option<
    Seq<char>,
> {
    match regex_captures(pattern, haystack) {
        None => None,
        Some(groups) => if group < groups.len() {
            groups[group as int]
        } else {
            None
        },
    }
}

/// Compiles `pattern` with `regex::Regex::new` and searches `haystack` with
/// `Regex::captures`, then reads group `group` with `Captures::get` and
/// `Match::as_str`.
///
/// Trusted: the result is `None` exactly when `Regex::new` returns an error;
/// otherwise it holds the group's text as the names above describe it. What the
/// crate's matching engine finds is named, not stated.
#[verifier::external_body]
pub(crate) fn capture_group(pattern: &str, haystack: &str, group: usize) -> (r: Option<Option<String>>)
    ensures
        r is Some <==> regex_accepts(pattern@),
        r matches Some(found) ==> found.deep_view() == match regex_captures(pattern@, haystack@) {
            None => None,
            Some(groups) => if group < groups.len() {
                groups[group as int]
            } else {
                None
            },
        },
{
    let re = match regex::Regex::new(pattern) {
        Ok(re) => re,
        Err(_) => return None,
    };
    let caps = match re.captures(haystack) {
        Some(caps) => caps,
        None => return Some(None),
    };
    match caps.get(group) {
        Some(m) => Some(Some(m.as_str().to_string())),
        None => Some(None),
    }
}

} // verus!

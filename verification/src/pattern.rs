//! The regular expression that finds a title's prefix, and the call that runs it.

use regex::Regex;
use vstd::prelude::*;

use crate::titles::title_prefix;

verus! {

/// Anchored at the start, any characters at all, as many as possible, then a `:`; the one group
/// spans the whole match.
pub const PREFIX_PATTERN: &'static str = r"(^[\s\S]*:)";

/// Compiles `pattern` with `regex::Regex::new`, searches `haystack` with `Regex::captures`, and
/// hands back the text of the first group (`Captures::get(1)`, `Match::as_str`).
///
/// Trusted, not proved: for [`PREFIX_PATTERN`] the search succeeds exactly when `haystack` holds
/// a `:`, and the group then spans `haystack` from its start through its last `:`. This is what
/// the crate documents for `^` (start of haystack), for a greedy `*` over the class of all
/// characters, and for a literal.
#[verifier::external_body]
pub(crate) fn first_group<'h>(pattern: &str, haystack: &'h str) -> (captured: Option<&'h str>)
    requires
        pattern@ == PREFIX_PATTERN@,
    ensures
        match captured {
            Some(text) => title_prefix(haystack@) == Some(text@),
            None => title_prefix(haystack@) is None,
        },
{
    match Regex::new(pattern).unwrap().captures(haystack) {
        Some(groups) => Some(groups.get(1).unwrap().as_str()),
        None => None,
    }
}

} // verus!

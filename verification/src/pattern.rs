//! Regular-expression searches, performed by the `regex` crate.
//!
//! A search is named by the pattern and the haystack it runs on: the crate is
//! deterministic, so the same pattern on the same text always reports the same
//! byte range. The only facts stated about the ranges are those the crate
//! documents: a match lies inside the haystack, `start <= end`, and both ends
//! fall on character boundaries.
use crate::text::{char_pos, is_boundary, is_byte_pos, byte_len};
use vstd::prelude::*;

verus! {

/// The byte range that `regex::Regex::find` reports for `pattern` on `hay`
/// (`None` when the pattern does not compile or nothing matches).
pub uninterp spec fn regex_find_span(pattern: Seq<char>, hay: Seq<char>) -> Option<(usize, usize)>;

/// The byte range of capture group `group` that `regex::Regex::captures`
/// reports for `pattern` on `hay` (`None` when the pattern does not compile,
/// nothing matches, or the group took no part in the match).
pub uninterp spec fn regex_group_span(pattern: Seq<char>, hay: Seq<char>, group: usize) -> Option<
    (usize, usize),
>;

/// A byte range of `hay` as the regex crate documents its matches: ordered and
/// on character boundaries.
pub open spec fn well_placed(hay: Seq<char>, span: (usize, usize)) -> bool {
    span.0 <= span.1 && is_boundary(hay, span.0 as int) && is_boundary(hay, span.1 as int)
}

/// The characters of `hay` covered by a well-placed byte range.
pub open spec fn span_text(hay: Seq<char>, span: (usize, usize)) -> Seq<char> {
    hay.subrange(char_pos(hay, span.0 as int), char_pos(hay, span.1 as int))
}

/// Compiles `pattern` with `regex::Regex::new` and runs `Regex::find` on `hay`.
/// Trusted: the result is the crate's (named by `regex_find_span`); a reported
/// match is ordered and lies on character boundaries, as the crate documents.
#[verifier::external_body]
pub(crate) fn regex_find(pattern: &str, hay: &str) -> (r: Option<(usize, usize)>)
    ensures
        r == regex_find_span(pattern@, hay@),
        r matches Some(span) ==> well_placed(hay@, span),
{
    match regex::Regex::new(pattern) {
        Ok(re) => re.find(hay).map(|m| (m.start(), m.end())),
        Err(_) => None,
    }
}

/// Compiles `pattern` with `regex::Regex::new`, runs `Regex::captures` on
/// `hay` and reads group `group` with `Captures::get`. Trusted: the result is
/// the crate's (named by `regex_group_span`); a reported group is ordered and
/// lies on character boundaries, as the crate documents.
#[verifier::external_body]
pub(crate) fn regex_group(pattern: &str, hay: &str, group: usize) -> (r: Option<(usize, usize)>)
    ensures
        r == regex_group_span(pattern@, hay@, group),
        r matches Some(span) ==> well_placed(hay@, span),
{
    match regex::Regex::new(pattern) {
        Ok(re) => re.captures(hay).and_then(|c| c.get(group)).map(|m| (m.start(), m.end())),
        Err(_) => None,
    }
}

/// The pattern that recognises a version-only comment such as `# v1.2.3` or
/// `# main`.
pub open spec fn version_comment_pattern() -> Seq<char> {
    "^#\\s*(v\\d[a-zA-Z0-9.\\-_]*|main|\\d[a-zA-Z0-9.\\-_]*)\\s*"@
}

pub fn version_comment_regex() -> (r: &'static str)
    ensures
        r@ == version_comment_pattern(),
{
    "^#\\s*(v\\d[a-zA-Z0-9.\\-_]*|main|\\d[a-zA-Z0-9.\\-_]*)\\s*"
}

} // verus!

//! Episode-identifier extraction: a configured regular expression is
//! applied to a file's base name, and the text of its first capture
//! group is the identifier.

use vstd::prelude::*;

verus! {

/// Whether a pattern text is a valid regular expression: exactly when
/// `regex::Regex::new` accepts it.
pub uninterp spec fn pattern_compiles(pattern: Seq<char>) -> bool;

/// The text matched by the first capture group when the pattern is
/// applied to the given text, or nothing when the pattern does not match,
/// has no capture group, or its first group takes no part in the match.
pub uninterp spec fn first_capture(pattern: Seq<char>, text: Seq<char>) -> Option<Seq<char>>;

/// Relies on `regex::Regex::new`: whether a pattern compiles depends on
/// the pattern text alone.
#[verifier::external_body]
pub(crate) fn regex_compiles(pattern: &str) -> (r: bool)
    ensures
        r == pattern_compiles(pattern@),
{
    regex::Regex::new(pattern).is_ok()
}

/// Relies on `regex::Regex::new`, `regex::Regex::captures`,
/// `regex::Captures::get` and `regex::Match::as_str`: for a pattern that
/// compiles, the leftmost match and the span of its first capture group —
/// and so the group's text — are a function of the pattern and the
/// haystack alone.
#[verifier::external_body]
fn regex_first_capture(pattern: &str, text: &str) -> (r: Option<String>)
    requires
        pattern_compiles(pattern@),
    ensures
        r matches Some(s) ==> first_capture(pattern@, text@) == Some(s@),
        r is None <==> first_capture(pattern@, text@) is None,
{
    let re = match regex::Regex::new(pattern) {
        Ok(re) => re,
        Err(_) => return None,
    };
    re.captures(text).and_then(|c| c.get(1)).map(|m| m.as_str().to_string())
}

/// Applies the pattern to a file name and returns the text of the first
/// capture group, or nothing when there is no match or no capture group.
pub fn extract_episode_id(pattern: &str, file_name: &str) -> (r: Option<String>)
    requires
        pattern_compiles(pattern@),
    ensures
        r matches Some(s) ==> first_capture(pattern@, file_name@) == Some(s@),
        r is None <==> first_capture(pattern@, file_name@) is None,
{
    regex_first_capture(pattern, file_name)
}

/// Like `extract_episode_id`, but for a pattern that may not be a valid
/// regular expression: the outer `None` says the pattern does not
/// compile, and the inner option is the extraction result.
pub fn try_extract_episode_id(pattern: &str, file_name: &str) -> (r: Option<Option<String>>)
    ensures
        r is Some <==> pattern_compiles(pattern@),
        r matches Some(inner) ==> {
            &&& (inner matches Some(s) ==> first_capture(pattern@, file_name@) == Some(s@))
            &&& (inner is None <==> first_capture(pattern@, file_name@) is None)
        },
{
    if regex_compiles(pattern) {
        Some(extract_episode_id(pattern, file_name))
    } else {
        None
    }
}

/// Extraction is pure: it depends on the pattern and the file name alone,
/// so any two results obtained for the same pattern and file name are
/// equal — in particular, extracting twice gives the same identifier or
/// the same absence.
pub proof fn lemma_extraction_deterministic(
    pattern: Seq<char>,
    file_name: Seq<char>,
    r1: Option<Seq<char>>,
    r2: Option<Seq<char>>,
)
    requires
        r1 == first_capture(pattern, file_name),
        r2 == first_capture(pattern, file_name),
    ensures
        r1 == r2,
{
}

} // verus!

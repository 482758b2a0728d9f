//! Regular-expression matching through the `regex` crate. The patterns are the
//! library's own (given by the callers); an invalid pattern never matches.
use vstd::prelude::*;

verus! {

/// Whether `pattern` matches somewhere in `text` (`Regex::is_match`; `false` for an
/// invalid pattern).
pub uninterp spec fn regex_matches(pattern: Seq<char>, text: Seq<char>) -> bool;

/// The leftmost-first match of `pattern` in `text` as `(before, matched, after)`
/// (`Regex::find`; `None` for no match or an invalid pattern).
pub uninterp spec fn regex_first_match(pattern: Seq<char>, text: Seq<char>) -> Option<
    (Seq<char>, Seq<char>, Seq<char>),
>;

/// The capture groups (group 0 first) of the leftmost-first match (`Regex::captures`).
pub uninterp spec fn regex_first_captures(pattern: Seq<char>, text: Seq<char>) -> Option<
    Seq<Option<Seq<char>>>,
>;

/// The capture groups (group 0 first) of the last of the successive non-overlapping
/// matches (`Regex::captures_iter(..).last()`).
pub uninterp spec fn regex_last_captures(pattern: Seq<char>, text: Seq<char>) -> Option<
    Seq<Option<Seq<char>>>,
>;

/// `Regex::new(pattern)` then `is_match(text)`.
/// Trusted: the answer is named by `regex_matches`.
#[verifier::external_body]
pub(crate) fn is_match(pattern: &str, text: &str) -> (r: bool)
    ensures
        r == regex_matches(pattern@, text@),
{
    regex::Regex::new(pattern).map(|re| re.is_match(text)).unwrap_or(false)
}

/// `Regex::new(pattern)` then `find(text)`, split around the match.
/// Trusted: the split is named by `regex_first_match`; the three parts rebuild the text
/// (a match is the substring `text[start..end]`).
#[verifier::external_body]
pub(crate) fn find(pattern: &str, text: &str) -> (r: Option<(String, String, String)>)
    ensures
        r is Some <==> regex_first_match(pattern@, text@) is Some,
        r matches Some(p) ==> regex_first_match(pattern@, text@) == Some((p.0@, p.1@, p.2@))
            && p.0@ + p.1@ + p.2@ == text@,
{
    let m = regex::Regex::new(pattern).ok()?.find(text)?;
    Some((text[..m.start()].to_string(), m.as_str().to_string(), text[m.end()..].to_string()))
}

/// `Regex::new(pattern)` then `captures(text)`, each group as an owned string.
/// Trusted: the groups are named by `regex_first_captures`.
#[verifier::external_body]
pub(crate) fn captures(pattern: &str, text: &str) -> (r: Option<Vec<Option<String>>>)
    ensures
        r is Some <==> regex_first_captures(pattern@, text@) is Some,
        r matches Some(g) ==> regex_first_captures(pattern@, text@) == Some(g.deep_view()),
{
    let c = regex::Regex::new(pattern).ok()?.captures(text)?;
    Some(c.iter().map(|m| m.map(|m| m.as_str().to_string())).collect())
}

/// `Regex::new(pattern)` then `captures_iter(text).last()`, each group as an owned string.
/// Trusted: the groups are named by `regex_last_captures`.
#[verifier::external_body]
pub(crate) fn last_captures(pattern: &str, text: &str) -> (r: Option<Vec<Option<String>>>)
    ensures
        r is Some <==> regex_last_captures(pattern@, text@) is Some,
        r matches Some(g) ==> regex_last_captures(pattern@, text@) == Some(g.deep_view()),
{
    let c = regex::Regex::new(pattern).ok()?.captures_iter(text).last()?;
    Some(c.iter().map(|m| m.map(|m| m.as_str().to_string())).collect())
}

/// Group `k` of a capture list, when it took part in the match.
pub open spec fn group(g: Seq<Option<Seq<char>>>, k: int) -> Option<Seq<char>> {
    if 0 <= k < g.len() {
        g[k]
    } else {
        None
    }
}

pub fn group_of(g: &Vec<Option<String>>, k: usize) -> (r: Option<String>)
    ensures
        r matches Some(s) ==> group(g.deep_view(), k as int) == Some(s@),
        r is None ==> group(g.deep_view(), k as int) is None,
{
    if k < g.len() {
        match &g[k] {
            Some(s) => Some(s.clone()),
            None => None,
        }
    } else {
        None
    }
}

} // verus!

//! Regular-expression matching, provided by the `regex` crate.
use vstd::prelude::*;

verus! {

/// The text that `Regex::new(pattern)` followed by `replace_all(text, replacement)` gives,
/// or `None` when `pattern` does not compile.
pub uninterp spec fn regex_replace_all_result(
    pattern: Seq<char>,
    text: Seq<char>,
    replacement: Seq<char>,
) -> Option<Seq<char>>;

/// What capture group `group` of the leftmost match of `pattern` in `text` holds:
/// `None` when `pattern` does not compile, `Some(None)` when there is no match or the
/// group took no part in it.
pub uninterp spec fn regex_capture_result(pattern: Seq<char>, text: Seq<char>, group: nat) -> Option<
    Option<Seq<char>>,
>;

/// Calls `regex::Regex::new(pattern)` and then `Regex::replace_all(text, replacement)`.
/// Trusted: the result is `regex_replace_all_result` of the three texts; it is `None`
/// exactly when `Regex::new` returns an error. With an empty replacement the matches are
/// only deleted, so every character of the result is one of `text`. Which parts match a
/// given pattern is not stated here.
#[verifier::external_body]
pub(crate) fn regex_replace_all(pattern: &str, text: &str, replacement: &str) -> (r: Option<String>)
    ensures
        match r {
            Some(s) => regex_replace_all_result(pattern@, text@, replacement@) == Some(s@) && (
            replacement@.len() == 0 ==> forall|i: int|
                0 <= i < s@.len() ==> text@.contains(#[trigger] s@[i])),
            None => regex_replace_all_result(pattern@, text@, replacement@) is None,
        },
{
    match regex::Regex::new(pattern) {
        Ok(re) => Some(re.replace_all(text, replacement).to_string()),
        Err(_) => None,
    }
}

/// Calls `regex::Regex::new(pattern)`, then `Regex::captures(text)` and `Captures::get(group)`.
/// Trusted: the result is `regex_capture_result` of the pattern, the text and the group;
/// which text a group captures, for a given pattern, is not stated here.
#[verifier::external_body]
pub(crate) fn regex_capture(pattern: &str, text: &str, group: usize) -> (r: Option<Option<String>>)
    ensures
        match r {
            Some(Some(s)) => regex_capture_result(pattern@, text@, group as nat) == Some(
                Some(s@),
            ),
            Some(None) => regex_capture_result(pattern@, text@, group as nat) == Some(
                None::<Seq<char>>,
            ),
            None => regex_capture_result(pattern@, text@, group as nat) is None,
        },
{
    match regex::Regex::new(pattern) {
        Err(_) => None,
        Ok(re) => match re.captures(text) {
            None => Some(None),
            Some(caps) => match caps.get(group) {
                None => Some(None),
                Some(m) => Some(Some(m.as_str().to_string())),
            },
        },
    }
}

} // verus!

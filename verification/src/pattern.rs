//! Regular-expression capture. The matching is the `regex` crate's.

use vstd::prelude::*;
use crate::models::opt_text;

verus! {

/// The text that capture group `group` holds in the leftmost match of
/// `pattern` in `text`; `None` where `pattern` is no valid pattern, where it
/// matches nowhere, or where the group took no part in the match.
pub uninterp spec fn captured(pattern: Seq<char>, text: Seq<char>, group: nat) -> Option<
    Seq<char>,
>;

/// `regex::Regex::new`, `Regex::captures` and `Captures::get`: the text of
/// one capture group of the leftmost match. The result depends on the
/// arguments alone.
#[verifier::external_body]
pub(crate) fn capture(pattern: &str, text: &str, group: usize) -> (found: Option<String>)
    ensures
        opt_text(found) == captured(pattern@, text@, group as nat),
{
    let re = regex::Regex::new(pattern).ok()?;
    re.captures(text)?.get(group).map(|m| m.as_str().to_string())
}

} // verus!

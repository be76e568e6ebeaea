//! Regular-expression matching, done by the `regex` crate.
use vstd::prelude::*;

use crate::records::opt_text;

verus! {

/// For each successive non-overlapping match of the pattern in the text,
/// leftmost first, the text of its group 1 (absent when the group took no
/// part); absent as a whole when the pattern does not compile.
pub uninterp spec fn pattern_groups(pattern: Seq<char>, text: Seq<char>) -> Option<
    Seq<Option<Seq<char>>>,
>;

/// The optional texts of a list.
pub open spec fn opt_texts_of(v: Seq<Option<String>>) -> Seq<Option<Seq<char>>> {
    v.map_values(|o: Option<String>| opt_text(o))
}

/// Relies on regex's `Regex::new` (an error for a pattern it cannot compile)
/// and `Regex::captures_iter` with `Captures::get(1)`: group 1 of every match,
/// in order.
#[verifier::external_body]
pub fn group_one_of_matches(pattern: &str, text: &str) -> (r: Option<Vec<Option<String>>>)
    ensures
        r matches Some(v) ==> pattern_groups(pattern@, text@) == Some(opt_texts_of(v@)),
        r is None ==> pattern_groups(pattern@, text@) is None,
{
    match regex::Regex::new(pattern) {
        Ok(re) => Some(
            re.captures_iter(text).map(|c| c.get(1).map(|m| m.as_str().to_string())).collect(),
        ),
        Err(_) => None,
    }
}

} // verus!

//! Text extraction with regular expressions (the `regex` crate).
use vstd::prelude::*;

verus! {

/// A name for what the `regex` crate finds: the text of capture group 1 of
/// the leftmost-first match of `pattern` in `text`; `None` when the pattern
/// does not compile, nothing matches, or the group took no part in the match.
pub uninterp spec fn regex_first_group(pattern: Seq<char>, text: Seq<char>) -> Option<Seq<char>>;

/// A name for what `Regex::captures_iter` yields: for each successive
/// non-overlapping match of `pattern` in `text`, the texts of its capture
/// groups 1..=`groups` (`None` for a group that took no part); the empty
/// sequence when the pattern does not compile.
pub uninterp spec fn regex_all_groups(pattern: Seq<char>, text: Seq<char>, groups: usize) -> Seq<Seq<Option<Seq<char>>>>;

/// `Regex::new(pattern)?.captures(text)?.get(1)`, as owned text.
#[verifier::external_body]
pub(crate) fn first_group(pattern: &str, text: &str) -> (r: Option<String>)
    ensures
        match r {
            Some(g) => regex_first_group(pattern@, text@) == Some(g@),
            None => regex_first_group(pattern@, text@) is None,
        },
{
    match regex::Regex::new(pattern) {
        Ok(re) => re.captures(text).and_then(|c| c.get(1)).map(|m| m.as_str().to_string()),
        Err(_) => None,
    }
}

/// `Regex::new(pattern)` and `captures_iter(text)`: for each match, the
/// texts of groups 1..=`groups`.
#[verifier::external_body]
pub(crate) fn all_groups(pattern: &str, text: &str, groups: usize) -> (r: Vec<Vec<Option<String>>>)
    ensures
        r@.len() == regex_all_groups(pattern@, text@, groups).len(),
        forall|i: int|
            0 <= i < r@.len() ==> {
                &&& (#[trigger] r@[i])@.len() == regex_all_groups(pattern@, text@, groups)[i].len()
                &&& r@[i]@.len() == groups
                &&& forall|j: int|
                    0 <= j < r@[i]@.len() ==> match #[trigger] r@[i]@[j] {
                        Some(g) => regex_all_groups(pattern@, text@, groups)[i][j] == Some(g@),
                        None => regex_all_groups(pattern@, text@, groups)[i][j] is None,
                    }
            },
{
    match regex::Regex::new(pattern) {
        Ok(re) => re.captures_iter(text).map(|c| (1..=groups).map(|g| c.get(g).map(|m| m.as_str().to_string())).collect()).collect(),
        Err(_) => Vec::new(),
    }
}

} // verus!

//! Regular expressions, matched by the `regex` crate.

use vstd::prelude::*;

verus! {

/// The capture groups of the leftmost match in `text` of the regular
/// expression written as `pattern`: group 0 is the whole match, and a group
/// that took no part in the match is `None`. The result is `None` where
/// nothing matches, and where `pattern` is not a regular expression.
pub uninterp spec fn regex_captures(pattern: Seq<char>, text: Seq<char>) -> Option<
    Seq<Option<Seq<char>>>,
>;

/// Whether `pattern` is a regular expression that the `regex` crate accepts.
pub uninterp spec fn regex_valid(pattern: Seq<char>) -> bool;

/// What a list of optional strings stands for.
pub open spec fn group_views(v: Seq<Option<String>>) -> Seq<Option<Seq<char>>> {
    Seq::new(
        v.len(),
        |i: int|
            match v[i] {
                Some(s) => Some(s@),
                None => None,
            },
    )
}

/// What the result of a match stands for.
pub open spec fn captures_view(r: Option<Vec<Option<String>>>) -> Option<Seq<Option<Seq<char>>>> {
    match r {
        Some(v) => Some(group_views(v@)),
        None => None,
    }
}

/// Compiles `pattern` with `regex::Regex::new` and runs
/// `regex::Regex::captures` on `text`. Claimed: the text of each group of the
/// leftmost match is what `regex_captures` names; nothing is claimed about
/// which text that is.
#[verifier::external_body]
pub(crate) fn captures(pattern: &str, text: &str) -> (r: Option<Vec<Option<String>>>)
    ensures
        captures_view(r) == regex_captures(pattern@, text@),
{
    let re = regex::Regex::new(pattern).ok()?;
    let caps = re.captures(text)?;
    Some(caps.iter().map(|m| m.map(|x| x.as_str().to_string())).collect())
}

/// Runs `regex::Regex::new` on `pattern` and tells whether it succeeded.
#[verifier::external_body]
pub(crate) fn compiles(pattern: &str) -> (r: bool)
    ensures
        r == regex_valid(pattern@),
{
    regex::Regex::new(pattern).is_ok()
}

/// The text of group `index` of the leftmost match, if there is a match and
/// the group took part in it.
pub open spec fn regex_group(pattern: Seq<char>, text: Seq<char>, index: int) -> Option<Seq<char>> {
    match regex_captures(pattern, text) {
        Some(groups) => if 0 <= index < groups.len() {
            groups[index]
        } else {
            None
        },
        None => None,
    }
}

/// Whether the regular expression matches somewhere in `text`.
pub open spec fn regex_matches(pattern: Seq<char>, text: Seq<char>) -> bool {
    regex_captures(pattern, text) is Some
}

/// The text of group `index` of the leftmost match of `pattern` in `text`.
pub fn group(pattern: &str, text: &str, index: usize) -> (r: Option<String>)
    ensures
        crate::types::opt_view(r) == regex_group(pattern@, text@, index as int),
{
    match captures(pattern, text) {
        Some(groups) => {
            if index < groups.len() {
                match &groups[index] {
                    Some(s) => Some(s.clone()),
                    None => None,
                }
            } else {
                None
            }
        },
        None => None,
    }
}

/// Whether the regular expression `pattern` matches somewhere in `text`.
pub fn is_match(pattern: &str, text: &str) -> (r: bool)
    ensures
        r == regex_matches(pattern@, text@),
{
    captures(pattern, text).is_some()
}

} // verus!

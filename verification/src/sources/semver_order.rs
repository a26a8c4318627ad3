//! The order of semantic versions, as the `semver` crate defines it.

use vstd::prelude::*;
use std::cmp::Ordering;

verus! {

/// How the semantic version `a` stands to the semantic version `b`: -1 where
/// it comes before, 0 where the two are the same version, 1 where it comes
/// after, in the precedence of semantic versions with build metadata as the
/// last tie-break; `None` where one of the two is no semantic version.
pub uninterp spec fn semver_order(a: Seq<char>, b: Seq<char>) -> Option<i8>;

/// Parses both texts with `semver::Version::parse` and compares them with
/// the `Ord` of `semver::Version`. Claimed: the number handed back is the
/// one that `semver_order` names; nothing is claimed about which version
/// comes first.
#[verifier::external_body]
pub(crate) fn order_of(a: &str, b: &str) -> (r: Option<i8>)
    ensures
        r == semver_order(a@, b@),
{
    match (semver::Version::parse(a), semver::Version::parse(b)) {
        (Ok(x), Ok(y)) => Some(
            match x.cmp(&y) {
                Ordering::Less => -1,
                Ordering::Equal => 0,
                Ordering::Greater => 1,
            },
        ),
        _ => None,
    }
}

} // verus!

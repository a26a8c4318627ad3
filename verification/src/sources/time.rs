//! Points in time as the sources write them, read by the `chrono` crate.

use vstd::prelude::*;

verus! {

/// The point in time that `text` names in the form of RFC 3339, in seconds
/// since the epoch; `None` where `text` is not of that form.
pub uninterp spec fn rfc3339_seconds(text: Seq<char>) -> Option<i64>;

/// Parses `text` with `chrono::DateTime::parse_from_rfc3339` and reads
/// `DateTime::timestamp`. Claimed: the number handed back is the one that
/// `rfc3339_seconds` names.
#[verifier::external_body]
pub(crate) fn parse_rfc3339(text: &str) -> (r: Option<i64>)
    ensures
        r == rfc3339_seconds(text@),
{
    chrono::DateTime::parse_from_rfc3339(text).ok().map(|t| t.timestamp())
}

/// The point in time that an optional text names.
pub open spec fn published(text: Option<Seq<char>>) -> Option<i64> {
    match text {
        Some(t) => rfc3339_seconds(t),
        None => None,
    }
}

/// The point in time that an optional text names, in seconds since the
/// epoch; none where there is no text or it is not of the form of
/// RFC 3339.
pub fn published_at(text: &Option<String>) -> (r: Option<i64>)
    ensures
        r == published(crate::types::opt_view(*text)),
{
    match text {
        Some(t) => parse_rfc3339(t.as_str()),
        None => None,
    }
}

} // verus!

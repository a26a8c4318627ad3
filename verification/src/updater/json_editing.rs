//! Edits of JSON text, made by the `serde_json` crate: the document is read,
//! changed and written out again with an indentation of two spaces.

use vstd::prelude::*;
use crate::types::opt_view;

verus! {

/// The JSON document `content` written out again, pretty-printed, after the
/// object under `section` of its top object has `key` bound to the string
/// `value`; `None` where `content` is no JSON document or holds no object
/// under `section`.
pub uninterp spec fn json_with_entry(
    content: Seq<char>,
    section: Seq<char>,
    key: Seq<char>,
    value: Seq<char>,
) -> Option<Seq<char>>;

/// The JSON document `content` written out again, pretty-printed, after its
/// top object has `key` bound to the string `value`; `None` where `content`
/// is no JSON document or no object.
pub uninterp spec fn json_with_field(content: Seq<char>, key: Seq<char>, value: Seq<char>)
    -> Option<Seq<char>>;

/// Parses `content` with `serde_json::from_str`, binds `key` to `value` in
/// the object under `section` with `serde_json::Map::insert` and writes the
/// document with `serde_json::to_string_pretty`. Claimed: the text handed
/// back is the one that `json_with_entry` names.
#[verifier::external_body]
pub(crate) fn set_entry(content: &str, section: &str, key: &str, value: &str) -> (r: Option<
    String,
>)
    ensures
        opt_view(r) == json_with_entry(content@, section@, key@, value@),
{
    let mut doc: serde_json::Value = serde_json::from_str(content).ok()?;
    let map = doc.get_mut(section)?.as_object_mut()?;
    map.insert(key.to_string(), serde_json::Value::String(value.to_string()));
    serde_json::to_string_pretty(&doc).ok()
}

/// Parses `content` with `serde_json::from_str`, binds `key` to `value` in
/// the top object with `serde_json::Map::insert` and writes the document
/// with `serde_json::to_string_pretty`. Claimed: the text handed back is
/// the one that `json_with_field` names.
#[verifier::external_body]
pub(crate) fn set_field(content: &str, key: &str, value: &str) -> (r: Option<String>)
    ensures
        opt_view(r) == json_with_field(content@, key@, value@),
{
    let mut doc: serde_json::Value = serde_json::from_str(content).ok()?;
    let map = doc.as_object_mut()?;
    map.insert(key.to_string(), serde_json::Value::String(value.to_string()));
    serde_json::to_string_pretty(&doc).ok()
}

} // verus!

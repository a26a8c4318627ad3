//! Lookups in JSON text, answered by the `serde_json` crate.

use vstd::prelude::*;
use crate::types::opt_view;

verus! {

/// What a JSON document holds under a key of its top object.
#[derive(Debug, Clone, PartialEq, Eq)]
pub enum JsonSection {
    /// The text is no JSON document.
    Invalid,
    /// The document is no object, has no such key, or holds no object
    /// under it.
    Absent,
    /// The entries of the object under the key, each with its value where
    /// that is a string.
    Entries(Vec<(String, Option<String>)>),
}

/// What a `JsonSection` stands for.
pub enum JsonSectionView {
    Invalid,
    Absent,
    Entries(Seq<(Seq<char>, Option<Seq<char>>)>),
}

/// What a list of entries stands for.
pub open spec fn entry_views(v: Seq<(String, Option<String>)>) -> Seq<
    (Seq<char>, Option<Seq<char>>),
> {
    Seq::new(v.len(), |i: int| (v[i].0@, opt_view(v[i].1)))
}

impl View for JsonSection {
    type V = JsonSectionView;

    open spec fn view(&self) -> JsonSectionView {
        match self {
            JsonSection::Invalid => JsonSectionView::Invalid,
            JsonSection::Absent => JsonSectionView::Absent,
            JsonSection::Entries(v) => JsonSectionView::Entries(entry_views(v@)),
        }
    }
}

/// What the JSON document `content` holds under the key `section` of its
/// top object, the entries in the order in which the document's map holds
/// them.
pub uninterp spec fn json_section(content: Seq<char>, section: Seq<char>) -> JsonSectionView;

/// Parses `content` with `serde_json::from_str` into a `serde_json::Value`
/// and reads the object under `section` with `Value::get` and
/// `Value::as_object`. Claimed: what is handed back is what `json_section`
/// names; nothing is claimed about what the document holds.
#[verifier::external_body]
pub(crate) fn read_section(content: &str, section: &str) -> (r: JsonSection)
    ensures
        r@ == json_section(content@, section@),
{
    let doc: serde_json::Value = match serde_json::from_str(content) {
        Ok(d) => d,
        Err(_) => return JsonSection::Invalid,
    };
    match doc.get(section).and_then(|v| v.as_object()) {
        Some(map) => JsonSection::Entries(
            map.iter().map(|(k, v)| (k.clone(), v.as_str().map(|s| s.to_string()))).collect(),
        ),
        None => JsonSection::Absent,
    }
}

} // verus!

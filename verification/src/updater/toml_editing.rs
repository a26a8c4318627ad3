//! What the `toml_edit` crate tells of TOML text, and the one edit that is
//! left to it: giving a table a key that it lacks.

use vstd::prelude::*;
use crate::text::str_views;
use crate::types::opt_view;

verus! {

/// The kind of item that stands at a path of keys in a TOML document.
#[derive(Debug, Clone, Copy, PartialEq, Eq, Structural)]
pub enum ItemKind {
    /// Nothing: a key of the path is missing, or leads through an item that
    /// is no table.
    Missing,
    /// A string.
    Text,
    /// A table with a header of its own.
    Table,
    /// A table written inline, in braces.
    InlineTable,
    /// An item of another kind.
    Other,
}

/// The kind of item that stands at `path` in the TOML document `content`,
/// where each key before the last leads to a table, inline or not; `None`
/// where `content` is no TOML document.
pub uninterp spec fn toml_item_kind(content: Seq<char>, path: Seq<Seq<char>>) -> Option<ItemKind>;

/// The bytes with which the TOML document `content` writes the item at
/// `path`: the offset of the first byte and the offset after the last. A
/// value is taken without what stands around it, a string with its quotes
/// and an inline table with its braces; a table with a header is taken from
/// its header to the last value bound under that header. `None` where
/// `content` is no TOML document, nothing stands at `path`, or the item has
/// no place of its own in the text.
pub uninterp spec fn toml_item_span(content: Seq<char>, path: Seq<Seq<char>>) -> Option<
    (usize, usize),
>;

/// The TOML document `content` written out again after the table at `path`,
/// inline or not, has `key` bound to the string `text`; `None` where
/// `content` is no TOML document or no table stands at `path`. The
/// document is written out with line feeds as its line endings.
pub uninterp spec fn toml_inserted(
    content: Seq<char>,
    path: Seq<Seq<char>>,
    key: Seq<char>,
    text: Seq<char>,
) -> Option<Seq<char>>;

/// Parses `content` as a `toml_edit::DocumentMut` and follows `path` with
/// `toml_edit::Item::as_table_like` and `toml_edit::TableLike::get`.
/// Claimed: the kind handed back is the one that `toml_item_kind` names.
#[verifier::external_body]
pub(crate) fn item_kind(content: &str, path: &Vec<String>) -> (r: Option<ItemKind>)
    ensures
        r == toml_item_kind(content@, str_views(path@)),
{
    let doc = content.parse::<toml_edit::DocumentMut>().ok()?;
    let found = path.iter().try_fold(doc.as_item(), |item, key| item.as_table_like()?.get(key));
    Some(match found {
        None => ItemKind::Missing,
        Some(toml_edit::Item::Value(toml_edit::Value::String(_))) => ItemKind::Text,
        Some(toml_edit::Item::Table(_)) => ItemKind::Table,
        Some(toml_edit::Item::Value(toml_edit::Value::InlineTable(_))) => ItemKind::InlineTable,
        Some(_) => ItemKind::Other,
    })
}

/// Parses `content` with `toml_edit::ImDocument::parse`, follows `path`
/// with `toml_edit::Item::as_table_like` and `toml_edit::TableLike::get`,
/// and reads `toml_edit::Item::span` of the item found. Claimed: the
/// offsets handed back are those that `toml_item_span` names; that they
/// enclose the item is the crate's doing and is not claimed here.
#[verifier::external_body]
pub(crate) fn item_span(content: &str, path: &Vec<String>) -> (r: Option<(usize, usize)>)
    ensures
        r == toml_item_span(content@, str_views(path@)),
{
    let doc = toml_edit::ImDocument::parse(content).ok()?;
    let found = path.iter().try_fold(doc.as_item(), |item, key| item.as_table_like()?.get(key))?;
    found.span().map(|s| (s.start, s.end))
}

/// Parses `content` as a `toml_edit::DocumentMut`, calls
/// `toml_edit::TableLike::insert` with `key` and `toml_edit::value(text)` on
/// the table at `path` and writes the document out. Claimed: the text
/// handed back is the one that `toml_inserted` names.
#[verifier::external_body]
pub(crate) fn insert_item(content: &str, path: &Vec<String>, key: &str, text: &str) -> (r: Option<
    String,
>)
    ensures
        opt_view(r) == toml_inserted(content@, str_views(path@), key@, text@),
{
    let mut doc = content.parse::<toml_edit::DocumentMut>().ok()?;
    let mut item = doc.as_item_mut();
    for step in path {
        item = item.as_table_like_mut()?.get_mut(step)?;
    }
    item.as_table_like_mut()?.insert(key, toml_edit::value(text));
    Some(doc.to_string())
}

} // verus!

//! Lookups in TOML text, answered by the `toml` crate.

use vstd::prelude::*;
use crate::text::str_views;

verus! {

/// What stands at a path of keys in a TOML document.
#[derive(Debug, Clone, PartialEq, Eq)]
pub enum TomlNode {
    /// Nothing: a key of the path is missing, or leads through a value that
    /// is no table.
    Missing,
    /// A string.
    Text(String),
    /// A table, with its keys.
    Table(Vec<String>),
    /// A value of another kind.
    Other,
}

/// What a `TomlNode` stands for.
pub enum TomlNodeView {
    Missing,
    Text(Seq<char>),
    Table(Seq<Seq<char>>),
    Other,
}

impl View for TomlNode {
    type V = TomlNodeView;

    open spec fn view(&self) -> TomlNodeView {
        match self {
            TomlNode::Missing => TomlNodeView::Missing,
            TomlNode::Text(s) => TomlNodeView::Text(s@),
            TomlNode::Table(keys) => TomlNodeView::Table(str_views(keys@)),
            TomlNode::Other => TomlNodeView::Other,
        }
    }
}

/// What an optional node stands for.
pub open spec fn node_view(n: Option<TomlNode>) -> Option<TomlNodeView> {
    match n {
        Some(x) => Some(x@),
        None => None,
    }
}

/// What stands at `path` in the TOML document `content`, the keys of a
/// table in the order in which the document's map holds them; `None` where
/// `content` is no TOML document.
pub uninterp spec fn toml_node(content: Seq<char>, path: Seq<Seq<char>>) -> Option<TomlNodeView>;

/// Parses `content` with `toml::from_str` into a `toml::Value` and follows
/// `path` with `toml::Value::get`. Claimed: what is handed back is what
/// `toml_node` names; nothing is claimed about what the document holds.
#[verifier::external_body]
pub(crate) fn toml_lookup(content: &str, path: &Vec<String>) -> (r: Option<TomlNode>)
    ensures
        node_view(r) == toml_node(content@, str_views(path@)),
{
    let doc: toml::Value = toml::from_str(content).ok()?;
    let mut cur = Some(&doc);
    for key in path {
        cur = cur.and_then(|v| v.get(key.as_str()));
    }
    Some(match cur {
        None => TomlNode::Missing,
        Some(toml::Value::String(s)) => TomlNode::Text(s.clone()),
        Some(toml::Value::Table(t)) => TomlNode::Table(t.keys().cloned().collect()),
        Some(_) => TomlNode::Other,
    })
}

} // verus!

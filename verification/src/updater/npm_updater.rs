//! Rewrites the version of one declaration of a `package.json`. The whole
//! document is written out again.

use vstd::prelude::*;
use crate::scanner::json_doc::{
    entry_views, json_section, read_section, JsonSection, JsonSectionView,
};
use crate::text::{
    lemma_not_prefix, lemma_strip_prefix, from_chars, has_prefix, push_all, same_str, starts_with,
    strip_prefix, text, to_chars, without_prefix,
};
use crate::types::{opt_view, Error, Package};
use crate::updater::cargo_updater::written;
use crate::types::result_view;
use crate::updater::json_editing::{json_with_entry, json_with_field, set_entry, set_field};

verus! {

/// The dependency map and the entry that the declaration `name` stands for.
pub open spec fn dependency_target(name: Seq<char>) -> Option<(Seq<char>, Seq<char>)> {
    if strip_prefix(name, "dependency-"@) is Some {
        Some(("dependencies"@, strip_prefix(name, "dependency-"@)->0))
    } else if strip_prefix(name, "devDependency-"@) is Some {
        Some(("devDependencies"@, strip_prefix(name, "devDependency-"@)->0))
    } else if strip_prefix(name, "peerDependency-"@) is Some {
        Some(("peerDependencies"@, strip_prefix(name, "peerDependency-"@)->0))
    } else {
        None
    }
}

/// The version `new` behind the range operator that `old` begins with: `^`,
/// `~` or `>=`. Without such an operator it is `new` itself.
pub open spec fn with_range_prefix(old: Seq<char>, new: Seq<char>) -> Seq<char> {
    if has_prefix(old, "^"@) {
        "^"@ + new
    } else if has_prefix(old, "~"@) {
        "~"@ + new
    } else if has_prefix(old, ">="@) {
        ">="@ + new
    } else {
        new
    }
}

/// The value of the first entry from index `from` on whose key
/// is `key`: `None` where there is no such entry, `Some(None)` where its
/// value is no string.
pub open spec fn entry_value(
    entries: Seq<(Seq<char>, Option<Seq<char>>)>,
    key: Seq<char>,
    from: int,
) -> Option<Option<Seq<char>>>
    decreases entries.len() - from,
{
    if from < 0 || from >= entries.len() {
        None
    } else if entries[from].0 == key {
        Some(entries[from].1)
    } else {
        entry_value(entries, key, from + 1)
    }
}

/// The document with `version` as the version of the entry `key` of the
/// dependency map `section`, behind the range operator that the entry had.
/// The entry has to be there and hold a string.
pub open spec fn updated_dependency(
    content: Seq<char>,
    section: Seq<char>,
    key: Seq<char>,
    version: Seq<char>,
) -> Result<Seq<char>, Error> {
    match json_section(content, section) {
        JsonSectionView::Invalid => Err(Error::ParseError),
        JsonSectionView::Absent => Err(Error::DeclarationNotFound),
        JsonSectionView::Entries(entries) => match entry_value(entries, key, 0) {
            Some(Some(old)) => written(
                json_with_entry(content, section, key, with_range_prefix(old, version)),
            ),
            _ => Err(Error::DeclarationNotFound),
        },
    }
}

/// The `package.json` `content` with `version` as the version of the
/// declaration `name`: an entry of a dependency map, or, for `package`, the
/// version of the package itself. A name of no known form is not found.
pub open spec fn updated_content(content: Seq<char>, name: Seq<char>, version: Seq<char>)
    -> Result<Seq<char>, Error> {
    match dependency_target(name) {
        Some((section, key)) => updated_dependency(content, section, key, version),
        None => if name == "package"@ {
            match json_with_field(content, "version"@, version) {
                Some(t) => Ok(t),
                None => Err(Error::ParseError),
            }
        } else {
            Err(Error::DeclarationNotFound)
        },
    }
}

/// The mutator for `package.json`.
pub struct NpmUpdater;

/// The value of the first entry whose key is `key`.
fn find_entry(entries: &Vec<(String, Option<String>)>, key: &str) -> (r: Option<Option<String>>)
    ensures
        match r {
            Some(v) => entry_value(entry_views(entries@), key@, 0) == Some(opt_view(v)),
            None => entry_value(entry_views(entries@), key@, 0) is None,
        },
{
    let mut i: usize = 0;
    let ghost ev = entry_views(entries@);
    while i < entries.len()
        invariant
            i <= entries.len(),
            ev == entry_views(entries@),
            entry_value(ev, key@, 0) == entry_value(ev, key@, i as int),
        decreases entries.len() - i,
    {
        assert(ev[i as int] == (entries@[i as int].0@, opt_view(entries@[i as int].1)));
        if same_str(&to_chars(entries[i].0.as_str()), key) {
            return Some(
                match &entries[i].1 {
                    Some(v) => Some(v.clone()),
                    None => None,
                },
            );
        }
        i += 1;
    }
    None
}

/// The dependency map and the entry that the declaration `name` stands for.
fn target_of(name: &Vec<char>) -> (r: Option<(String, String)>)
    ensures
        match r {
            Some((section, key)) => dependency_target(name@) == Some((section@, key@)),
            None => dependency_target(name@) is None,
        },
{
    match without_prefix(name, "dependency-") {
        Some(key) => { return Some((text("dependencies"), from_chars(&key))); },
        None => {},
    }
    match without_prefix(name, "devDependency-") {
        Some(key) => { return Some((text("devDependencies"), from_chars(&key))); },
        None => {},
    }
    match without_prefix(name, "peerDependency-") {
        Some(key) => Some((text("peerDependencies"), from_chars(&key))),
        None => None,
    }
}

impl NpmUpdater {
    pub fn new() -> (r: Self) {
        NpmUpdater
    }

    /// The version `new_version` behind the range operator that
    /// `old_version` begins with.
    pub fn version_with_prefix(&self, old_version: &str, new_version: &str) -> (r: String)
        ensures
            r@ == with_range_prefix(old_version@, new_version@),
    {
        let old = to_chars(old_version);
        let mut r = if starts_with(&old, "^") {
            to_chars("^")
        } else if starts_with(&old, "~") {
            to_chars("~")
        } else if starts_with(&old, ">=") {
            to_chars(">=")
        } else {
            let e: Vec<char> = Vec::new();
            assert(e@ + new_version@ =~= new_version@);
            e
        };
        push_all(&mut r, &to_chars(new_version));
        from_chars(&r)
    }

    /// Rewrites the version of the entry `dep_name` of the dependency map
    /// `section` of the document `content`.
    pub fn update_dependency(
        &self,
        content: &str,
        section: &str,
        dep_name: &str,
        new_version: &str,
    ) -> (r: Result<String, Error>)
        ensures
            result_view(r) == updated_dependency(content@, section@, dep_name@, new_version@),
    {
        match read_section(content, section) {
            JsonSection::Invalid => Err(Error::ParseError),
            JsonSection::Absent => Err(Error::DeclarationNotFound),
            JsonSection::Entries(entries) => {
                match find_entry(&entries, dep_name) {
                    Some(Some(old)) => {
                        let value = self.version_with_prefix(old.as_str(), new_version);
                        match set_entry(content, section, dep_name, value.as_str()) {
                            Some(t) => Ok(t),
                            None => Err(Error::DeclarationNotFound),
                        }
                    },
                    _ => Err(Error::DeclarationNotFound),
                }
            },
        }
    }

    /// Rewrites the version of the declaration `package` in the text
    /// `content` of a `package.json`.
    pub fn update_content(&self, content: &str, package: &Package, new_version: &str) -> (r:
        Result<String, Error>)
        ensures
            result_view(r) == updated_content(content@, package.name@, new_version@),
    {
        let name = to_chars(package.name.as_str());
        match target_of(&name) {
            Some((section, key)) => self.update_dependency(
                content,
                section.as_str(),
                key.as_str(),
                new_version,
            ),
            None => {
                if same_str(&name, "package") {
                    match set_field(content, "version", new_version) {
                        Some(t) => Ok(t),
                        None => Err(Error::ParseError),
                    }
                } else {
                    Err(Error::DeclarationNotFound)
                }
            },
        }
    }
}

/// Whether `version` begins with a range operator.
pub open spec fn has_range_prefix(version: Seq<char>) -> bool {
    has_prefix(version, "^"@) || has_prefix(version, "~"@) || has_prefix(version, ">="@)
}

/// The range operator stays: the version written for an entry begins with
/// the operator that the entry had, and holds the new version behind it.
pub proof fn lemma_range_prefix_kept(old: Seq<char>, new: Seq<char>)
    ensures
        has_prefix(old, "^"@) ==> with_range_prefix(old, new) == "^"@ + new,
        !has_range_prefix(old) ==> with_range_prefix(old, new) == new,
        has_range_prefix(old) ==> has_range_prefix(with_range_prefix(old, new)),
{
    reveal_strlit("^");
    reveal_strlit("~");
    reveal_strlit(">=");
    if has_prefix(old, "^"@) {
        assert(("^"@ + new).subrange(0, 1) =~= "^"@);
    } else if has_prefix(old, "~"@) {
        assert(("~"@ + new).subrange(0, 1) =~= "~"@);
    } else if has_prefix(old, ">="@) {
        assert((">="@ + new).subrange(0, 2) =~= ">="@);
    }
}

/// The same mutation again changes nothing: the version written for an
/// entry is written again when the entry is mutated to the same bare
/// version once more.
pub proof fn lemma_range_prefix_stable(old: Seq<char>, new: Seq<char>)
    requires
        !has_range_prefix(new),
    ensures
        with_range_prefix(with_range_prefix(old, new), new) == with_range_prefix(old, new),
{
    reveal_strlit("^");
    reveal_strlit("~");
    reveal_strlit(">=");
    if has_prefix(old, "^"@) {
        assert(("^"@ + new).subrange(0, 1) =~= "^"@);
    } else if has_prefix(old, "~"@) {
        let w = "~"@ + new;
        assert(w.subrange(0, 1) =~= "~"@);
        assert(!has_prefix(w, "^"@)) by {
            if has_prefix(w, "^"@) {
                assert(w.subrange(0, 1)[0] == w[0]);
            }
        }
    } else if has_prefix(old, ">="@) {
        let w = ">="@ + new;
        assert(w.subrange(0, 2) =~= ">="@);
        assert(!has_prefix(w, "^"@)) by {
            if has_prefix(w, "^"@) {
                assert(w.subrange(0, 1)[0] == w[0]);
            }
        }
        assert(!has_prefix(w, "~"@)) by {
            if has_prefix(w, "~"@) {
                assert(w.subrange(0, 1)[0] == w[0]);
            }
        }
    }
}

/// The names that the scanner gives are read back: the name of the entry
/// `key` of `dependencies` or of `devDependencies` stands for that map and
/// that entry.
pub proof fn lemma_scanned_names_are_found(key: Seq<char>)
    ensures
        dependency_target("dependency-"@ + key) == Some(("dependencies"@, key)),
        dependency_target("devDependency-"@ + key) == Some(("devDependencies"@, key)),
{
    reveal_strlit("dependency-");
    reveal_strlit("devDependency-");
    lemma_strip_prefix("dependency-"@, key);
    lemma_strip_prefix("devDependency-"@, key);
    let dev = "devDependency-"@ + key;
    assert(dev[2] == 'v');
    lemma_not_prefix(dev, "dependency-"@, 2);
}

} // verus!

//! Declarations of a `package.json`: each entry of `dependencies` and of
//! `devDependencies`. JSON has no comments, so the declarations of this
//! format carry no annotations.

use vstd::prelude::*;
use crate::scanner::json_doc::{
    entry_views, json_section, read_section, JsonSection, JsonSectionView,
};
use crate::types::scan_view;
use crate::text::{push_str, text, from_chars, to_chars};
use crate::types::{
    opt_view, package_views, Error, FileType, Options, Package, PackageView, SourceHint,
    SourceHintView, SourceType, UpdateStrategy,
};

verus! {

/// The declaration of the entry `key` of a dependency map: its version is
/// the value where that is a string, and `unknown` otherwise.
pub open spec fn entry_package(
    path: Seq<char>,
    prefix: Seq<char>,
    key: Seq<char>,
    value: Option<Seq<char>>,
) -> PackageView {
    PackageView {
        path,
        file_type: FileType::PackageJson,
        name: prefix + key,
        current_version: match value {
            Some(v) => v,
            None => "unknown"@,
        },
        sources: seq![SourceHintView { source_type: SourceType::Npm, identifier: key, url: None }],
        update_strategy: UpdateStrategy::Stable,
        annotations: Seq::empty(),
        metadata: Map::empty(),
    }
}

/// The declarations of the first `count` of `entries`.
pub open spec fn entry_packages(
    path: Seq<char>,
    prefix: Seq<char>,
    entries: Seq<(Seq<char>, Option<Seq<char>>)>,
    count: int,
) -> Seq<PackageView>
    decreases count,
{
    if count <= 0 {
        Seq::empty()
    } else {
        entry_packages(path, prefix, entries, count - 1).push(
            entry_package(path, prefix, entries[count - 1].0, entries[count - 1].1),
        )
    }
}

/// The declarations of one dependency map, and none where the document has
/// no such map.
pub open spec fn section_packages(path: Seq<char>, prefix: Seq<char>, section: JsonSectionView)
    -> Seq<PackageView> {
    match section {
        JsonSectionView::Entries(entries) => entry_packages(
            path,
            prefix,
            entries,
            entries.len() as int,
        ),
        _ => Seq::empty(),
    }
}

/// The declarations of the `package.json` with text `content`: the entries
/// of `dependencies`, then those of `devDependencies`. A text that is no
/// JSON document gives a parse error.
pub open spec fn scanned(path: Seq<char>, content: Seq<char>) -> Result<Seq<PackageView>, Error> {
    if json_section(content, "dependencies"@) is Invalid || json_section(
        content,
        "devDependencies"@,
    ) is Invalid {
        Err(Error::ParseError)
    } else {
        Ok(
            section_packages(path, "dependency-"@, json_section(content, "dependencies"@))
                + section_packages(
                path,
                "devDependency-"@,
                json_section(content, "devDependencies"@),
            ),
        )
    }
}

/// The scanner for `package.json`.
pub struct NpmScanner;

impl NpmScanner {
    pub fn new() -> (r: Self) {
        NpmScanner
    }

    /// Adds the declarations of the entries of one dependency map, each
    /// named `prefix` followed by its key.
    pub fn add_entries(
        &self,
        path: &str,
        prefix: &str,
        entries: &Vec<(String, Option<String>)>,
        packages: &mut Vec<Package>,
    )
        ensures
            package_views(final(packages)@) == package_views(old(packages)@) + entry_packages(
                path@,
                prefix@,
                entry_views(entries@),
                entries.len() as int,
            ),
    {
        let ghost start = package_views(packages@);
        let ghost ev = entry_views(entries@);
        let mut i: usize = 0;
        assert(start + Seq::<PackageView>::empty() =~= start);
        while i < entries.len()
            invariant
                i <= entries.len(),
                ev == entry_views(entries@),
                package_views(packages@) == start + entry_packages(path@, prefix@, ev, i as int),
            decreases entries.len() - i,
        {
            let key = &entries[i].0;
            assert(ev[i as int] == (entries@[i as int].0@, opt_view(entries@[i as int].1)));
            let version = match &entries[i].1 {
                Some(v) => v.clone(),
                None => text("unknown"),
            };
            let mut name = to_chars(prefix);
            push_str(&mut name, key.as_str());
            let mut sources: Vec<SourceHint> = Vec::new();
            sources.push(
                SourceHint { source_type: SourceType::Npm, identifier: key.clone(), url: None },
            );
            let p = Package {
                path: text(path),
                file_type: FileType::PackageJson,
                name: from_chars(&name),
                current_version: version,
                sources,
                update_strategy: UpdateStrategy::Stable,
                annotations: Vec::new(),
                metadata: Options::new(),
            };
            let ghost expected = entry_package(path@, prefix@, ev[i as int].0, ev[i as int].1);
            assert(p@.sources =~= expected.sources);
            assert(p@.annotations =~= expected.annotations);
            let ghost before = package_views(packages@);
            packages.push(p);
            assert(package_views(packages@) =~= before.push(p@));
            assert(before.push(p@) =~= start + entry_packages(path@, prefix@, ev, i as int).push(
                p@,
            ));
            i += 1;
        }
    }

    /// The declarations of the `package.json` at `path` with text
    /// `content`.
    pub fn scan_content(&self, path: &str, content: &str) -> (r: Result<Vec<Package>, Error>)
        ensures
            scan_view(r) == scanned(path@, content@),
    {
        let mut packages: Vec<Package> = Vec::new();
        assert(package_views(packages@) =~= Seq::<PackageView>::empty());
        let dependencies = read_section(content, "dependencies");
        let dev = read_section(content, "devDependencies");
        match (&dependencies, &dev) {
            (JsonSection::Invalid, _) => { return Err(Error::ParseError); },
            (_, JsonSection::Invalid) => { return Err(Error::ParseError); },
            _ => {},
        }
        match &dependencies {
            JsonSection::Entries(entries) => {
                self.add_entries(path, "dependency-", entries, &mut packages);
            },
            _ => {},
        }
        let ghost first = package_views(packages@);
        assert(first =~= section_packages(path@, "dependency-"@, dependencies@));
        match &dev {
            JsonSection::Entries(entries) => {
                self.add_entries(path, "devDependency-", entries, &mut packages);
            },
            _ => {
                assert(first + Seq::<PackageView>::empty() =~= first);
            },
        }
        Ok(packages)
    }
}

} // verus!

//! Declarations of a `go.mod`: the `go` directive and each `require` entry.

use vstd::prelude::*;
use crate::pattern::{captures, group, regex_captures, regex_group};
use crate::scanner::correlation::{correlate, correlated};
use crate::text::{
    from_chars, has_prefix, lines, lines_of, same_str, starts_with, to_chars, trim, trimmed, views,
};
use crate::types::{
    annotation_views, package_views, Annotation, AnnotationView, Error, FileType, Options, Package,
    PackageView, SourceHint, SourceHintView, SourceType, UpdateStrategy,
};

verus! {

/// The regular expression of the `go` directive: at the start of a line,
/// `go`, white space, and a version of two or three numbers.
pub open spec fn go_directive_pattern() -> Seq<char> {
    "(?m)^go\\s+(\\d+\\.\\d+(?:\\.\\d+)?)"@
}

/// The regular expression of a `require` entry, matched against a trimmed
/// line: an optional `require`, the module path, white space, `v` and the
/// version, and an optional `//` comment.
pub open spec fn require_pattern() -> Seq<char> {
    "^(?:require\\s+)?([^\\s]+)\\s+v(.+?)(?:\\s+//.*)?$"@
}

/// The declaration of the `go` directive with version `version`.
pub open spec fn go_version_package(path: Seq<char>, version: Seq<char>) -> PackageView {
    PackageView {
        path,
        file_type: FileType::GoMod,
        name: "go-version"@,
        current_version: version,
        sources: Seq::empty(),
        update_strategy: UpdateStrategy::Conservative,
        annotations: Seq::empty(),
        metadata: Map::empty(),
    }
}

/// The declaration of a `require` entry.
pub open spec fn require_package(
    path: Seq<char>,
    module: Seq<char>,
    version: Seq<char>,
    annotations: Seq<AnnotationView>,
) -> PackageView {
    PackageView {
        path,
        file_type: FileType::GoMod,
        name: module,
        current_version: version,
        sources: seq![
            SourceHintView { source_type: SourceType::Git, identifier: module, url: None },
        ],
        update_strategy: UpdateStrategy::Stable,
        annotations,
        metadata: Map::empty(),
    }
}

/// The module path and the version that a trimmed line gives as a `require`
/// entry, where it has that form.
pub open spec fn require_entry(trimmed: Seq<char>) -> Option<(Seq<char>, Seq<char>)> {
    match regex_captures(require_pattern(), trimmed) {
        Some(groups) => if groups.len() > 2 && groups[1] is Some && groups[2] is Some {
            Some((groups[1]->0, groups[2]->0))
        } else {
            None
        },
        None => None,
    }
}

/// Whether line `index` opens or closes a `require ( )` block, given whether
/// it stands in one.
pub open spec fn is_block_marker(line: Seq<char>, in_block: bool) -> bool {
    trim(line) == "require ("@ || (in_block && trim(line) == ")"@)
}

/// The declaration that line `index` of `lines` gives, where it is a
/// `require` entry: inside a block, or on a line that begins with `require`.
/// A line of another form gives none, and so does a line that is a comment
/// and nothing else.
pub open spec fn line_package(path: Seq<char>, lines: Seq<Seq<char>>, index: int, in_block: bool)
    -> Option<PackageView> {
    let t = trim(lines[index]);
    if is_block_marker(lines[index], in_block) || has_prefix(t, "//"@) {
        None
    } else if in_block || has_prefix(t, "require "@) {
        match require_entry(t) {
            Some((module, version)) => Some(
                require_package(path, module, version, correlated(lines, index, false)),
            ),
            None => None,
        }
    } else {
        None
    }
}

/// What reading some lines of the file has given.
pub struct Progress {
    /// The declarations found, in the order of their lines.
    pub packages: Seq<PackageView>,
    /// Whether the next line stands inside `require ( )`.
    pub in_block: bool,
}

/// What reading the first `count` lines gives.
pub open spec fn requires_before(path: Seq<char>, lines: Seq<Seq<char>>, count: int) -> Progress
    decreases count,
{
    if count <= 0 {
        Progress { packages: Seq::empty(), in_block: false }
    } else {
        let prev = requires_before(path, lines, count - 1);
        let line = lines[count - 1];
        Progress {
            packages: match line_package(path, lines, count - 1, prev.in_block) {
                Some(p) => prev.packages.push(p),
                None => prev.packages,
            },
            in_block: crate::updater::go_updater::block_after(line, prev.in_block),
        }
    }
}

/// The declarations of the `go.mod` with text `content`: the `go` directive
/// first, where there is one, then the `require` entries in the order of
/// their lines.
pub open spec fn scanned(path: Seq<char>, content: Seq<char>) -> Seq<PackageView> {
    let entries = requires_before(path, lines(content), lines(content).len() as int).packages;
    match regex_group(go_directive_pattern(), content, 1) {
        Some(version) => seq![go_version_package(path, version)] + entries,
        None => entries,
    }
}

/// The scanner for `go.mod`.
pub struct GoModScanner;

/// The declaration of a `require` entry.
pub fn new_require_package(
    path: &str,
    module: &str,
    version: &str,
    annotations: Vec<Annotation>,
) -> (r: Package)
    ensures
        r@ == require_package(path@, module@, version@, annotation_views(annotations@)),
{
    let mut sources: Vec<SourceHint> = Vec::new();
    sources.push(
        SourceHint {
            source_type: SourceType::Git,
            identifier: from_chars(&to_chars(module)),
            url: None,
        },
    );
    let r = Package {
        path: from_chars(&to_chars(path)),
        file_type: FileType::GoMod,
        name: from_chars(&to_chars(module)),
        current_version: from_chars(&to_chars(version)),
        sources,
        update_strategy: UpdateStrategy::Stable,
        annotations,
        metadata: Options::new(),
    };
    assert(r@.sources =~= require_package(
        path@,
        module@,
        version@,
        annotation_views(annotations@),
    ).sources);
    r
}

/// The declaration of the `go` directive.
pub fn new_go_version_package(path: &str, version: &str) -> (r: Package)
    ensures
        r@ == go_version_package(path@, version@),
{
    let r = Package {
        path: from_chars(&to_chars(path)),
        file_type: FileType::GoMod,
        name: from_chars(&to_chars("go-version")),
        current_version: from_chars(&to_chars(version)),
        sources: Vec::new(),
        update_strategy: UpdateStrategy::Conservative,
        annotations: Vec::new(),
        metadata: Options::new(),
    };
    assert(r@.sources =~= Seq::<SourceHintView>::empty());
    assert(r@.annotations =~= Seq::<AnnotationView>::empty());
    r
}

/// The module path and the version of a trimmed `require` entry.
fn read_require_entry(trimmed: &Vec<char>) -> (r: Option<(String, String)>)
    ensures
        match r {
            Some((m, v)) => require_entry(trimmed@) == Some((m@, v@)),
            None => require_entry(trimmed@) is None,
        },
{
    let text = from_chars(trimmed);
    match captures("^(?:require\\s+)?([^\\s]+)\\s+v(.+?)(?:\\s+//.*)?$", text.as_str()) {
        Some(groups) => {
            if groups.len() > 2 {
                match (&groups[1], &groups[2]) {
                    (Some(m), Some(v)) => Some((m.clone(), v.clone())),
                    _ => None,
                }
            } else {
                None
            }
        },
        None => None,
    }
}

impl GoModScanner {
    pub fn new() -> (r: Self) {
        GoModScanner
    }

    /// The declarations of the `go.mod` at `path` with text `content`.
    pub fn scan_content(&self, path: &str, content: &str) -> (r: Result<Vec<Package>, Error>)
        ensures
            r is Ok,
            package_views(r->Ok_0@) == scanned(path@, content@),
    {
        let mut packages: Vec<Package> = Vec::new();
        let ghost mut head: Seq<PackageView> = Seq::empty();
        match group("(?m)^go\\s+(\\d+\\.\\d+(?:\\.\\d+)?)", content, 1) {
            Some(version) => {
                let p = new_go_version_package(path, version.as_str());
                packages.push(p);
                proof {
                    head = seq![go_version_package(path@, version@)];
                }
            },
            None => {},
        }
        assert(package_views(packages@) =~= head);
        let source = lines_of(&to_chars(content));
        let mut in_block = false;
        let mut i: usize = 0;
        while i < source.len()
            invariant
                i <= source.len(),
                views(source@) == lines(content@),
                package_views(packages@) == head + requires_before(
                    path@,
                    views(source@),
                    i as int,
                ).packages,
                in_block == requires_before(path@, views(source@), i as int).in_block,
            decreases source.len() - i,
        {
            let line = &source[i];
            let ghost before = package_views(packages@);
            assert(views(source@)[i as int] == line@);
            let t = trimmed(line);
            if same_str(&t, "require (") {
                in_block = true;
            } else if in_block && same_str(&t, ")") {
                in_block = false;
            } else if starts_with(&t, "//") {
            } else if in_block || starts_with(&t, "require ") {
                match read_require_entry(&t) {
                    Some((module, version)) => {
                        let annotations = correlate(&source, i, false);
                        let p = new_require_package(
                            path,
                            module.as_str(),
                            version.as_str(),
                            annotations,
                        );
                        packages.push(p);
                        assert(package_views(packages@) =~= before.push(p@));
                        assert(before.push(p@) =~= head + requires_before(
                            path@,
                            views(source@),
                            i as int,
                        ).packages.push(p@));
                    },
                    None => {},
                }
            }
            i += 1;
        }
        Ok(packages)
    }
}

/// A directive stays on its line: the annotations of an entry come from
/// its own line or from comment lines above it, so none of them comes from
/// the line of another entry.
pub proof fn lemma_directive_stays_on_its_line(
    path: Seq<char>,
    lines: Seq<Seq<char>>,
    own: int,
    other: int,
    own_in_block: bool,
    other_in_block: bool,
)
    requires
        0 <= own < lines.len(),
        0 <= other < lines.len(),
        own < usize::MAX,
        other < usize::MAX,
        own != other,
        line_package(path, lines, own, own_in_block) is Some,
    ensures
        line_package(path, lines, other, other_in_block) matches Some(p) ==> forall|j: int|
            0 <= j < p.annotations.len() ==> (#[trigger] p.annotations[j]).line != own + 1,
{
    if let Some(p) = line_package(path, lines, other, other_in_block) {
        assert(p.annotations == correlated(lines, other, false));
        assert(!crate::scanner::correlation::comment_only(lines[own], false));
        assert forall|j: int| 0 <= j < p.annotations.len() implies (#[trigger] p.annotations[j]).line
            != own + 1 by {
            let a = p.annotations[j];
            lemma_annotation_line(lines[other], (other + 1) as usize);
            if other >= 1 {
                lemma_annotation_line(lines[other - 1], other as usize);
            }
            if other >= 2 {
                lemma_annotation_line(lines[other - 2], (other - 1) as usize);
            }
        }
    }
}

/// The annotation of a line carries the number of that line.
pub proof fn lemma_annotation_line(line: Seq<char>, number: usize)
    ensures
        crate::scanner::annotation_parser::line_annotation(line, number) matches Some(a)
            ==> a.line == number,
{
}

} // verus!

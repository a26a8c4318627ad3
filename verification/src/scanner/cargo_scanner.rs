//! Declarations of a `Cargo.toml`: the package version and each dependency
//! of each dependency section.

use vstd::prelude::*;
use crate::scanner::correlation::{correlate, correlated};
use crate::scanner::toml_doc::{toml_lookup, toml_node, TomlNode, TomlNodeView};
use crate::text::{
    chars_of_all, copy, extended, from_chars, has_prefix, has_string, lines, lines_of, matches_at,
    push_all, push_str, starts_with, str_views, text, to_chars, trim, trimmed, views,
};
use crate::types::{
    annotation_views, opt_view, package_views, Annotation, AnnotationView, Error, FileType, Options,
    Package, PackageView, SourceHint, SourceHintView, SourceType, UpdateStrategy,
};

verus! {

/// What the value of a dependency entry holds, as far as a scan reads it.
#[derive(Debug, Clone, PartialEq, Eq)]
pub enum DependencyValue {
    /// A bare version string.
    Version(String),
    /// A table, with its `version` where that is a string, and whether it
    /// has the key `git`.
    Table { version: Option<String>, git: bool },
    /// A value of another kind.
    Other,
}

/// What a `DependencyValue` stands for.
pub enum DependencyValueView {
    Version(Seq<char>),
    Table { version: Option<Seq<char>>, git: bool },
    Other,
}

impl View for DependencyValue {
    type V = DependencyValueView;

    open spec fn view(&self) -> DependencyValueView {
        match self {
            DependencyValue::Version(v) => DependencyValueView::Version(v@),
            DependencyValue::Table { version, git } => DependencyValueView::Table {
                version: opt_view(*version),
                git: *git,
            },
            DependencyValue::Other => DependencyValueView::Other,
        }
    }
}

/// The version that a dependency value pins: the bare string, the `version`
/// of a table, and `unknown` where there is neither.
pub open spec fn dependency_version(value: DependencyValueView) -> Seq<char> {
    match value {
        DependencyValueView::Version(v) => v,
        DependencyValueView::Table { version: Some(v), git } => v,
        _ => "unknown"@,
    }
}

/// Where a dependency comes from: version control for a table with `git`,
/// the package registry otherwise, also for one with a `path`.
pub open spec fn dependency_source_type(value: DependencyValueView) -> SourceType {
    match value {
        DependencyValueView::Table { version, git: true } => SourceType::Git,
        _ => SourceType::Crates,
    }
}

/// The source hint of the dependency `name`.
pub open spec fn dependency_hint(name: Seq<char>, value: DependencyValueView) -> SourceHintView {
    SourceHintView { source_type: dependency_source_type(value), identifier: name, url: None }
}

/// Whether the trimmed line `t` binds `name`, bare or quoted.
pub open spec fn binds(t: Seq<char>, name: Seq<char>) -> bool {
    has_prefix(t, name + " ="@) || has_prefix(t, "\""@ + name + "\" ="@)
}

/// Whether the line after the trimmed line `t` stands in the section
/// `section`, given whether `t` does.
pub open spec fn section_after(t: Seq<char>, section: Seq<char>, in_section: bool) -> bool {
    if has_prefix(t, "["@ + section + "]"@) {
        true
    } else if has_prefix(t, "["@) && !has_prefix(t, "[["@) {
        false
    } else {
        in_section
    }
}

/// The index of the first line from `from` on that binds `name` inside the
/// section `section`. `in_section` tells whether line `from` follows the
/// header of that section with no other table header in between.
pub open spec fn dependency_line(
    lines: Seq<Seq<char>>,
    name: Seq<char>,
    section: Seq<char>,
    from: int,
    in_section: bool,
) -> Option<int>
    decreases lines.len() - from,
{
    if from < 0 || from >= lines.len() {
        None
    } else {
        let t = trim(lines[from]);
        let inside = section_after(t, section, in_section);
        if !has_prefix(t, "["@ + section + "]"@) && inside && binds(t, name) {
            Some(from)
        } else {
            dependency_line(lines, name, section, from + 1, inside)
        }
    }
}

/// The annotations of the entry `name` of the section `section`: those of
/// the line that binds it, and none where no line does.
pub open spec fn entry_annotations(lines: Seq<Seq<char>>, name: Seq<char>, section: Seq<char>)
    -> Seq<AnnotationView> {
    match dependency_line(lines, name, section, 0, false) {
        Some(i) => correlated(lines, i, true),
        None => Seq::empty(),
    }
}

/// A declaration of a `Cargo.toml`.
pub open spec fn cargo_package(
    path: Seq<char>,
    name: Seq<char>,
    version: Seq<char>,
    hint: SourceHintView,
    annotations: Seq<AnnotationView>,
) -> PackageView {
    PackageView {
        path,
        file_type: FileType::CargoToml,
        name,
        current_version: version,
        sources: seq![hint],
        update_strategy: UpdateStrategy::Stable,
        annotations,
        metadata: Map::empty(),
    }
}

/// The text at `path` in the document, where a string stands there.
pub open spec fn text_at(content: Seq<char>, path: Seq<Seq<char>>) -> Option<Seq<char>> {
    match toml_node(content, path) {
        Some(TomlNodeView::Text(s)) => Some(s),
        _ => None,
    }
}

/// The keys of the table at `path` in the document, where a table stands
/// there.
pub open spec fn keys_at(content: Seq<char>, path: Seq<Seq<char>>) -> Option<Seq<Seq<char>>> {
    match toml_node(content, path) {
        Some(TomlNodeView::Table(keys)) => Some(keys),
        _ => None,
    }
}

/// What the dependency entry at `path` holds.
pub open spec fn dependency_at(content: Seq<char>, path: Seq<Seq<char>>) -> DependencyValueView {
    match toml_node(content, path) {
        Some(TomlNodeView::Text(v)) => DependencyValueView::Version(v),
        Some(TomlNodeView::Table(keys)) => DependencyValueView::Table {
            version: text_at(content, path.push("version"@)),
            git: keys.contains("git"@),
        },
        _ => DependencyValueView::Other,
    }
}

/// How declarations of one section are made.
pub struct SectionView {
    /// The path of the section's table in the document.
    pub path: Seq<Seq<char>>,
    /// What the name of each declaration begins with.
    pub prefix: Seq<char>,
    /// The header under which the lines of the section stand, where its
    /// entries are annotated.
    pub header: Option<Seq<char>>,
}

/// The declaration of the entry `key` of the section `section`.
pub open spec fn entry_package(
    path: Seq<char>,
    content: Seq<char>,
    section: SectionView,
    key: Seq<char>,
) -> PackageView {
    let value = dependency_at(content, section.path.push(key));
    cargo_package(
        path,
        section.prefix + key,
        dependency_version(value),
        dependency_hint(key, value),
        match section.header {
            Some(h) => entry_annotations(lines(content), key, h),
            None => Seq::empty(),
        },
    )
}

/// The declarations of the first `count` of the entries `keys` of a
/// section.
pub open spec fn entry_packages(
    path: Seq<char>,
    content: Seq<char>,
    section: SectionView,
    keys: Seq<Seq<char>>,
    count: int,
) -> Seq<PackageView>
    decreases count,
{
    if count <= 0 {
        Seq::empty()
    } else {
        entry_packages(path, content, section, keys, count - 1).push(
            entry_package(path, content, section, keys[count - 1]),
        )
    }
}

/// The declarations of one section: one for each entry of its table, and
/// none where the document has no such table.
pub open spec fn section_packages(path: Seq<char>, content: Seq<char>, section: SectionView)
    -> Seq<PackageView> {
    match keys_at(content, section.path) {
        Some(keys) => entry_packages(path, content, section, keys, keys.len() as int),
        None => Seq::empty(),
    }
}

/// What the names of the declarations of a dependency section begin with,
/// before the hyphen.
pub open spec fn section_label(kind: int) -> Seq<char> {
    if kind == 0 {
        "dependencies"@
    } else if kind == 1 {
        "dev"@
    } else {
        "build"@
    }
}

/// The name of a dependency section.
pub open spec fn section_name(kind: int) -> Seq<char> {
    if kind == 0 {
        "dependencies"@
    } else if kind == 1 {
        "dev-dependencies"@
    } else {
        "build-dependencies"@
    }
}

/// The dependency section number `kind` at the top of the document.
pub open spec fn top_section(kind: int) -> SectionView {
    SectionView {
        path: seq![section_name(kind)],
        prefix: section_label(kind) + "-"@,
        header: Some(section_name(kind)),
    }
}

/// The dependency section of the workspace.
pub open spec fn workspace_section() -> SectionView {
    SectionView {
        path: seq!["workspace"@, "dependencies"@],
        prefix: "workspace-dependency-"@,
        header: Some("workspace.dependencies"@),
    }
}

/// The dependency section number `kind` of the target `target`.
pub open spec fn target_section(target: Seq<char>, kind: int) -> SectionView {
    SectionView {
        path: seq!["target"@, target, section_name(kind)],
        prefix: "target."@ + target + "."@ + section_label(kind) + "-"@,
        header: None,
    }
}

/// The declarations of the three dependency sections of one target.
pub open spec fn one_target_packages(path: Seq<char>, content: Seq<char>, target: Seq<char>)
    -> Seq<PackageView> {
    section_packages(path, content, target_section(target, 0)) + section_packages(
        path,
        content,
        target_section(target, 1),
    ) + section_packages(path, content, target_section(target, 2))
}

/// The declarations of the first `count` of the targets `targets`.
pub open spec fn target_packages(
    path: Seq<char>,
    content: Seq<char>,
    targets: Seq<Seq<char>>,
    count: int,
) -> Seq<PackageView>
    decreases count,
{
    if count <= 0 {
        Seq::empty()
    } else {
        target_packages(path, content, targets, count - 1) + one_target_packages(
            path,
            content,
            targets[count - 1],
        )
    }
}

/// The declarations of all targets.
pub open spec fn all_target_packages(path: Seq<char>, content: Seq<char>) -> Seq<PackageView> {
    match keys_at(content, seq!["target"@]) {
        Some(targets) => target_packages(path, content, targets, targets.len() as int),
        None => Seq::empty(),
    }
}

/// The annotations of the package version: those of the line that binds
/// `version` in the section `package`.
pub open spec fn crate_annotations(lines: Seq<Seq<char>>) -> Seq<AnnotationView> {
    entry_annotations(lines, "version"@, "package"@)
}

/// The declaration of the package's own version, where the document gives
/// the package a name and a version.
pub open spec fn crate_packages(path: Seq<char>, content: Seq<char>) -> Seq<PackageView> {
    match (
        text_at(content, seq!["package"@, "version"@]),
        text_at(content, seq!["package"@, "name"@]),
    ) {
        (Some(version), Some(name)) => seq![
            cargo_package(
                path,
                "crate-"@ + name,
                version,
                SourceHintView { source_type: SourceType::Crates, identifier: name, url: None },
                crate_annotations(lines(content)),
            ),
        ],
        _ => Seq::empty(),
    }
}

/// The declarations of the `Cargo.toml` with text `content`: the package
/// version, the entries of `dependencies`, `dev-dependencies` and
/// `build-dependencies`, those of `workspace.dependencies`, and those of
/// the three sections of each target, in this order. A text that is no TOML
/// document gives a parse error.
pub open spec fn scanned(path: Seq<char>, content: Seq<char>) -> Result<Seq<PackageView>, Error> {
    if toml_node(content, Seq::empty()) is None {
        Err(Error::ParseError)
    } else {
        Ok(
            crate_packages(path, content) + section_packages(path, content, top_section(0))
                + section_packages(path, content, top_section(1)) + section_packages(
                path,
                content,
                top_section(2),
            ) + section_packages(path, content, workspace_section()) + all_target_packages(
                path,
                content,
            ),
        )
    }
}

/// The scanner for `Cargo.toml`.
pub struct CargoScanner;

/// How declarations of one section are made.
pub struct Section {
    pub path: Vec<String>,
    pub prefix: String,
    pub header: Option<String>,
}

impl View for Section {
    type V = SectionView;

    open spec fn view(&self) -> SectionView {
        SectionView {
            path: str_views(self.path@),
            prefix: self.prefix@,
            header: opt_view(self.header),
        }
    }
}

/// The index of the first line that binds `name` inside the section
/// `section`.
fn find_line(lines: &Vec<Vec<char>>, name: &Vec<char>, section: &Vec<char>) -> (r: Option<usize>)
    ensures
        match r {
            Some(i) => i < lines.len() && dependency_line(views(lines@), name@, section@, 0, false)
                == Some(i as int),
            None => dependency_line(views(lines@), name@, section@, 0, false) is None,
        },
{
    let mut header = to_chars("[");
    push_all(&mut header, section);
    push_str(&mut header, "]");
    let mut bare = copy(name);
    push_str(&mut bare, " =");
    let mut quoted = to_chars("\"");
    push_all(&mut quoted, name);
    push_str(&mut quoted, "\" =");
    let mut in_section = false;
    let mut i: usize = 0;
    let ghost l = views(lines@);
    while i < lines.len()
        invariant
            i <= lines.len(),
            l == views(lines@),
            header@ == "["@ + section@ + "]"@,
            bare@ == name@ + " ="@,
            quoted@ == "\""@ + name@ + "\" ="@,
            dependency_line(l, name@, section@, 0, false) == dependency_line(
                l,
                name@,
                section@,
                i as int,
                in_section,
            ),
        decreases lines.len() - i,
    {
        assert(l[i as int] == lines@[i as int]@);
        let t = trimmed(&lines[i]);
        if matches_at(&t, &header, 0) {
            in_section = true;
        } else {
            if starts_with(&t, "[") && !starts_with(&t, "[[") {
                in_section = false;
            }
            if in_section && (matches_at(&t, &bare, 0) || matches_at(&t, &quoted, 0)) {
                return Some(i);
            }
        }
        i += 1;
    }
    None
}

/// The annotations of the entry `name` of the section `section`.
fn annotations_of_entry(lines: &Vec<Vec<char>>, name: &str, section: &str) -> (r: Vec<Annotation>)
    ensures
        annotation_views(r@) == entry_annotations(views(lines@), name@, section@),
{
    match find_line(lines, &to_chars(name), &to_chars(section)) {
        Some(i) => correlate(lines, i, true),
        None => {
            let r: Vec<Annotation> = Vec::new();
            assert(annotation_views(r@) =~= Seq::<AnnotationView>::empty());
            r
        },
    }
}

/// A declaration of a `Cargo.toml`.
fn new_package(
    path: &str,
    name: String,
    version: String,
    hint: SourceHint,
    annotations: Vec<Annotation>,
) -> (r: Package)
    ensures
        r@ == cargo_package(path@, name@, version@, hint@, annotation_views(annotations@)),
{
    let mut sources: Vec<SourceHint> = Vec::new();
    sources.push(hint);
    let r = Package {
        path: text(path),
        file_type: FileType::CargoToml,
        name,
        current_version: version,
        sources,
        update_strategy: UpdateStrategy::Stable,
        annotations,
        metadata: Options::new(),
    };
    assert(r@.sources =~= seq![hint@]);
    r
}

/// The text at `path` in the document.
fn read_text(content: &str, path: &Vec<String>) -> (r: Option<String>)
    ensures
        opt_view(r) == text_at(content@, str_views(path@)),
{
    match toml_lookup(content, path) {
        Some(TomlNode::Text(s)) => Some(s),
        _ => None,
    }
}

/// The keys of the table at `path` in the document.
fn read_keys(content: &str, path: &Vec<String>) -> (r: Option<Vec<String>>)
    ensures
        match r {
            Some(keys) => keys_at(content@, str_views(path@)) == Some(str_views(keys@)),
            None => keys_at(content@, str_views(path@)) is None,
        },
{
    match toml_lookup(content, path) {
        Some(TomlNode::Table(keys)) => Some(keys),
        _ => None,
    }
}

/// What the dependency entry at `path` holds.
fn read_dependency(content: &str, path: &Vec<String>) -> (r: DependencyValue)
    ensures
        r@ == dependency_at(content@, str_views(path@)),
{
    match toml_lookup(content, path) {
        Some(TomlNode::Text(v)) => DependencyValue::Version(v),
        Some(TomlNode::Table(keys)) => {
            let version = read_text(content, &extended(path, "version"));
            DependencyValue::Table { version, git: has_string(&keys, "git") }
        },
        _ => DependencyValue::Other,
    }
}

/// Adds the declarations of one section.
fn scan_section(
    path: &str,
    content: &str,
    lines: &Vec<Vec<char>>,
    section: &Section,
    packages: &mut Vec<Package>,
)
    requires
        views(lines@) == crate::text::lines(content@),
    ensures
        package_views(final(packages)@) == package_views(old(packages)@) + section_packages(
            path@,
            content@,
            section@,
        ),
{
    let ghost start = package_views(packages@);
    match read_keys(content, &section.path) {
        Some(keys) => {
            let mut i: usize = 0;
            let ghost k = str_views(keys@);
            assert(start + Seq::<PackageView>::empty() =~= start);
            while i < keys.len()
                invariant
                    i <= keys.len(),
                    k == str_views(keys@),
                    views(lines@) == crate::text::lines(content@),
                    package_views(packages@) == start + entry_packages(
                        path@,
                        content@,
                        section@,
                        k,
                        i as int,
                    ),
                decreases keys.len() - i,
            {
                let key = &keys[i];
                assert(k[i as int] == key@);
                let value = read_dependency(content, &extended(&section.path, key.as_str()));
                let (version, hint) = CargoScanner::new().parse_dependency(key.as_str(), &value);
                let annotations = match &section.header {
                    Some(h) => annotations_of_entry(lines, key.as_str(), h.as_str()),
                    None => {
                        let none: Vec<Annotation> = Vec::new();
                        assert(annotation_views(none@) =~= Seq::<AnnotationView>::empty());
                        none
                    },
                };
                let mut name = to_chars(section.prefix.as_str());
                push_str(&mut name, key.as_str());
                let p = new_package(path, from_chars(&name), version, hint, annotations);
                let ghost before = package_views(packages@);
                packages.push(p);
                assert(package_views(packages@) =~= before.push(p@));
                assert(before.push(p@) =~= start + entry_packages(
                    path@,
                    content@,
                    section@,
                    k,
                    i as int,
                ).push(p@));
                i += 1;
            }
        },
        None => {
            assert(start + Seq::<PackageView>::empty() =~= start);
        },
    }
}

/// The name of the dependency section number `kind`.
pub fn name_of_section(kind: usize) -> (r: String)
    ensures
        r@ == section_name(kind as int),
{
    if kind == 0 {
        text("dependencies")
    } else if kind == 1 {
        text("dev-dependencies")
    } else {
        text("build-dependencies")
    }
}

/// What the names of the declarations of section number `kind` begin with.
pub fn label_of_section(kind: usize) -> (r: Vec<char>)
    ensures
        r@ == section_label(kind as int),
{
    if kind == 0 {
        to_chars("dependencies")
    } else if kind == 1 {
        to_chars("dev")
    } else {
        to_chars("build")
    }
}

/// The dependency section number `kind` at the top of the document.
fn new_top_section(kind: usize) -> (r: Section)
    ensures
        r@ == top_section(kind as int),
{
    let mut path: Vec<String> = Vec::new();
    path.push(name_of_section(kind));
    let mut prefix = label_of_section(kind);
    push_str(&mut prefix, "-");
    let r = Section { path, prefix: from_chars(&prefix), header: Some(name_of_section(kind)) };
    assert(r@.path =~= top_section(kind as int).path);
    r
}

/// The dependency section of the workspace.
fn new_workspace_section() -> (r: Section)
    ensures
        r@ == workspace_section(),
{
    let mut path: Vec<String> = Vec::new();
    path.push(text("workspace"));
    path.push(text("dependencies"));
    let r = Section {
        path,
        prefix: text("workspace-dependency-"),
        header: Some(text("workspace.dependencies")),
    };
    assert(r@.path =~= workspace_section().path);
    r
}

/// The dependency section number `kind` of the target `target`.
fn new_target_section(target: &str, kind: usize) -> (r: Section)
    ensures
        r@ == target_section(target@, kind as int),
{
    let mut path: Vec<String> = Vec::new();
    path.push(text("target"));
    path.push(text(target));
    path.push(name_of_section(kind));
    let mut prefix = to_chars("target.");
    push_str(&mut prefix, target);
    push_str(&mut prefix, ".");
    push_all(&mut prefix, &label_of_section(kind));
    push_str(&mut prefix, "-");
    let r = Section { path, prefix: from_chars(&prefix), header: None };
    assert(r@.path =~= target_section(target@, kind as int).path);
    r
}

impl CargoScanner {
    pub fn new() -> (r: Self) {
        CargoScanner
    }

    /// The index of the first of `lines` that binds `dep_name` inside the
    /// section `section`.
    pub fn find_dependency_line(&self, lines: &Vec<String>, dep_name: &str, section: &str) -> (r:
        Option<usize>)
        ensures
            match r {
                Some(i) => i < lines.len() && dependency_line(
                    str_views(lines@),
                    dep_name@,
                    section@,
                    0,
                    false,
                ) == Some(i as int),
                None => dependency_line(str_views(lines@), dep_name@, section@, 0, false) is None,
            },
    {
        let l = chars_of_all(lines);
        find_line(&l, &to_chars(dep_name), &to_chars(section))
    }

    /// The version and the source hint of the dependency `name` with the
    /// value `value`.
    pub fn parse_dependency(&self, name: &str, value: &DependencyValue) -> (r: (String, SourceHint))
        ensures
            r.0@ == dependency_version(value@),
            r.1@ == dependency_hint(name@, value@),
    {
        let (version, source_type) = match value {
            DependencyValue::Version(v) => (v.clone(), SourceType::Crates),
            DependencyValue::Table { version, git } => {
                let v = match version {
                    Some(v) => v.clone(),
                    None => text("unknown"),
                };
                (
                    v,
                    if *git {
                        SourceType::Git
                    } else {
                        SourceType::Crates
                    },
                )
            },
            DependencyValue::Other => (text("unknown"), SourceType::Crates),
        };
        (version, SourceHint { source_type, identifier: text(name), url: None })
    }

    /// The declarations of the `Cargo.toml` at `path` with text `content`.
    pub fn scan_content(&self, path: &str, content: &str) -> (r: Result<Vec<Package>, Error>)
        ensures
            crate::types::scan_view(r) == scanned(path@, content@),
    {
        let root: Vec<String> = Vec::new();
        assert(str_views(root@) =~= Seq::<Seq<char>>::empty());
        if toml_lookup(content, &root).is_none() {
            return Err(Error::ParseError);
        }
        let lines = lines_of(&to_chars(content));
        let mut packages: Vec<Package> = Vec::new();
        assert(package_views(packages@) =~= Seq::<PackageView>::empty());
        let mut version_path: Vec<String> = Vec::new();
        version_path.push(text("package"));
        version_path.push(text("version"));
        assert(str_views(version_path@) =~= seq!["package"@, "version"@]);
        let mut name_path: Vec<String> = Vec::new();
        name_path.push(text("package"));
        name_path.push(text("name"));
        assert(str_views(name_path@) =~= seq!["package"@, "name"@]);
        match (read_text(content, &version_path), read_text(content, &name_path)) {
            (Some(version), Some(name)) => {
                let annotations = annotations_of_entry(&lines, "version", "package");
                let mut full = to_chars("crate-");
                push_str(&mut full, name.as_str());
                let p = new_package(
                    path,
                    from_chars(&full),
                    version,
                    SourceHint { source_type: SourceType::Crates, identifier: name, url: None },
                    annotations,
                );
                packages.push(p);
                assert(package_views(packages@) =~= seq![p@]);
            },
            _ => {},
        }
        assert(package_views(packages@) == crate_packages(path@, content@));
        scan_section(path, content, &lines, &new_top_section(0), &mut packages);
        scan_section(path, content, &lines, &new_top_section(1), &mut packages);
        scan_section(path, content, &lines, &new_top_section(2), &mut packages);
        scan_section(path, content, &lines, &new_workspace_section(), &mut packages);
        let mut target_path: Vec<String> = Vec::new();
        target_path.push(text("target"));
        assert(str_views(target_path@) =~= seq!["target"@]);
        let ghost before = package_views(packages@);
        match read_keys(content, &target_path) {
            Some(targets) => {
                let mut i: usize = 0;
                let ghost t = str_views(targets@);
                assert(before + Seq::<PackageView>::empty() =~= before);
                while i < targets.len()
                    invariant
                        i <= targets.len(),
                        t == str_views(targets@),
                        views(lines@) == crate::text::lines(content@),
                        package_views(packages@) == before + target_packages(
                            path@,
                            content@,
                            t,
                            i as int,
                        ),
                    decreases targets.len() - i,
                {
                    let target = &targets[i];
                    assert(t[i as int] == target@);
                    let ghost was = package_views(packages@);
                    scan_section(
                        path,
                        content,
                        &lines,
                        &new_target_section(target.as_str(), 0),
                        &mut packages,
                    );
                    scan_section(
                        path,
                        content,
                        &lines,
                        &new_target_section(target.as_str(), 1),
                        &mut packages,
                    );
                    scan_section(
                        path,
                        content,
                        &lines,
                        &new_target_section(target.as_str(), 2),
                        &mut packages,
                    );
                    assert(package_views(packages@) =~= was + one_target_packages(
                        path@,
                        content@,
                        target@,
                    ));
                    assert(was + one_target_packages(path@, content@, target@) =~= before + (
                    target_packages(path@, content@, t, i as int) + one_target_packages(
                        path@,
                        content@,
                        target@,
                    )));
                    i += 1;
                }
            },
            None => {
                assert(before + Seq::<PackageView>::empty() =~= before);
            },
        }
        Ok(packages)
    }
}

} // verus!

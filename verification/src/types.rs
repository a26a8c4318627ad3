//! The shared data model: what every scanner produces and every mutator
//! consumes.

use vstd::prelude::*;
use crate::text::{same, to_chars};

verus! {

/// The manifest grammar that a declaration came from.
#[derive(Debug, Clone, Copy, PartialEq, Eq, Structural)]
pub enum FileType {
    Nix,
    PackageJson,
    CargoToml,
    GoMod,
    Pipfile,
    Gemfile,
    Unknown,
}

/// The kind of upstream that a source hint points to.
#[derive(Debug, Clone, Copy, PartialEq, Eq, Hash, Structural)]
pub enum SourceType {
    GitHub,
    Npm,
    PyPi,
    Crates,
    Git,
    Url,
}

/// How eagerly a declaration should follow its upstream.
#[derive(Debug, Clone, Copy, PartialEq, Eq, Structural)]
pub enum UpdateStrategy {
    Conservative,
    Stable,
    Latest,
    Aggressive,
}

impl Default for UpdateStrategy {
    fn default() -> (r: Self)
        ensures
            r == UpdateStrategy::Stable,
    {
        UpdateStrategy::Stable
    }
}

/// Why a scan or a mutation failed.
#[derive(Debug, Clone, Copy, PartialEq, Eq, Structural)]
pub enum Error {
    /// The manifest is malformed.
    ParseError,
    /// The declaration to mutate is no longer in the manifest.
    DeclarationNotFound,
    /// The structural query engine refused a query.
    StructuralQueryError,
    /// The manifest could not be read or written.
    IOError,
}

/// A string-keyed map of strings that remembers the order of insertion.
#[derive(Debug, Clone, PartialEq, Eq)]
pub struct Options {
    entries: Vec<(String, String)>,
}

/// The map that a list of pairs stands for: a later pair wins over an
/// earlier one with the same key.
pub open spec fn pairs_map(e: Seq<(Seq<char>, Seq<char>)>) -> Map<Seq<char>, Seq<char>>
    decreases e.len(),
{
    if e.len() == 0 {
        Map::empty()
    } else {
        pairs_map(e.drop_last()).insert(e.last().0, e.last().1)
    }
}

/// What the last pair with key `k` binds it to.
pub open spec fn lookup(e: Seq<(Seq<char>, Seq<char>)>, k: Seq<char>) -> Option<Seq<char>>
    decreases e.len(),
{
    if e.len() == 0 {
        None
    } else if e.last().0 == k {
        Some(e.last().1)
    } else {
        lookup(e.drop_last(), k)
    }
}

/// The map holds for each key what `lookup` finds.
pub proof fn lemma_pairs_map(e: Seq<(Seq<char>, Seq<char>)>, k: Seq<char>)
    ensures
        pairs_map(e).contains_key(k) == lookup(e, k) is Some,
        lookup(e, k) matches Some(v) ==> pairs_map(e)[k] == v,
    decreases e.len(),
{
    if e.len() > 0 {
        lemma_pairs_map(e.drop_last(), k);
    }
}

/// What a list of owned pairs stands for.
pub open spec fn pair_views(v: Seq<(String, String)>) -> Seq<(Seq<char>, Seq<char>)> {
    Seq::new(v.len(), |i: int| (v[i].0@, v[i].1@))
}

impl View for Options {
    type V = Map<Seq<char>, Seq<char>>;

    closed spec fn view(&self) -> Map<Seq<char>, Seq<char>> {
        pairs_map(pair_views(self.entries@))
    }
}

impl Default for Options {
    fn default() -> (r: Self)
        ensures
            r@ == Map::<Seq<char>, Seq<char>>::empty(),
            r.entries() == Seq::<(Seq<char>, Seq<char>)>::empty(),
    {
        Options::new()
    }
}

impl Options {
    /// The pairs in the order in which they were inserted.
    pub closed spec fn entries(&self) -> Seq<(Seq<char>, Seq<char>)> {
        pair_views(self.entries@)
    }

    /// The empty map.
    pub fn new() -> (r: Options)
        ensures
            r@ == Map::<Seq<char>, Seq<char>>::empty(),
            r.entries() == Seq::<(Seq<char>, Seq<char>)>::empty(),
    {
        let r = Options { entries: Vec::new() };
        assert(r.entries() =~= Seq::<(Seq<char>, Seq<char>)>::empty());
        r
    }

    /// Binds `key` to `value`, in place of what `key` was bound to before.
    pub fn insert(&mut self, key: String, value: String)
        ensures
            final(self)@ == old(self)@.insert(key@, value@),
            final(self).entries() == old(self).entries().push((key@, value@)),
    {
        let ghost before = self.entries();
        self.entries.push((key, value));
        assert(self.entries() =~= before.push((key@, value@)));
        assert(self.entries().drop_last() =~= before);
    }

    /// The number of insertions made.
    pub fn len(&self) -> (n: usize)
        ensures
            n == self.entries().len(),
            (n == 0) == (self@ == Map::<Seq<char>, Seq<char>>::empty()),
    {
        proof {
            if self.entries().len() > 0 {
                assert(self@.contains_key(self.entries().last().0));
                assert(!Map::<Seq<char>, Seq<char>>::empty().contains_key(
                    self.entries().last().0,
                ));
            }
        }
        self.entries.len()
    }

    /// Whether nothing was inserted.
    pub fn is_empty(&self) -> (r: bool)
        ensures
            r == (self@ == Map::<Seq<char>, Seq<char>>::empty()),
    {
        self.len() == 0
    }

    /// The `i`-th insertion, as key and value.
    pub fn entry(&self, i: usize) -> (r: (&String, &String))
        requires
            i < self.entries().len(),
        ensures
            (r.0@, r.1@) == self.entries()[i as int],
    {
        (&self.entries[i].0, &self.entries[i].1)
    }

    /// What `key` is bound to.
    pub fn get(&self, key: &str) -> (r: Option<&String>)
        ensures
            r is Some == self@.contains_key(key@),
            r matches Some(v) ==> self@[key@] == v@,
    {
        let k = to_chars(key);
        let mut i: usize = self.entries.len();
        let ghost e = self.entries();
        assert(e.take(i as int) =~= e);
        while i > 0
            invariant
                i <= self.entries.len(),
                e == self.entries(),
                k@ == key@,
                lookup(e, key@) == lookup(e.take(i as int), key@),
            decreases i,
        {
            proof {
                lemma_pairs_map(e, key@);
                assert(e.take(i as int).drop_last() =~= e.take(i - 1));
                assert(e.take(i as int).last() == (
                    self.entries@[i - 1].0@,
                    self.entries@[i - 1].1@,
                ));
            }
            i -= 1;
            let candidate = to_chars(self.entries[i].0.as_str());
            if same(&candidate, &k) {
                return Some(&self.entries[i].1);
            }
        }
        proof {
            lemma_pairs_map(e, key@);
        }
        None
    }

    /// Whether `key` is bound.
    pub fn contains_key(&self, key: &str) -> (r: bool)
        ensures
            r == self@.contains_key(key@),
    {
        self.get(key).is_some()
    }

    /// A copy of the map.
    pub fn duplicate(&self) -> (r: Options)
        ensures
            r@ == self@,
            r.entries() == self.entries(),
    {
        let mut entries: Vec<(String, String)> = Vec::new();
        let mut i: usize = 0;
        while i < self.entries.len()
            invariant
                i <= self.entries.len(),
                entries.len() == i,
                forall|k: int|
                    0 <= k < i ==> entries@[k].0@ == self.entries@[k].0@ && entries@[k].1@
                        == self.entries@[k].1@,
            decreases self.entries.len() - i,
        {
            entries.push((self.entries[i].0.clone(), self.entries[i].1.clone()));
            i += 1;
        }
        let r = Options { entries };
        assert(r.entries() =~= self.entries());
        r
    }
}

/// A pointer to where upstream version data for a declaration can be had.
#[derive(Debug, Clone, PartialEq, Eq)]
pub struct SourceHint {
    pub source_type: SourceType,
    pub identifier: String,
    pub url: Option<String>,
}

/// What a `SourceHint` stands for.
pub struct SourceHintView {
    pub source_type: SourceType,
    pub identifier: Seq<char>,
    pub url: Option<Seq<char>>,
}

/// What an optional string stands for.
pub open spec fn opt_view(s: Option<String>) -> Option<Seq<char>> {
    match s {
        Some(x) => Some(x@),
        None => None,
    }
}

impl View for SourceHint {
    type V = SourceHintView;

    open spec fn view(&self) -> SourceHintView {
        SourceHintView {
            source_type: self.source_type,
            identifier: self.identifier@,
            url: opt_view(self.url),
        }
    }
}

/// The directives that one comment gave, with the 1-based line of the
/// comment.
#[derive(Debug, Clone, PartialEq, Eq)]
pub struct Annotation {
    pub line: usize,
    pub options: Options,
}

/// What an `Annotation` stands for.
pub struct AnnotationView {
    pub line: usize,
    pub options: Map<Seq<char>, Seq<char>>,
}

impl View for Annotation {
    type V = AnnotationView;

    open spec fn view(&self) -> AnnotationView {
        AnnotationView { line: self.line, options: self.options@ }
    }
}

/// One discovered dependency or version record.
#[derive(Debug, Clone, PartialEq, Eq)]
pub struct Package {
    /// The file that the record came from.
    pub path: String,
    pub file_type: FileType,
    /// The qualified name, unique within the file and section.
    pub name: String,
    /// The version exactly as written.
    pub current_version: String,
    /// Where to look for newer versions; the first entry is asked first.
    pub sources: Vec<SourceHint>,
    pub update_strategy: UpdateStrategy,
    pub annotations: Vec<Annotation>,
    /// Extras that only one format has.
    pub metadata: Options,
}

/// What a `Package` stands for.
pub struct PackageView {
    pub path: Seq<char>,
    pub file_type: FileType,
    pub name: Seq<char>,
    pub current_version: Seq<char>,
    pub sources: Seq<SourceHintView>,
    pub update_strategy: UpdateStrategy,
    pub annotations: Seq<AnnotationView>,
    pub metadata: Map<Seq<char>, Seq<char>>,
}

/// What a list of source hints stands for.
pub open spec fn hint_views(v: Seq<SourceHint>) -> Seq<SourceHintView> {
    Seq::new(v.len(), |i: int| v[i]@)
}

/// What a list of annotations stands for.
pub open spec fn annotation_views(v: Seq<Annotation>) -> Seq<AnnotationView> {
    Seq::new(v.len(), |i: int| v[i]@)
}

/// What a list of packages stands for.
pub open spec fn package_views(v: Seq<Package>) -> Seq<PackageView> {
    Seq::new(v.len(), |i: int| v[i]@)
}

impl View for Package {
    type V = PackageView;

    open spec fn view(&self) -> PackageView {
        PackageView {
            path: self.path@,
            file_type: self.file_type,
            name: self.name@,
            current_version: self.current_version@,
            sources: hint_views(self.sources@),
            update_strategy: self.update_strategy,
            annotations: annotation_views(self.annotations@),
            metadata: self.metadata@,
        }
    }
}

/// What the result of a scan stands for.
pub open spec fn scan_view(r: Result<Vec<Package>, Error>) -> Result<Seq<PackageView>, Error> {
    match r {
        Ok(v) => Ok(package_views(v@)),
        Err(e) => Err(e),
    }
}

/// What the result of a mutation stands for.
pub open spec fn result_view(r: Result<String, Error>) -> Result<Seq<char>, Error> {
    match r {
        Ok(s) => Ok(s@),
        Err(e) => Err(e),
    }
}

/// A copy of an optional string.
pub fn copy_opt(s: &Option<String>) -> (r: Option<String>)
    ensures
        opt_view(r) == opt_view(*s),
{
    match s {
        Some(x) => Some(x.clone()),
        None => None,
    }
}

impl SourceHint {
    /// A copy of the hint.
    pub fn duplicate(&self) -> (r: SourceHint)
        ensures
            r@ == self@,
    {
        SourceHint {
            source_type: self.source_type,
            identifier: self.identifier.clone(),
            url: copy_opt(&self.url),
        }
    }
}

impl Annotation {
    /// A copy of the annotation.
    pub fn duplicate(&self) -> (r: Annotation)
        ensures
            r@ == self@,
    {
        Annotation { line: self.line, options: self.options.duplicate() }
    }
}

impl Package {
    /// A copy of the declaration.
    pub fn duplicate(&self) -> (r: Package)
        ensures
            r@ == self@,
    {
        let mut sources: Vec<SourceHint> = Vec::new();
        let mut i: usize = 0;
        while i < self.sources.len()
            invariant
                i <= self.sources.len(),
                sources.len() == i,
                forall|k: int| 0 <= k < i ==> sources@[k]@ == self.sources@[k]@,
            decreases self.sources.len() - i,
        {
            sources.push(self.sources[i].duplicate());
            i += 1;
        }
        let mut annotations: Vec<Annotation> = Vec::new();
        let mut j: usize = 0;
        while j < self.annotations.len()
            invariant
                j <= self.annotations.len(),
                annotations.len() == j,
                forall|k: int| 0 <= k < j ==> annotations@[k]@ == self.annotations@[k]@,
            decreases self.annotations.len() - j,
        {
            annotations.push(self.annotations[j].duplicate());
            j += 1;
        }
        let r = Package {
            path: self.path.clone(),
            file_type: self.file_type,
            name: self.name.clone(),
            current_version: self.current_version.clone(),
            sources,
            update_strategy: self.update_strategy,
            annotations,
            metadata: self.metadata.duplicate(),
        };
        assert(r@.sources =~= self@.sources);
        assert(r@.annotations =~= self@.annotations);
        r
    }
}

} // verus!

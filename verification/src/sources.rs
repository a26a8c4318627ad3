//! What the clients of version sources compute from the answers they get.
//! Asking the sources is the caller's part.

pub mod crates_io;
pub mod git;
pub mod github;
pub mod npm;
pub mod semver_order;
pub mod time;

use vstd::prelude::*;
use crate::types::{Options, SourceType};

verus! {

/// Why a client could not answer.
#[derive(Debug, Clone, Copy, PartialEq, Eq, Structural)]
pub enum SourceError {
    /// The identifier is not of the form that the client reads.
    InvalidIdentifier,
    /// The source offers no version.
    NoVersions,
    /// The version that the source tags as the latest is not among those
    /// that it offers.
    LatestNotFound,
}

/// What the result of a check stands for.
pub open spec fn info_result_view(r: Result<UpdateInfo, SourceError>) -> Result<
    UpdateInfoView,
    SourceError,
> {
    match r {
        Ok(i) => Ok(i@),
        Err(e) => Err(e),
    }
}

/// One version that a source offers.
#[derive(Debug, Clone, PartialEq, Eq)]
pub struct Version {
    pub version: String,
    /// When it was published, in seconds since the epoch.
    pub published_at: Option<i64>,
    /// Withdrawn by its publisher.
    pub yanked: bool,
    pub pre_release: bool,
    pub metadata: Options,
}

/// What a `Version` stands for.
pub struct VersionView {
    pub version: Seq<char>,
    pub published_at: Option<i64>,
    pub yanked: bool,
    pub pre_release: bool,
    pub metadata: Map<Seq<char>, Seq<char>>,
}

impl View for Version {
    type V = VersionView;

    open spec fn view(&self) -> VersionView {
        VersionView {
            version: self.version@,
            published_at: self.published_at,
            yanked: self.yanked,
            pre_release: self.pre_release,
            metadata: self.metadata@,
        }
    }
}

/// What a list of versions stands for.
pub open spec fn version_views(v: Seq<Version>) -> Seq<VersionView> {
    Seq::new(v.len(), |i: int| v[i]@)
}

/// What an optional version stands for.
pub open spec fn opt_version_view(v: Option<Version>) -> Option<VersionView> {
    match v {
        Some(x) => Some(x@),
        None => None,
    }
}

/// The version `version` of which nothing else is known.
pub open spec fn plain_version(version: Seq<char>) -> VersionView {
    VersionView {
        version,
        published_at: None,
        yanked: false,
        pre_release: false,
        metadata: Map::empty(),
    }
}

impl Version {
    /// The version `version` of which nothing else is known.
    pub fn new(version: String) -> (r: Self)
        ensures
            r@ == plain_version(version@),
    {
        Version {
            version,
            published_at: None,
            yanked: false,
            pre_release: false,
            metadata: Options::new(),
        }
    }

    /// A copy of the version.
    pub fn duplicate(&self) -> (r: Version)
        ensures
            r@ == self@,
    {
        Version {
            version: self.version.clone(),
            published_at: self.published_at,
            yanked: self.yanked,
            pre_release: self.pre_release,
            metadata: self.metadata.duplicate(),
        }
    }
}

/// What a source says about a declaration.
#[derive(Debug, Clone, PartialEq, Eq)]
pub struct UpdateInfo {
    pub current_version: String,
    pub latest_version: Version,
    /// The latest version that is no pre-release.
    pub latest_stable_version: Option<Version>,
    pub all_versions: Vec<Version>,
    pub update_available: bool,
}

/// What an `UpdateInfo` stands for.
pub struct UpdateInfoView {
    pub current_version: Seq<char>,
    pub latest_version: VersionView,
    pub latest_stable_version: Option<VersionView>,
    pub all_versions: Seq<VersionView>,
    pub update_available: bool,
}

impl View for UpdateInfo {
    type V = UpdateInfoView;

    open spec fn view(&self) -> UpdateInfoView {
        UpdateInfoView {
            current_version: self.current_version@,
            latest_version: self.latest_version@,
            latest_stable_version: opt_version_view(self.latest_stable_version),
            all_versions: version_views(self.all_versions@),
            update_available: self.update_available,
        }
    }
}

/// The first version from index `from` on that is no pre-release and,
/// where `kept` asks so, not yanked.
pub open spec fn first_stable(versions: Seq<VersionView>, kept: bool, from: int) -> Option<
    VersionView,
>
    decreases versions.len() - from,
{
    if from < 0 || from >= versions.len() {
        None
    } else if !versions[from].pre_release && !(kept && versions[from].yanked) {
        Some(versions[from])
    } else {
        first_stable(versions, kept, from + 1)
    }
}

/// The first version that is no pre-release and, where `kept` asks so, not
/// yanked.
pub fn find_stable(versions: &Vec<Version>, kept: bool) -> (r: Option<Version>)
    ensures
        opt_version_view(r) == first_stable(version_views(versions@), kept, 0),
{
    let mut i: usize = 0;
    let ghost v = version_views(versions@);
    while i < versions.len()
        invariant
            i <= versions.len(),
            v == version_views(versions@),
            first_stable(v, kept, 0) == first_stable(v, kept, i as int),
        decreases versions.len() - i,
    {
        assert(v[i as int] == versions@[i as int]@);
        if !versions[i].pre_release && !(kept && versions[i].yanked) {
            return Some(versions[i].duplicate());
        }
        i += 1;
    }
    None
}

/// The clients of version sources that there are.
#[derive(Debug, Clone, Copy, PartialEq, Eq, Hash, Structural)]
pub enum SourceKind {
    GitHub,
    CratesIo,
    Npm,
    Git,
}

/// The client that answers for sources of the type `source_type`.
pub open spec fn source_for(source_type: SourceType) -> Option<SourceKind> {
    match source_type {
        SourceType::GitHub => Some(SourceKind::GitHub),
        SourceType::Crates => Some(SourceKind::CratesIo),
        SourceType::Npm => Some(SourceKind::Npm),
        SourceType::Git => Some(SourceKind::Git),
        _ => None,
    }
}

/// How long an answer of the client `kind` stays good in the cache, in
/// seconds: an hour for GitHub, half an hour for the registries, five
/// minutes for git.
pub open spec fn cache_seconds(kind: SourceKind) -> u64 {
    match kind {
        SourceKind::GitHub => 3600,
        SourceKind::CratesIo => 1800,
        SourceKind::Npm => 1800,
        SourceKind::Git => 300,
    }
}

/// The name under which the answers of the client `kind` are cached.
pub open spec fn cache_name(kind: SourceKind) -> Seq<char> {
    match kind {
        SourceKind::GitHub => "github"@,
        SourceKind::CratesIo => "crates_io"@,
        SourceKind::Npm => "npm"@,
        SourceKind::Git => "git"@,
    }
}

/// Which clients there are, and whether their answers are cached.
#[derive(Debug, Clone, Copy, PartialEq, Eq, Structural)]
pub struct SourceRegistry {
    pub use_cache: bool,
}

impl SourceRegistry {
    /// The clients with a cache.
    pub fn new() -> (r: Self)
        ensures
            r.use_cache,
    {
        SourceRegistry::with_cache(true)
    }

    pub fn with_cache(use_cache: bool) -> (r: Self)
        ensures
            r.use_cache == use_cache,
    {
        SourceRegistry { use_cache }
    }

    /// The client that answers for sources of the type `source_type`.
    pub fn get_source(&self, source_type: &SourceType) -> (r: Option<SourceKind>)
        ensures
            r == source_for(*source_type),
    {
        match source_type {
            SourceType::GitHub => Some(SourceKind::GitHub),
            SourceType::Crates => Some(SourceKind::CratesIo),
            SourceType::Npm => Some(SourceKind::Npm),
            SourceType::Git => Some(SourceKind::Git),
            _ => None,
        }
    }

    /// How long an answer of the client `kind` stays good in the cache, in
    /// seconds; none where the registry has no cache.
    pub fn cache_ttl(&self, kind: SourceKind) -> (r: Option<u64>)
        ensures
            r == if self.use_cache {
                Some(cache_seconds(kind))
            } else {
                None
            },
    {
        if !self.use_cache {
            return None;
        }
        Some(
            match kind {
                SourceKind::GitHub => 3600,
                SourceKind::CratesIo => 1800,
                SourceKind::Npm => 1800,
                SourceKind::Git => 300,
            },
        )
    }

    /// The name under which the answers of the client `kind` are cached.
    pub fn source_name(&self, kind: SourceKind) -> (r: String)
        ensures
            r@ == cache_name(kind),
    {
        match kind {
            SourceKind::GitHub => crate::text::text("github"),
            SourceKind::CratesIo => crate::text::text("crates_io"),
            SourceKind::Npm => crate::text::text("npm"),
            SourceKind::Git => crate::text::text("git"),
        }
    }
}

} // verus!

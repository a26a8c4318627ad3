//! The crates.io client: the versions of a crate.

use vstd::prelude::*;
use crate::sources::{
    find_stable, first_stable, version_views, UpdateInfo, UpdateInfoView, Version, VersionView,
};
use crate::text::{contains, contains_str, same, text, to_chars};
use crate::types::Options;

verus! {

/// One version of a crate as the API lists it.
#[derive(Debug, Clone, PartialEq, Eq)]
pub struct CrateVersion {
    pub num: String,
    pub yanked: bool,
    pub created_at: String,
}

/// The crates.io client.
pub struct CratesIoSource {}

/// Whether `version` is a pre-release: it holds a hyphen.
pub open spec fn pre_release(version: Seq<char>) -> bool {
    contains(version, "-"@)
}

/// The version that an entry of the API stands for.
pub open spec fn entry_version(entry: CrateVersion) -> VersionView {
    VersionView {
        version: entry.num@,
        published_at: crate::sources::time::rfc3339_seconds(entry.created_at@),
        yanked: entry.yanked,
        pre_release: pre_release(entry.num@),
        metadata: Map::empty(),
    }
}

/// The newest version of a crate, as the API names it.
pub open spec fn max_version(version: Seq<char>) -> VersionView {
    VersionView {
        version,
        published_at: None,
        yanked: false,
        pre_release: pre_release(version),
        metadata: Map::empty(),
    }
}

/// What the client says of a declaration at `current` when the newest
/// version of the crate is `newest` and the crate offers `versions`. An
/// update is there where the newest version is not the current one.
pub open spec fn checked(current: Seq<char>, newest: Seq<char>, versions: Seq<VersionView>)
    -> UpdateInfoView {
    UpdateInfoView {
        current_version: current,
        latest_version: max_version(newest),
        latest_stable_version: first_stable(versions, true, 0),
        all_versions: versions,
        update_available: newest != current,
    }
}

impl CratesIoSource {
    pub fn new() -> (r: Self) {
        CratesIoSource {  }
    }

    /// Whether `version` is a pre-release.
    pub fn is_pre_release(version: &str) -> (r: bool)
        ensures
            r == pre_release(version@),
    {
        contains_str(&to_chars(version), "-")
    }

    /// The version that an entry of the API stands for.
    pub fn version(entry: &CrateVersion) -> (r: Version)
        ensures
            r@ == entry_version(*entry),
    {
        Version {
            version: entry.num.clone(),
            published_at: crate::sources::time::parse_rfc3339(entry.created_at.as_str()),
            yanked: entry.yanked,
            pre_release: CratesIoSource::is_pre_release(entry.num.as_str()),
            metadata: Options::new(),
        }
    }

    /// The versions that the entries of the API stand for, in their order.
    pub fn versions(entries: &Vec<CrateVersion>) -> (r: Vec<Version>)
        ensures
            r.len() == entries.len(),
            forall|i: int| 0 <= i < entries.len() ==> r@[i]@ == entry_version(entries@[i]),
    {
        let mut r: Vec<Version> = Vec::new();
        let mut i: usize = 0;
        while i < entries.len()
            invariant
                i <= entries.len(),
                r.len() == i,
                forall|k: int| 0 <= k < i ==> r@[k]@ == entry_version(entries@[k]),
            decreases entries.len() - i,
        {
            r.push(CratesIoSource::version(&entries[i]));
            i += 1;
        }
        r
    }

    /// What the client says of a declaration at `current_version`.
    pub fn check(current_version: &str, newest: &str, versions: Vec<Version>) -> (r: UpdateInfo)
        ensures
            r@ == checked(current_version@, newest@, version_views(versions@)),
    {
        let latest = Version {
            version: text(newest),
            published_at: None,
            yanked: false,
            pre_release: CratesIoSource::is_pre_release(newest),
            metadata: Options::new(),
        };
        let stable = find_stable(&versions, true);
        let update_available = !same(&to_chars(newest), &to_chars(current_version));
        UpdateInfo {
            current_version: text(current_version),
            latest_version: latest,
            latest_stable_version: stable,
            all_versions: versions,
            update_available,
        }
    }
}

} // verus!

//! The GitHub client: the releases of a repository.

use vstd::prelude::*;
use crate::sources::{
    find_stable, first_stable, info_result_view, version_views, SourceError, UpdateInfo,
    UpdateInfoView, Version, VersionView,
};
use crate::text::{
    from_chars, same, split, split_on, strip_prefix, text, to_chars, views, without_prefix,
};
use crate::types::{opt_view, Options};

verus! {

/// One release as the API lists it.
#[derive(Debug, Clone, PartialEq, Eq)]
pub struct GitHubRelease {
    pub tag_name: String,
    pub name: Option<String>,
    /// When it was published, in the form of RFC 3339.
    pub published_at: Option<String>,
    pub prerelease: bool,
    pub draft: bool,
}

/// The GitHub client.
pub struct GitHubSource {}

/// Owner and repository that `identifier` names: it is written
/// `owner/repo`, with one slash.
pub open spec fn github_identifier(identifier: Seq<char>) -> Result<
    (Seq<char>, Seq<char>),
    SourceError,
> {
    if split(identifier, '/').len() == 2 {
        Ok((split(identifier, '/')[0], split(identifier, '/')[1]))
    } else {
        Err(SourceError::InvalidIdentifier)
    }
}

/// The version that the tag `tag` stands for: the tag without `version-`,
/// `release-` or `v` at its start.
pub open spec fn clean_tag(tag: Seq<char>) -> Seq<char> {
    if strip_prefix(tag, "version-"@) is Some {
        strip_prefix(tag, "version-"@)->0
    } else if strip_prefix(tag, "release-"@) is Some {
        strip_prefix(tag, "release-"@)->0
    } else if strip_prefix(tag, "v"@) is Some {
        strip_prefix(tag, "v"@)->0
    } else {
        tag
    }
}

/// The version that a release stands for.
pub open spec fn release_version(r: GitHubRelease) -> VersionView {
    VersionView {
        version: clean_tag(r.tag_name@),
        published_at: crate::sources::time::published(opt_view(r.published_at)),
        yanked: false,
        pre_release: r.prerelease,
        metadata: Map::empty(),
    }
}

/// The versions of the first `count` of `releases`: drafts are left out.
pub open spec fn release_versions(releases: Seq<GitHubRelease>, count: int) -> Seq<VersionView>
    decreases count,
{
    if count <= 0 {
        Seq::empty()
    } else if releases[count - 1].draft {
        release_versions(releases, count - 1)
    } else {
        release_versions(releases, count - 1).push(release_version(releases[count - 1]))
    }
}

/// What the client says of a declaration at `current` when the repository
/// offers `versions`, newest first: nothing where it offers none. An update
/// is there where the newest version is not the current one.
pub open spec fn checked(current: Seq<char>, versions: Seq<VersionView>) -> Result<
    UpdateInfoView,
    SourceError,
> {
    if versions.len() == 0 {
        Err(SourceError::NoVersions)
    } else {
        Ok(
            UpdateInfoView {
                current_version: current,
                latest_version: versions[0],
                latest_stable_version: first_stable(versions, false, 0),
                all_versions: versions,
                update_available: versions[0].version != clean_tag(current),
            },
        )
    }
}

impl GitHubSource {
    pub fn new() -> (r: Self) {
        GitHubSource {  }
    }

    /// Owner and repository that `identifier` names.
    pub fn parse_identifier(identifier: &str) -> (r: Result<(String, String), SourceError>)
        ensures
            match r {
                Ok((owner, repo)) => github_identifier(identifier@) == Ok::<
                    (Seq<char>, Seq<char>),
                    SourceError,
                >((owner@, repo@)),
                Err(e) => github_identifier(identifier@) == Err::<
                    (Seq<char>, Seq<char>),
                    SourceError,
                >(e),
            },
    {
        let parts = split_on(&to_chars(identifier), '/');
        if parts.len() == 2 {
            assert(views(parts@)[0] == parts@[0]@);
            assert(views(parts@)[1] == parts@[1]@);
            Ok((from_chars(&parts[0]), from_chars(&parts[1])))
        } else {
            Err(SourceError::InvalidIdentifier)
        }
    }

    /// The version that the tag `tag` stands for.
    pub fn clean_version(tag: &str) -> (r: String)
        ensures
            r@ == clean_tag(tag@),
    {
        let t = to_chars(tag);
        match without_prefix(&t, "version-") {
            Some(rest) => { return from_chars(&rest); },
            None => {},
        }
        match without_prefix(&t, "release-") {
            Some(rest) => { return from_chars(&rest); },
            None => {},
        }
        match without_prefix(&t, "v") {
            Some(rest) => from_chars(&rest),
            None => from_chars(&t),
        }
    }

    /// The versions that `releases` stand for, in their order.
    pub fn versions(releases: &Vec<GitHubRelease>) -> (r: Vec<Version>)
        ensures
            version_views(r@) == release_versions(releases@, releases.len() as int),
    {
        let mut r: Vec<Version> = Vec::new();
        let mut i: usize = 0;
        assert(version_views(r@) =~= Seq::<VersionView>::empty());
        while i < releases.len()
            invariant
                i <= releases.len(),
                version_views(r@) == release_versions(releases@, i as int),
            decreases releases.len() - i,
        {
            if !releases[i].draft {
                let v = Version {
                    version: GitHubSource::clean_version(releases[i].tag_name.as_str()),
                    published_at: crate::sources::time::published_at(&releases[i].published_at),
                    yanked: false,
                    pre_release: releases[i].prerelease,
                    metadata: Options::new(),
                };
                let ghost before = version_views(r@);
                r.push(v);
                assert(version_views(r@) =~= before.push(v@));
            }
            i += 1;
        }
        r
    }

    /// What the client says of a declaration at `current_version` when the
    /// repository offers `versions`, newest first.
    pub fn check(current_version: &str, versions: Vec<Version>) -> (r: Result<
        UpdateInfo,
        SourceError,
    >)
        ensures
            info_result_view(r) == checked(current_version@, version_views(versions@)),
    {
        if versions.len() == 0 {
            return Err(SourceError::NoVersions);
        }
        assert(version_views(versions@)[0] == versions@[0]@);
        let latest = versions[0].duplicate();
        let stable = find_stable(&versions, false);
        let clean = to_chars(GitHubSource::clean_version(current_version).as_str());
        let update_available = !same(&to_chars(latest.version.as_str()), &clean);
        Ok(
            UpdateInfo {
                current_version: text(current_version),
                latest_version: latest,
                latest_stable_version: stable,
                all_versions: versions,
                update_available,
            },
        )
    }
}

} // verus!

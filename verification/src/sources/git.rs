//! The git client: a branch of a repository, followed by its latest commit.

use vstd::prelude::*;
use crate::sources::{SourceError, UpdateInfo, UpdateInfoView, Version, VersionView};
use crate::text::{
    find, find_char, from_chars, has_prefix, has_suffix, lines, lines_of, matches_at, push_str,
    slice, text, to_chars, views, words, words_of,
};
use crate::types::Options;

verus! {

/// The git client.
pub struct GitSource {}

/// The repository and the branch that `identifier` names: it is written
/// `url#branch`, or `url` alone for the branch `main`.
pub open spec fn git_identifier(identifier: Seq<char>) -> (Seq<char>, Seq<char>) {
    match find(identifier, seq!['#']) {
        Some(i) => (identifier.take(i), identifier.skip(i + 1)),
        None => (identifier, "main"@),
    }
}

/// The first seven characters of `sha`.
pub open spec fn short_sha(sha: Seq<char>) -> Seq<char> {
    if sha.len() > 7 {
        sha.take(7)
    } else {
        sha
    }
}

/// Whether the commit `latest` differs from the commit `current`: neither
/// is written out as the beginning of the other.
pub open spec fn commit_changed(current: Seq<char>, latest: Seq<char>) -> bool {
    !has_prefix(current, latest) && !has_prefix(latest, current)
}

/// The commit that the first of the lines from `from` on gives for
/// `branch`. A line of the listing ends in `refs/heads/<branch>` and begins
/// with the commit.
pub open spec fn branch_commit(listing: Seq<Seq<char>>, branch: Seq<char>, from: int) -> Option<
    Seq<char>,
>
    decreases listing.len() - from,
{
    if from < 0 || from >= listing.len() {
        None
    } else if has_suffix(listing[from], "refs/heads/"@ + branch) && words(listing[from]).len()
        > 0 {
        Some(words(listing[from])[0])
    } else {
        branch_commit(listing, branch, from + 1)
    }
}

/// The latest commit as a version.
pub open spec fn commit_version(sha: Seq<char>, branch: Seq<char>, at: i64) -> VersionView {
    VersionView {
        version: sha,
        published_at: Some(at),
        yanked: false,
        pre_release: false,
        metadata: Map::empty().insert("branch"@, branch).insert("short_sha"@, short_sha(sha)),
    }
}

/// What the client says of a declaration at the commit `current` when the
/// branch stands at `latest`.
pub open spec fn checked(current: Seq<char>, latest: VersionView) -> UpdateInfoView {
    UpdateInfoView {
        current_version: current,
        latest_version: latest,
        latest_stable_version: Some(latest),
        all_versions: seq![latest],
        update_available: commit_changed(current, latest.version),
    }
}

impl GitSource {
    pub fn new() -> (r: Self) {
        GitSource {  }
    }

    /// The repository and the branch that `identifier` names.
    pub fn parse_git_identifier(identifier: &str) -> (r: Result<(String, String), SourceError>)
        ensures
            r is Ok,
            (r->Ok_0.0@, r->Ok_0.1@) == git_identifier(identifier@),
    {
        let id = to_chars(identifier);
        let n = id.len();
        match find_char(&id, '#') {
            Some(i) => {
                assert(id@.skip(i + 1) =~= id@.subrange(i + 1, n as int));
                Ok((from_chars(&slice(&id, 0, i)), from_chars(&slice(&id, i + 1, n))))
            },
            None => Ok((from_chars(&id), text("main"))),
        }
    }

    /// The first seven characters of `sha`.
    pub fn shorten_commit_sha(sha: &str) -> (r: String)
        ensures
            r@ == short_sha(sha@),
    {
        let s = to_chars(sha);
        if s.len() > 7 {
            from_chars(&slice(&s, 0, 7))
        } else {
            from_chars(&s)
        }
    }

    /// The commit at which `branch` stands according to `listing`, the
    /// output of listing the heads of the remote.
    pub fn find_branch_commit(listing: &str, branch: &str) -> (r: Option<String>)
        ensures
            crate::types::opt_view(r) == branch_commit(lines(listing@), branch@, 0),
    {
        let all = lines_of(&to_chars(listing));
        let mut wanted = to_chars("refs/heads/");
        push_str(&mut wanted, branch);
        let mut i: usize = 0;
        while i < all.len()
            invariant
                i <= all.len(),
                wanted@ == "refs/heads/"@ + branch@,
                views(all@) == lines(listing@),
                branch_commit(views(all@), branch@, 0) == branch_commit(
                    views(all@),
                    branch@,
                    i as int,
                ),
            decreases all.len() - i,
        {
            let line = &all[i];
            assert(views(all@)[i as int] == line@);
            if wanted.len() <= line.len() && matches_at(line, &wanted, line.len() - wanted.len()) {
                let parts = words_of(line);
                if parts.len() > 0 {
                    assert(views(parts@)[0] == parts@[0]@);
                    return Some(from_chars(&parts[0]));
                }
            }
            i += 1;
        }
        None
    }

    /// The latest commit `sha` of `branch`, seen at the time `at`, as a
    /// version.
    pub fn latest_version(sha: &str, branch: &str, at: i64) -> (r: Version)
        ensures
            r@ == commit_version(sha@, branch@, at),
    {
        let mut metadata = Options::new();
        metadata.insert(text("branch"), text(branch));
        metadata.insert(text("short_sha"), GitSource::shorten_commit_sha(sha));
        Version {
            version: text(sha),
            published_at: Some(at),
            yanked: false,
            pre_release: false,
            metadata,
        }
    }

    /// What the client says of a declaration at the commit
    /// `current_version` when the branch stands at `latest`.
    pub fn check(current_version: &str, latest: Version) -> (r: UpdateInfo)
        ensures
            r@ == checked(current_version@, latest@),
    {
        let current = to_chars(current_version);
        let tip = to_chars(latest.version.as_str());
        let update_available = !matches_at(&current, &tip, 0) && !matches_at(&tip, &current, 0);
        let mut all: Vec<Version> = Vec::new();
        all.push(latest.duplicate());
        let r = UpdateInfo {
            current_version: text(current_version),
            latest_stable_version: Some(latest.duplicate()),
            latest_version: latest,
            all_versions: all,
            update_available,
        };
        assert(r@.all_versions =~= seq![latest@]);
        r
    }

    /// What the client knows of the commit `version` of `identifier`.
    pub fn metadata(identifier: &str, version: &str) -> (r: Options)
        ensures
            r@ == Map::<Seq<char>, Seq<char>>::empty().insert(
                "repository"@,
                git_identifier(identifier@).0,
            ).insert("branch"@, git_identifier(identifier@).1).insert("commit"@, version@).insert(
                "short_commit"@,
                short_sha(version@),
            ),
    {
        let mut r = Options::new();
        match GitSource::parse_git_identifier(identifier) {
            Ok((repository, branch)) => {
                r.insert(text("repository"), repository);
                r.insert(text("branch"), branch);
            },
            Err(_) => {},
        }
        r.insert(text("commit"), text(version));
        r.insert(text("short_commit"), GitSource::shorten_commit_sha(version));
        r
    }
}

} // verus!

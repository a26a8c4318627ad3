//! The npm client: the versions of a package of the registry.

use vstd::prelude::*;
use crate::sources::{
    find_stable, first_stable, info_result_view, version_views, SourceError, UpdateInfo,
    UpdateInfoView, Version, VersionView,
};
use crate::sources::semver_order::{order_of, semver_order};
use crate::text::{contains, contains_str, same, same_str, text, to_chars};
use crate::types::Options;

verus! {

/// The npm client.
pub struct NpmSource {}

/// Whether `version` is a pre-release: it holds a hyphen, or one of the
/// words `alpha`, `beta` and `rc`.
pub open spec fn pre_release(version: Seq<char>) -> bool {
    contains(version, "-"@) || contains(version, "alpha"@) || contains(version, "beta"@)
        || contains(version, "rc"@)
}

/// The version `version` of the registry, deprecated or not.
pub open spec fn registry_version(version: Seq<char>, deprecated: bool) -> VersionView {
    VersionView {
        version,
        published_at: None,
        yanked: deprecated,
        pre_release: pre_release(version),
        metadata: Map::empty(),
    }
}

/// The first version from index `from` on that is written `version`.
pub open spec fn version_named(versions: Seq<VersionView>, version: Seq<char>, from: int)
    -> Option<VersionView>
    decreases versions.len() - from,
{
    if from < 0 || from >= versions.len() {
        None
    } else if versions[from].version == version {
        Some(versions[from])
    } else {
        version_named(versions, version, from + 1)
    }
}

/// What the client says of a declaration at `current` when the registry
/// tags `latest` as the latest version and offers `versions`: nothing where
/// the tagged version is not among them. An update is there where the
/// tagged version is not the current one.
pub open spec fn checked(current: Seq<char>, latest: Seq<char>, versions: Seq<VersionView>)
    -> Result<UpdateInfoView, SourceError> {
    match version_named(versions, latest, 0) {
        Some(v) => Ok(
            UpdateInfoView {
                current_version: current,
                latest_version: v,
                latest_stable_version: first_stable(versions, true, 0),
                all_versions: versions,
                update_available: v.version != current,
            },
        ),
        None => Err(SourceError::LatestNotFound),
    }
}

/// How the text `a` stands to the text `b` in the order of a dictionary,
/// character by character: -1 where it comes before, 0 where the two are
/// the same text, 1 where it comes after.
pub open spec fn dictionary_order(a: Seq<char>, b: Seq<char>) -> i8
    decreases a.len(),
{
    if a.len() == 0 && b.len() == 0 {
        0i8
    } else if a.len() == 0 {
        -1i8
    } else if b.len() == 0 {
        1i8
    } else if (a[0] as u32) < (b[0] as u32) {
        -1i8
    } else if (a[0] as u32) > (b[0] as u32) {
        1i8
    } else {
        dictionary_order(a.drop_first(), b.drop_first())
    }
}

/// How the version `a` stands to the version `b` when versions are listed
/// newest first: negative where `a` is listed before `b`, positive where it
/// is listed after. Two semantic versions are listed by precedence, the
/// higher first; where one of the two is none, the texts are listed in
/// falling dictionary order.
pub open spec fn listed(a: Seq<char>, b: Seq<char>) -> i8 {
    match semver_order(b, a) {
        Some(x) => x,
        None => dictionary_order(b, a),
    }
}

/// Whether `a` may stand directly before `b` in a list of versions, newest
/// first: `a` is not to be listed after `b`, or `b` is to be listed after
/// `a`.
pub open spec fn in_order(a: Seq<char>, b: Seq<char>) -> bool {
    listed(a, b) <= 0 || listed(b, a) > 0
}

/// Each version of the list may stand directly before the next.
pub open spec fn newest_first(versions: Seq<VersionView>) -> bool {
    forall|i: int|
        0 <= i < versions.len() - 1 ==> in_order(
            (#[trigger] versions[i]).version,
            versions[i + 1].version,
        )
}

/// How the text `a` stands to the text `b` in the order of a dictionary.
pub fn text_order(a: &Vec<char>, b: &Vec<char>) -> (r: i8)
    ensures
        r == dictionary_order(a@, b@),
{
    let mut i: usize = 0;
    assert(a@.skip(0) =~= a@);
    assert(b@.skip(0) =~= b@);
    loop
        invariant
            i <= a.len(),
            i <= b.len(),
            dictionary_order(a@, b@) == dictionary_order(a@.skip(i as int), b@.skip(i as int)),
        decreases a.len() - i,
    {
        if i == a.len() && i == b.len() {
            return 0;
        } else if i == a.len() {
            return -1;
        } else if i == b.len() {
            return 1;
        }
        let x: u32 = a[i] as u32;
        let y: u32 = b[i] as u32;
        assert(a@.skip(i as int)[0] == a@[i as int]);
        assert(b@.skip(i as int)[0] == b@[i as int]);
        if x < y {
            return -1;
        } else if x > y {
            return 1;
        }
        assert(a@.skip(i as int).drop_first() =~= a@.skip(i + 1));
        assert(b@.skip(i as int).drop_first() =~= b@.skip(i + 1));
        i += 1;
    }
}

/// How the version `a` stands to the version `b` when versions are listed
/// newest first.
pub fn listing_order(a: &str, b: &str) -> (r: i8)
    ensures
        r == listed(a@, b@),
{
    match order_of(b, a) {
        Some(x) => x,
        None => text_order(&to_chars(b), &to_chars(a)),
    }
}

/// A list with one more element holds what it held before and that
/// element.
proof fn lemma_insert_multiset(s: Seq<VersionView>, at: int, x: VersionView)
    requires
        0 <= at <= s.len(),
    ensures
        s.insert(at, x).to_multiset() == s.to_multiset().insert(x),
{
    broadcast use vstd::seq_lib::group_to_multiset_ensures;

    let t = s.insert(at, x);
    assert(t.remove(at) =~= s);
    assert(t[at] == x);
    assert(t.to_multiset().remove(x) == s.to_multiset());
    assert(t.contains(x));
    assert(t.to_multiset().count(x) > 0);
    assert(t.to_multiset() =~= s.to_multiset().insert(x));
}

impl NpmSource {
    pub fn new() -> (r: Self) {
        NpmSource {  }
    }

    /// Whether `version` is a pre-release.
    pub fn is_pre_release(version: &str) -> (r: bool)
        ensures
            r == pre_release(version@),
    {
        let v = to_chars(version);
        contains_str(&v, "-") || contains_str(&v, "alpha") || contains_str(&v, "beta")
            || contains_str(&v, "rc")
    }

    /// The version `version` of the registry.
    pub fn version(version: &str, deprecated: bool) -> (r: Version)
        ensures
            r@ == registry_version(version@, deprecated),
    {
        Version {
            version: text(version),
            published_at: None,
            yanked: deprecated,
            pre_release: NpmSource::is_pre_release(version),
            metadata: Options::new(),
        }
    }

    /// The versions `versions` listed newest first. The list holds what
    /// it held before; versions that are listed alike keep their order.
    pub fn sort_versions(versions: Vec<Version>) -> (r: Vec<Version>)
        ensures
            version_views(r@).to_multiset() == version_views(versions@).to_multiset(),
            newest_first(version_views(r@)),
    {
        let mut out: Vec<Version> = Vec::new();
        let mut i: usize = 0;
        let ghost input = version_views(versions@);
        assert(input.take(0) =~= Seq::<VersionView>::empty());
        assert(version_views(out@) =~= Seq::<VersionView>::empty());
        while i < versions.len()
            invariant
                i <= versions.len(),
                input == version_views(versions@),
                version_views(out@).to_multiset() == input.take(i as int).to_multiset(),
                newest_first(version_views(out@)),
            decreases versions.len() - i,
        {
            let x = versions[i].duplicate();
            assert(input[i as int] == x@);
            let mut at: usize = out.len();
            while at > 0 && listing_order(out[at - 1].version.as_str(), x.version.as_str()) > 0
                invariant
                    at <= out.len(),
                    at < out.len() ==> listed(out@[at as int].version@, x.version@) > 0,
                decreases at,
            {
                at -= 1;
            }
            let ghost before = version_views(out@);
            out.insert(at, x);
            proof {
                let after = version_views(out@);
                assert(after =~= before.insert(at as int, x@));
                lemma_insert_multiset(before, at as int, x@);
                broadcast use vstd::seq_lib::group_to_multiset_ensures;

                assert(input.take(i + 1) =~= input.take(i as int).push(x@));
                assert forall|k: int| 0 <= k < after.len() - 1 implies in_order(
                    (#[trigger] after[k]).version,
                    after[k + 1].version,
                ) by {
                    if k + 1 < at {
                        assert(after[k] == before[k]);
                        assert(after[k + 1] == before[k + 1]);
                    } else if k + 1 == at {
                        assert(after[k] == before[k]);
                    } else if k == at {
                        assert(after[k + 1] == before[k]);
                    } else {
                        assert(after[k] == before[k - 1]);
                        assert(after[k + 1] == before[k]);
                    }
                }
            }
            i += 1;
        }
        assert(input.take(versions.len() as int) =~= input);
        out
    }

    /// What the client says of a declaration at `current_version`.
    pub fn check(current_version: &str, latest: &str, versions: Vec<Version>) -> (r: Result<
        UpdateInfo,
        SourceError,
    >)
        ensures
            info_result_view(r) == checked(current_version@, latest@, version_views(versions@)),
    {
        let mut found: Option<Version> = None;
        let mut i: usize = 0;
        let ghost v = version_views(versions@);
        while i < versions.len() && found.is_none()
            invariant
                i <= versions.len(),
                v == version_views(versions@),
                found is None ==> version_named(v, latest@, 0) == version_named(
                    v,
                    latest@,
                    i as int,
                ),
                found is Some ==> version_named(v, latest@, 0) == Some(found->0@),
            decreases versions.len() - i,
        {
            assert(v[i as int] == versions@[i as int]@);
            if same_str(&to_chars(versions[i].version.as_str()), latest) {
                found = Some(versions[i].duplicate());
            }
            i += 1;
        }
        match found {
            Some(latest_version) => {
                let stable = find_stable(&versions, true);
                let update_available = !same(
                    &to_chars(latest_version.version.as_str()),
                    &to_chars(current_version),
                );
                Ok(
                    UpdateInfo {
                        current_version: text(current_version),
                        latest_version,
                        latest_stable_version: stable,
                        all_versions: versions,
                        update_available,
                    },
                )
            },
            None => Err(SourceError::LatestNotFound),
        }
    }
}

} // verus!

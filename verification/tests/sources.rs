use treeupdt::sources::crates_io::{CrateVersion, CratesIoSource};
use treeupdt::sources::git::GitSource;
use treeupdt::sources::github::{GitHubRelease, GitHubSource};
use treeupdt::sources::npm::NpmSource;
use treeupdt::sources::{SourceError, SourceKind, SourceRegistry, Version};
use treeupdt::types::{Options, SourceType};

#[test]
fn crates_io_test_is_pre_release() {
    assert!(!CratesIoSource::is_pre_release("1.0.0"));
    assert!(!CratesIoSource::is_pre_release("2.5.3"));
    assert!(!CratesIoSource::is_pre_release("0.1.0"));

    assert!(CratesIoSource::is_pre_release("1.0.0-alpha"));
    assert!(CratesIoSource::is_pre_release("1.0.0-beta.1"));
    assert!(CratesIoSource::is_pre_release("1.0.0-rc.2"));
    assert!(CratesIoSource::is_pre_release("1.0.0-pre"));
    assert!(CratesIoSource::is_pre_release("1.0.0-dev"));
}

#[test]
fn test_crate_version_handling() {
    let versions = vec![
        CrateVersion {
            num: "1.0.0".to_string(),
            yanked: false,
            created_at: "2023-01-01T00:00:00Z".to_string(),
        },
        CrateVersion {
            num: "1.0.0-beta.1".to_string(),
            yanked: false,
            created_at: "2022-12-01T00:00:00Z".to_string(),
        },
        CrateVersion {
            num: "0.9.0".to_string(),
            yanked: true,
            created_at: "2022-11-01T00:00:00Z".to_string(),
        },
    ];

    // Test that we can differentiate yanked versions
    assert!(!versions[0].yanked);
    assert!(!versions[1].yanked);
    assert!(versions[2].yanked);

    // Test version strings
    assert_eq!(versions[0].num, "1.0.0");
    assert!(versions[1].num.contains("-beta"));
}

#[test]
fn test_version_with_build_metadata() {
    // Semantic versioning allows build metadata after +
    assert!(!CratesIoSource::is_pre_release("1.0.0+20130313144700"));
    assert!(!CratesIoSource::is_pre_release("1.0.0+exp.sha.5114f85"));
    assert!(CratesIoSource::is_pre_release("1.0.0-alpha+001"));
    assert!(CratesIoSource::is_pre_release("1.0.0-beta+exp.sha.5114f85"));
}

#[test]
fn test_parse_identifier() {
    assert!(GitHubSource::parse_identifier("owner/repo").is_ok());
    let (owner, repo) = GitHubSource::parse_identifier("rust-lang/rust").unwrap();
    assert_eq!(owner, "rust-lang");
    assert_eq!(repo, "rust");

    assert!(GitHubSource::parse_identifier("invalid").is_err());
    assert!(GitHubSource::parse_identifier("too/many/slashes").is_err());
    assert!(GitHubSource::parse_identifier("").is_err());
}

#[test]
fn test_clean_version() {
    assert_eq!(GitHubSource::clean_version("v1.0.0"), "1.0.0");
    assert_eq!(GitHubSource::clean_version("version-1.0.0"), "1.0.0");
    assert_eq!(GitHubSource::clean_version("release-1.0.0"), "1.0.0");
    assert_eq!(GitHubSource::clean_version("1.0.0"), "1.0.0");
    assert_eq!(GitHubSource::clean_version("v1.0.0-beta"), "1.0.0-beta");
    assert_eq!(GitHubSource::clean_version("V1.0.0"), "V1.0.0");
    assert_eq!(GitHubSource::clean_version("v1.2.3-rc.1+build123"), "1.2.3-rc.1+build123");
}

#[test]
fn npm_test_is_pre_release() {
    assert!(!NpmSource::is_pre_release("1.0.0"));
    assert!(!NpmSource::is_pre_release("2.5.3"));

    assert!(NpmSource::is_pre_release("1.0.0-beta"));
    assert!(NpmSource::is_pre_release("1.0.0-alpha.1"));
    assert!(NpmSource::is_pre_release("1.0.0-rc.2"));
    assert!(NpmSource::is_pre_release("1.0.0alpha"));
    assert!(NpmSource::is_pre_release("1.0.0beta2"));
    assert!(NpmSource::is_pre_release("1.0.0rc1"));
}

#[test]
fn test_scoped_package_handling() {
    // NPM scoped packages use @ prefix
    let scoped_packages = vec![
        "@babel/core",
        "@types/node",
        "@angular/core",
        "@vue/cli",
    ];

    for pkg in scoped_packages {
        // Verify that scoped package names are valid
        assert!(pkg.starts_with('@'));
        assert!(pkg.contains('/'));
        // A scoped name is taken as it is; it is no pre-release
        assert_eq!(NpmSource::version(pkg, false).version, pkg);
    }
}

fn release(tag: &str, prerelease: bool, draft: bool) -> GitHubRelease {
    GitHubRelease {
        tag_name: tag.to_string(),
        name: None,
        published_at: Some("2023-01-01T00:00:00Z".to_string()),
        prerelease,
        draft,
    }
}

#[test]
fn github_versions_leave_drafts_out() {
    let releases = vec![
        release("v2.0.0-rc.1", true, false),
        release("v1.9.0", false, true),
        release("v1.8.0", false, false),
    ];
    let versions = GitHubSource::versions(&releases);
    assert_eq!(versions.len(), 2);
    assert_eq!(versions[0].version, "2.0.0-rc.1");
    assert!(versions[0].pre_release);
    assert_eq!(versions[0].published_at, Some(1_672_531_200));
    assert_eq!(versions[1].version, "1.8.0");
    assert!(!versions[1].yanked);
}

#[test]
fn github_check_compares_clean_versions() {
    let releases = vec![release("v2.0.0-rc.1", true, false), release("v1.8.0", false, false)];
    let info = GitHubSource::check("v1.8.0", GitHubSource::versions(&releases)).unwrap();
    assert!(info.update_available);
    assert_eq!(info.current_version, "v1.8.0");
    assert_eq!(info.latest_version.version, "2.0.0-rc.1");
    assert_eq!(info.latest_stable_version.unwrap().version, "1.8.0");
    assert_eq!(info.all_versions.len(), 2);

    let same = GitHubSource::check("v2.0.0-rc.1", GitHubSource::versions(&releases)).unwrap();
    assert!(!same.update_available);

    assert_eq!(GitHubSource::check("1.0", vec![]), Err(SourceError::NoVersions));
}

#[test]
fn crates_io_check_skips_yanked_and_pre_release() {
    let entries = vec![
        CrateVersion { num: "2.0.0-beta".to_string(), yanked: false, created_at: String::new() },
        CrateVersion { num: "1.5.0".to_string(), yanked: true, created_at: String::new() },
        CrateVersion { num: "1.4.0".to_string(), yanked: false, created_at: String::new() },
    ];
    let versions: Vec<Version> = CratesIoSource::versions(&entries);
    assert_eq!(versions[0].published_at, None);
    assert!(versions[0].pre_release);
    assert!(versions[1].yanked);
    let info = CratesIoSource::check("1.4.0", "1.5.0", versions);
    assert!(info.update_available);
    assert_eq!(info.latest_version.version, "1.5.0");
    assert!(!info.latest_version.yanked);
    assert_eq!(info.latest_stable_version.unwrap().version, "1.4.0");

    let none = CratesIoSource::check("1.5.0", "1.5.0", vec![]);
    assert!(!none.update_available);
    assert!(none.latest_stable_version.is_none());
}

#[test]
fn npm_check_needs_the_tagged_version() {
    let versions = vec![
        NpmSource::version("2.0.0-beta.1", false),
        NpmSource::version("1.5.0", true),
        NpmSource::version("1.0.0", false),
    ];
    let info = NpmSource::check("1.0.0", "1.5.0", versions.clone()).unwrap();
    assert!(info.update_available);
    assert_eq!(info.latest_version.version, "1.5.0");
    assert!(info.latest_version.yanked);
    assert_eq!(info.latest_stable_version.unwrap().version, "1.0.0");

    assert_eq!(NpmSource::check("1.0.0", "9.9.9", versions), Err(SourceError::LatestNotFound));
}

#[test]
fn git_identifier_has_an_optional_branch() {
    assert_eq!(
        GitSource::parse_git_identifier("https://example.com/r.git#dev").unwrap(),
        ("https://example.com/r.git".to_string(), "dev".to_string())
    );
    assert_eq!(
        GitSource::parse_git_identifier("https://example.com/r.git").unwrap(),
        ("https://example.com/r.git".to_string(), "main".to_string())
    );
    assert_eq!(
        GitSource::parse_git_identifier("u#a#b").unwrap(),
        ("u".to_string(), "a#b".to_string())
    );
}

#[test]
fn git_sha_is_shortened_to_seven() {
    assert_eq!(GitSource::shorten_commit_sha("0123456789abcdef"), "0123456");
    assert_eq!(GitSource::shorten_commit_sha("0123456"), "0123456");
    assert_eq!(GitSource::shorten_commit_sha("abc"), "abc");
}

#[test]
fn git_branch_commit_is_read_from_the_listing() {
    let listing = "1111111111\trefs/heads/dev\n2222222222\trefs/heads/main\n3333333333\trefs/heads/feature/main\n";
    assert_eq!(GitSource::find_branch_commit(listing, "main"), Some("2222222222".to_string()));
    assert_eq!(GitSource::find_branch_commit(listing, "dev"), Some("1111111111".to_string()));
    assert_eq!(GitSource::find_branch_commit(listing, "gone"), None);
}

#[test]
fn git_check_compares_commits_by_prefix() {
    let latest = GitSource::latest_version("0123456789abcdef", "main", 42);
    assert_eq!(latest.published_at, Some(42));
    assert_eq!(latest.metadata.get("branch").unwrap(), "main");
    assert_eq!(latest.metadata.get("short_sha").unwrap(), "0123456");

    let same = GitSource::check("0123456", latest.clone());
    assert!(!same.update_available);
    assert_eq!(same.all_versions.len(), 1);
    let changed = GitSource::check("fedcba9", latest);
    assert!(changed.update_available);
    assert_eq!(changed.latest_stable_version.unwrap().version, "0123456789abcdef");
}

#[test]
fn git_metadata_names_repository_and_commit() {
    let m = GitSource::metadata("https://example.com/r.git#dev", "0123456789");
    assert_eq!(m.get("repository").unwrap(), "https://example.com/r.git");
    assert_eq!(m.get("branch").unwrap(), "dev");
    assert_eq!(m.get("commit").unwrap(), "0123456789");
    assert_eq!(m.get("short_commit").unwrap(), "0123456");
}

#[test]
fn version_new_knows_nothing_else() {
    let v = Version::new("1.2.3".to_string());
    assert_eq!(v.version, "1.2.3");
    assert_eq!(v.published_at, None);
    assert!(!v.yanked);
    assert!(!v.pre_release);
    assert!(v.metadata.is_empty());
}

#[test]
fn registry_knows_clients_and_cache_times() {
    let cached = SourceRegistry::new();
    assert!(cached.use_cache);
    assert_eq!(cached.get_source(&SourceType::GitHub), Some(SourceKind::GitHub));
    assert_eq!(cached.get_source(&SourceType::Crates), Some(SourceKind::CratesIo));
    assert_eq!(cached.get_source(&SourceType::Npm), Some(SourceKind::Npm));
    assert_eq!(cached.get_source(&SourceType::Git), Some(SourceKind::Git));
    assert_eq!(cached.get_source(&SourceType::PyPi), None);
    assert_eq!(cached.get_source(&SourceType::Url), None);
    assert_eq!(cached.cache_ttl(SourceKind::GitHub), Some(3600));
    assert_eq!(cached.cache_ttl(SourceKind::CratesIo), Some(1800));
    assert_eq!(cached.cache_ttl(SourceKind::Npm), Some(1800));
    assert_eq!(cached.cache_ttl(SourceKind::Git), Some(300));
    assert_eq!(cached.source_name(SourceKind::CratesIo), "crates_io");
    let plain = SourceRegistry::with_cache(false);
    assert_eq!(plain.cache_ttl(SourceKind::Git), None);
}

#[test]
fn test_invalid_date_format() {
    // Test that invalid dates are handled gracefully
    let version = CrateVersion {
        num: "1.0.0".to_string(),
        yanked: false,
        created_at: "invalid-date".to_string(),
    };

    // This should not panic when parsing
    let parsed_date = CratesIoSource::version(&version).published_at;
    assert!(parsed_date.is_none());
}

#[test]
fn dates_are_read_as_seconds_since_the_epoch() {
    let version = CrateVersion {
        num: "1.0.0".to_string(),
        yanked: false,
        created_at: "2023-01-01T01:00:00+01:00".to_string(),
    };
    assert_eq!(CratesIoSource::version(&version).published_at, Some(1_672_531_200));
    let undated = GitHubRelease {
        tag_name: "v1".to_string(),
        name: Some("one".to_string()),
        published_at: None,
        prerelease: false,
        draft: false,
    };
    assert_eq!(GitHubSource::versions(&vec![undated])[0].published_at, None);
}

#[test]
fn test_npm_version_sorting() {
    let versions = vec![
        Version {
            version: "1.0.0".to_string(),
            published_at: None,
            yanked: false,
            pre_release: false,
            metadata: Options::new(),
        },
        Version {
            version: "2.0.0".to_string(),
            published_at: None,
            yanked: false,
            pre_release: false,
            metadata: Options::new(),
        },
        Version {
            version: "1.5.0".to_string(),
            published_at: None,
            yanked: false,
            pre_release: false,
            metadata: Options::new(),
        },
        Version {
            version: "2.0.0-beta.1".to_string(),
            published_at: None,
            yanked: false,
            pre_release: true,
            metadata: Options::new(),
        },
    ];

    // Sort like the get_versions method does
    let versions = NpmSource::sort_versions(versions);

    assert_eq!(versions[0].version, "2.0.0");
    assert_eq!(versions[1].version, "2.0.0-beta.1");
    assert_eq!(versions[2].version, "1.5.0");
    assert_eq!(versions[3].version, "1.0.0");
}

#[test]
fn versions_that_are_no_semantic_versions_are_listed_by_text() {
    let names = ["latest", "1.10.0", "next", "1.9.0", "1.9.0"];
    let versions: Vec<Version> = names.iter().map(|n| Version::new(n.to_string())).collect();
    let sorted: Vec<String> =
        NpmSource::sort_versions(versions).into_iter().map(|v| v.version).collect();
    assert_eq!(sorted, vec!["next", "latest", "1.10.0", "1.9.0", "1.9.0"]);
    assert_eq!(NpmSource::sort_versions(vec![]).len(), 0);
}

#[test]
fn listing_order_puts_the_newer_first() {
    assert!(treeupdt::sources::npm::listing_order("2.0.0", "1.0.0") < 0);
    assert!(treeupdt::sources::npm::listing_order("1.0.0", "2.0.0") > 0);
    assert_eq!(treeupdt::sources::npm::listing_order("1.0.0", "1.0.0"), 0);
    assert!(treeupdt::sources::npm::listing_order("1.10.0", "1.9.0") < 0);
    assert!(treeupdt::sources::npm::listing_order("b", "a") < 0);
    assert!(treeupdt::sources::npm::listing_order("a", "ab") > 0);
}

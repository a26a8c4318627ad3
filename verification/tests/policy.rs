use treeupdt::config::{Config, FileConfig, PackageConfig};
use treeupdt::filter::FilterConfig;
use treeupdt::policy::{
    apply_config, configure, ignores, merge_filters, parse_path_spec, path_line, report_update,
    select, should_ignore, source_label, star_regex, strategy_label,
};
use treeupdt::scanner::annotation_parser::parse_options;
use treeupdt::sources::npm::NpmSource;
use treeupdt::sources::{UpdateInfo, Version};
use treeupdt::types::{
    Annotation, FileType, Options, Package, SourceHint, SourceType, UpdateStrategy,
};

fn hint(source_type: SourceType, identifier: &str) -> SourceHint {
    SourceHint { source_type, identifier: identifier.to_string(), url: None }
}

fn package(path: &str, name: &str, annotations: Vec<Annotation>) -> Package {
    Package {
        path: path.to_string(),
        file_type: FileType::CargoToml,
        name: name.to_string(),
        current_version: "1.0.0".to_string(),
        sources: vec![hint(SourceType::Crates, name), hint(SourceType::GitHub, "o/r")],
        update_strategy: UpdateStrategy::Stable,
        annotations,
        metadata: Options::new(),
    }
}

fn package_config() -> PackageConfig {
    PackageConfig {
        enabled: true,
        update_strategy: None,
        pin_version: None,
        preferred_source: None,
        ignore_versions: vec![],
    }
}

#[test]
fn global_strategy_is_the_default() {
    let mut config = Config::default();
    config.global.update_strategy = UpdateStrategy::Latest;
    let p = apply_config(&config, package("Cargo.toml", "dependencies-serde", vec![])).unwrap();
    assert_eq!(p.update_strategy, UpdateStrategy::Latest);
    assert_eq!(p.sources[0].source_type, SourceType::Crates);
}

#[test]
fn excluded_path_takes_the_declaration_out() {
    let mut config = Config::default();
    config.global.exclude_paths = vec!["vendor".to_string()];
    assert!(apply_config(&config, package("vendor/Cargo.toml", "x", vec![])).is_none());
    assert!(apply_config(&config, package("src/Cargo.toml", "x", vec![])).is_some());
}

#[test]
fn file_settings_come_before_package_settings() {
    let mut config = Config::default();
    let mut in_file = package_config();
    in_file.update_strategy = Some(UpdateStrategy::Aggressive);
    in_file.preferred_source = Some(SourceType::GitHub);
    config.files = vec![(
        "Cargo.toml".to_string(),
        FileConfig {
            enabled: true,
            update_strategy: Some(UpdateStrategy::Conservative),
            packages: vec![("dependencies-serde".to_string(), in_file)],
        },
    )];
    let serde = apply_config(&config, package("./Cargo.toml", "dependencies-serde", vec![])).unwrap();
    assert_eq!(serde.update_strategy, UpdateStrategy::Aggressive);
    assert_eq!(serde.sources[0].source_type, SourceType::GitHub);
    assert_eq!(serde.sources[1].source_type, SourceType::Crates);
    assert_eq!(serde.sources.len(), 2);
    let other = apply_config(&config, package("Cargo.toml", "dependencies-tokio", vec![])).unwrap();
    assert_eq!(other.update_strategy, UpdateStrategy::Conservative);
    assert_eq!(other.sources[0].source_type, SourceType::Crates);
}

#[test]
fn disabled_file_or_package_takes_the_declaration_out() {
    let mut config = Config::default();
    config.files = vec![(
        "flake.nix".to_string(),
        FileConfig { enabled: false, update_strategy: None, packages: vec![] },
    )];
    assert!(apply_config(&config, package("flake.nix", "x", vec![])).is_none());

    let mut config = Config::default();
    let mut off = package_config();
    off.enabled = false;
    let mut pinned = package_config();
    pinned.pin_version = Some("1.2.3".to_string());
    config.packages = vec![("off".to_string(), off), ("pinned".to_string(), pinned)];
    assert!(apply_config(&config, package("Cargo.toml", "off", vec![])).is_none());
    assert!(apply_config(&config, package("Cargo.toml", "pinned", vec![])).is_none());
    assert!(apply_config(&config, package("Cargo.toml", "free", vec![])).is_some());
}

#[test]
fn annotations_decide_last() {
    let config = Config::default();
    let ignore = parse_options("ignore", 1).unwrap();
    assert!(apply_config(&config, package("Cargo.toml", "x", vec![ignore])).is_none());
    let pin = parse_options("pin-version=1.0", 1).unwrap();
    assert!(apply_config(&config, package("Cargo.toml", "x", vec![pin])).is_none());
    let strategy = parse_options("update-strategy=conservative", 1).unwrap();
    let p = apply_config(&config, package("Cargo.toml", "x", vec![strategy])).unwrap();
    assert_eq!(p.update_strategy, UpdateStrategy::Conservative);
    let unknown = parse_options("update-strategy=sometimes", 1).unwrap();
    let p = apply_config(&config, package("Cargo.toml", "x", vec![unknown])).unwrap();
    assert_eq!(p.update_strategy, UpdateStrategy::Stable);
}

#[test]
fn configure_keeps_order_and_drops_what_is_taken_out() {
    let mut config = Config::default();
    config.global.exclude_paths = vec!["vendor".to_string()];
    let packages = vec![
        package("a/Cargo.toml", "one", vec![]),
        package("vendor/Cargo.toml", "two", vec![]),
        package("b/Cargo.toml", "three", vec![]),
    ];
    let kept = configure(&config, packages);
    let names: Vec<&str> = kept.iter().map(|p| p.name.as_str()).collect();
    assert_eq!(names, vec!["one", "three"]);
}

#[test]
fn star_stands_for_any_text() {
    let regex: String = star_regex(&"*-beta*".chars().collect()).into_iter().collect();
    assert_eq!(regex, "(?s)^.*\\-beta.*$");
    assert!(ignores(&"*-beta*".chars().collect(), "2.0.0-beta.1"));
    assert!(!ignores(&"*-beta*".chars().collect(), "2.0.0"));
    assert!(ignores(&"2.0.0".chars().collect(), "2.0.0"));
    assert!(!ignores(&"2.0.0".chars().collect(), "2.0.01"));
    // the pattern has to match the whole version, and a dot is a dot
    assert!(!ignores(&"1.*".chars().collect(), "2.1.5"));
    assert!(!ignores(&"1.*".chars().collect(), "11.0"));
    assert!(ignores(&"1.*".chars().collect(), "1.2.3"));
    assert!(!ignores(&"*-beta".chars().collect(), "2.0.0-beta.1"));
    assert!(ignores(&"*+(x)*".chars().collect(), "1.0+(x)\n"));
}

#[test]
fn versions_are_ruled_out_by_annotation_and_settings() {
    let mut config = Config::default();
    let mut settings = package_config();
    settings.ignore_versions = vec!["9.9.9".to_string()];
    config.packages = vec![("x".to_string(), settings)];
    let mut in_file = package_config();
    in_file.ignore_versions = vec!["*-nightly".to_string()];
    config.files = vec![(
        "Cargo.toml".to_string(),
        FileConfig {
            enabled: true,
            update_strategy: None,
            packages: vec![("x".to_string(), in_file)],
        },
    )];
    let annotation = parse_options("ignore-versions=\"*-beta*, *-rc*\"", 3).unwrap();
    let p = package("Cargo.toml", "x", vec![annotation]);
    assert!(should_ignore(&config, &p, "2.0.0-beta.1"));
    assert!(should_ignore(&config, &p, "2.0.0-rc1"));
    assert!(should_ignore(&config, &p, "2.0.0-nightly"));
    assert!(should_ignore(&config, &p, "9.9.9"));
    assert!(!should_ignore(&config, &p, "2.0.0"));
    let other = package("Cargo.toml", "y", vec![]);
    assert!(!should_ignore(&config, &other, "9.9.9"));
}

#[test]
fn caller_filter_wins_over_configured_one() {
    let given = FilterConfig {
        file_type: Some("nix".to_string()),
        name_pattern: None,
        source_type: None,
        update_strategy: None,
    };
    let configured = treeupdt::config::FilterConfig {
        file_types: Some(vec!["cargo".to_string(), "go".to_string()]),
        name_patterns: Some(vec!["^my-.*".to_string()]),
        source_types: Some(vec![]),
        update_strategies: None,
    };
    let merged = merge_filters(given, &configured);
    assert_eq!(merged.file_type, Some("nix".to_string()));
    assert_eq!(merged.name_pattern, Some("^my-.*".to_string()));
    assert_eq!(merged.source_type, None);
    assert_eq!(merged.update_strategy, None);
}

#[test]
fn update_request_names_file_and_declaration() {
    assert_eq!(
        parse_path_spec("flake.nix:flake-input-nixpkgs"),
        (Some("flake.nix".to_string()), "flake-input-nixpkgs".to_string())
    );
    assert_eq!(parse_path_spec("package"), (None, "package".to_string()));
    assert_eq!(parse_path_spec("a:b:c"), (Some("a".to_string()), "b:c".to_string()));
    let packages = vec![
        package("a/Cargo.toml", "dependencies-serde", vec![]),
        package("b/Cargo.toml", "dependencies-serde", vec![]),
        package("b/Cargo.toml", "dependencies-tokio", vec![]),
    ];
    assert_eq!(select(&packages, "dependencies-serde"), vec![0, 1]);
    assert_eq!(select(&packages, "b/Cargo.toml:dependencies-serde"), vec![1]);
    assert_eq!(select(&packages, "Cargo.toml:dependencies-tokio"), vec![2]);
    assert!(select(&packages, "c/Cargo.toml:dependencies-serde").is_empty());
}

fn info(latest: &str, stable: Option<&str>, available: bool) -> UpdateInfo {
    UpdateInfo {
        current_version: "1.0.0".to_string(),
        latest_version: NpmSource::version(latest, false),
        latest_stable_version: stable.map(|s| Version::new(s.to_string())),
        all_versions: vec![],
        update_available: available,
    }
}

#[test]
fn update_is_offered_unless_ruled_out() {
    let config = Config::default();
    let annotation = parse_options("ignore-versions=*-beta*", 3).unwrap();
    let p = package("Cargo.toml", "x", vec![annotation]);
    let h = hint(SourceType::Crates, "x");
    let entry = report_update(&config, &p, &h, &info("2.0.0", Some("1.9.0"), true)).unwrap();
    assert_eq!(entry.package, "x");
    assert_eq!(entry.path, "Cargo.toml");
    assert_eq!(entry.current_version, "1.0.0");
    assert_eq!(entry.latest_version, "2.0.0");
    assert_eq!(entry.latest_stable_version, Some("1.9.0".to_string()));
    assert_eq!(entry.source_type, SourceType::Crates);
    assert_eq!(entry.identifier, "x");
    assert!(report_update(&config, &p, &h, &info("2.0.0-beta.1", None, true)).is_none());
    assert!(report_update(&config, &p, &h, &info("2.0.0", None, false)).is_none());
}

#[test]
fn labels_are_written_as_shown() {
    assert_eq!(source_label(&hint(SourceType::GitHub, "o/r")), "github:o/r");
    assert_eq!(source_label(&hint(SourceType::Npm, "left-pad")), "npm:left-pad");
    assert_eq!(source_label(&hint(SourceType::Git, "u")), "git:u");
    assert_eq!(source_label(&hint(SourceType::Crates, "serde")), "serde");
    assert_eq!(strategy_label(UpdateStrategy::Conservative), "conservative");
    assert_eq!(strategy_label(UpdateStrategy::Stable), "stable");
    assert_eq!(strategy_label(UpdateStrategy::Latest), "latest");
    assert_eq!(strategy_label(UpdateStrategy::Aggressive), "aggressive");
    assert_eq!(path_line(&package("a/flake.nix", "package", vec![])), "a/flake.nix:package");
}

#[test]
fn first_written_update_ends_the_search() {
    use_attempts();
}

fn use_attempts() {
    assert!(!treeupdt::policy::tries_next_source(treeupdt::policy::Attempt::Written));
    assert!(treeupdt::policy::tries_next_source(treeupdt::policy::Attempt::WriteFailed));
    assert!(treeupdt::policy::tries_next_source(treeupdt::policy::Attempt::UpToDate));
    assert!(treeupdt::policy::tries_next_source(treeupdt::policy::Attempt::CheckFailed));
}

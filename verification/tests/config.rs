use treeupdt::config::{
    default_cache_enabled, default_cache_ttl, default_enabled, default_update_strategy, Config,
    FileConfig, PackageConfig,
};
use treeupdt::types::UpdateStrategy;

#[test]
fn test_is_excluded() {
    let mut config = Config::default();
    config.global.exclude_paths = vec![
        "vendor".to_string(),
        "node_modules".to_string(),
        "*.tmp".to_string(),
        "test_*_data".to_string(),
    ];

    assert!(config.is_excluded("vendor"));
    assert!(config.is_excluded("vendor/lib"));
    assert!(config.is_excluded("node_modules"));
    assert!(config.is_excluded("file.tmp"));
    assert!(config.is_excluded("test_foo_data"));
    assert!(!config.is_excluded("src"));
    assert!(!config.is_excluded("test"));
}

#[test]
fn pattern_with_two_stars_excludes_nothing() {
    let mut config = Config::default();
    config.global.exclude_paths = vec!["a*b*c".to_string()];
    assert!(!config.is_excluded("abc"));
    assert!(!config.is_excluded("a*b*c"));
}

#[test]
fn name_that_only_begins_alike_is_not_excluded() {
    let mut config = Config::default();
    config.global.exclude_paths = vec!["vendor".to_string()];
    assert!(!config.is_excluded("vendored"));
    assert!(!config.is_excluded("src/vendor"));
}

#[test]
fn defaults_are_as_documented() {
    assert_eq!(default_update_strategy(), UpdateStrategy::Stable);
    assert!(default_cache_enabled());
    assert_eq!(default_cache_ttl(), 3600);
    assert!(default_enabled());
    let config = Config::default();
    assert_eq!(config.global.update_strategy, UpdateStrategy::Stable);
    assert!(config.global.cache_enabled);
    assert_eq!(config.global.cache_ttl, 3600);
    assert!(config.global.exclude_paths.is_empty());
    assert!(config.files.is_empty());
    assert!(config.packages.is_empty());
}

fn file_config(strategy: Option<UpdateStrategy>) -> FileConfig {
    FileConfig { enabled: true, update_strategy: strategy, packages: vec![] }
}

#[test]
fn file_config_is_found_with_or_without_dot_slash() {
    let mut config = Config::default();
    config.files = vec![
        ("flake.nix".to_string(), file_config(Some(UpdateStrategy::Conservative))),
        ("./Cargo.toml".to_string(), file_config(Some(UpdateStrategy::Latest))),
    ];
    assert_eq!(
        config.get_file_config("flake.nix").unwrap().update_strategy,
        Some(UpdateStrategy::Conservative)
    );
    assert_eq!(
        config.get_file_config("./flake.nix").unwrap().update_strategy,
        Some(UpdateStrategy::Conservative)
    );
    assert_eq!(
        config.get_file_config("Cargo.toml").unwrap().update_strategy,
        Some(UpdateStrategy::Latest)
    );
    assert!(config.get_file_config("go.mod").is_none());
}

#[test]
fn package_config_is_found_by_name() {
    let mut config = Config::default();
    config.packages = vec![(
        "my-important-lib".to_string(),
        PackageConfig {
            enabled: true,
            update_strategy: None,
            pin_version: Some("1.2.3".to_string()),
            preferred_source: None,
            ignore_versions: vec![],
        },
    )];
    let found = config.get_package_config("my-important-lib").unwrap();
    assert_eq!(found.pin_version, Some("1.2.3".to_string()));
    assert!(config.get_package_config("other").is_none());
}

use treeupdt::types::{
    Error, FileType, Options, Package, SourceHint, SourceType, UpdateStrategy,
};
use treeupdt::updater::cargo_updater::CargoUpdater;

fn create_test_package(name: &str, version: &str) -> Package {
    Package {
        path: "Cargo.toml".to_string(),
        file_type: FileType::CargoToml,
        name: name.to_string(),
        current_version: version.to_string(),
        sources: vec![SourceHint {
            source_type: SourceType::Crates,
            identifier: "test-crate".to_string(),
            url: None,
        }],
        update_strategy: UpdateStrategy::Stable,
        annotations: vec![],
        metadata: Options::new(),
    }
}

#[test]
fn cargo_updater_test_update_simple_dependency() {
    let updater = CargoUpdater::new();
    let content = r#"[package]
name = "test"
version = "0.1.0"

[dependencies]
serde = "1.0.0"
tokio = "1.0"
"#;
    
    let package = create_test_package("dependencies-serde", "1.0.0");
    let result = updater.update_content(content, &package, "1.1.0").unwrap();
    
    assert!(result.contains(r#"serde = "1.1.0""#));
    assert!(result.contains(r#"tokio = "1.0""#)); // unchanged
}

#[test]
fn cargo_updater_test_update_dev_dependency() {
    let updater = CargoUpdater::new();
    let content = r#"[package]
name = "test"
version = "0.1.0"

[dev-dependencies]
criterion = "0.3"
pretty_assertions = "1.0"
"#;
    
    let package = create_test_package("dev-criterion", "0.3");
    let result = updater.update_content(content, &package, "0.4").unwrap();
    
    assert!(result.contains(r#"criterion = "0.4""#));
    assert!(result.contains(r#"pretty_assertions = "1.0""#)); // unchanged
}

#[test]
fn test_update_build_dependency() {
    let updater = CargoUpdater::new();
    let content = r#"[package]
name = "test"
version = "0.1.0"

[build-dependencies]
cc = "1.0"
"#;
    
    let package = create_test_package("build-cc", "1.0");
    let result = updater.update_content(content, &package, "1.1").unwrap();
    
    assert!(result.contains(r#"cc = "1.1""#));
}

#[test]
fn test_update_table_format_dependency() {
    let updater = CargoUpdater::new();
    let content = r#"[package]
name = "test"
version = "0.1.0"

[dependencies]
serde = { version = "1.0", features = ["derive"] }
"#;
    
    let package = create_test_package("dependencies-serde", "1.0");
    let result = updater.update_content(content, &package, "1.1").unwrap();
    
    assert!(result.contains(r#"version = "1.1""#));
    assert!(result.contains(r#"features = ["derive"]"#)); // features preserved
}

#[test]
fn test_update_crate_version() {
    let updater = CargoUpdater::new();
    let content = r#"[package]
name = "my-crate"
version = "0.1.0"
authors = ["Test"]

[dependencies]
"#;
    
    let package = create_test_package("crate-my-crate", "0.1.0");
    let result = updater.update_content(content, &package, "0.2.0").unwrap();
    
    assert!(result.contains(r#"version = "0.2.0""#));
    assert!(result.contains(r#"name = "my-crate""#)); // name unchanged
}

#[test]
fn test_update_workspace_dependency() {
    let updater = CargoUpdater::new();
    let content = r#"[package]
name = "test"
version = "0.1.0"

[dependencies]
workspace-crate = { version = "0.1", path = "../workspace-crate" }
"#;
    
    let package = create_test_package("dependencies-workspace-crate", "0.1");
    let result = updater.update_content(content, &package, "0.2").unwrap();
    
    assert!(result.contains(r#"version = "0.2""#));
    assert!(result.contains(r#"path = "../workspace-crate""#)); // path preserved
}

#[test]
fn cargo_updater_test_preserve_formatting() {
    let updater = CargoUpdater::new();
    let content = r#"[package]
name = "test"
version = "0.1.0"

[dependencies]
# Important dependency
serde = "1.0" # with comment

[dev-dependencies]
"#;
    
    let package = create_test_package("dependencies-serde", "1.0");
    let result = updater.update_content(content, &package, "1.1").unwrap();
    
    assert!(result.contains("# Important dependency"));
    assert!(result.contains("# with comment"));
}

#[test]
fn cargo_updater_test_no_update_when_dependency_not_found() {
    let updater = CargoUpdater::new();
    let content = r#"[package]
name = "test"
version = "0.1.0"

[dependencies]
serde = "1.0"
"#;

    let package = create_test_package("dependencies-tokio", "1.0");
    let result = updater.update_content(content, &package, "2.0");

    // A declaration that is not in the file fails the mutation
    assert_eq!(result, Err(Error::DeclarationNotFound));
}

#[test]
fn test_update_git_dependency() {
    let updater = CargoUpdater::new();
    let content = r#"[package]
name = "test"
version = "0.1.0"

[dependencies]
my-crate = { git = "https://github.com/user/repo", tag = "v1.0" }
"#;
    
    let package = create_test_package("dependencies-my-crate", "v1.0");
    let result = updater.update_content(content, &package, "v2.0").unwrap();
    
    // toml_edit might reformat this, but the version should be updated
    assert!(result.contains("my-crate"));
    // The git URL should be preserved
    assert!(result.contains("https://github.com/user/repo"));
}


use treeupdt::scanner::cargo_scanner::CargoScanner;
use treeupdt::scanner::Registry;
use treeupdt::types::SourceType;

#[test]
fn cargo_scanner_test_scan_simple_dependencies() {
    let scanner = CargoScanner::new();
    let cargo_toml_path = "Cargo.toml";
    
    let content = r#"
[package]
name = "test-package"
version = "0.1.0"

[dependencies]
serde = "1.0"
tokio = { version = "1.35", features = ["full"] }
"#;
    
    let packages = scanner.scan_content(cargo_toml_path, content).unwrap();
    
    assert_eq!(packages.len(), 3); // package version + 2 deps
    
    // Check package version
    let pkg = packages.iter().find(|p| p.name == "crate-test-package").unwrap();
    assert_eq!(pkg.current_version, "0.1.0");
    
    // Check dependencies
    let serde = packages.iter().find(|p| p.name == "dependencies-serde").unwrap();
    assert_eq!(serde.current_version, "1.0");
    assert_eq!(serde.sources[0].source_type, SourceType::Crates);
    
    let tokio = packages.iter().find(|p| p.name == "dependencies-tokio").unwrap();
    assert_eq!(tokio.current_version, "1.35");
}

#[test]
fn test_scan_dev_and_build_dependencies() {
    let scanner = CargoScanner::new();
    let cargo_toml_path = "Cargo.toml";
    
    let content = r#"
[package]
name = "test-package"
version = "0.1.0"

[dependencies]
serde = "1.0"

[dev-dependencies]
mockall = "0.11"
criterion = "0.5"

[build-dependencies]
cc = "1.0"
"#;
    
    let packages = scanner.scan_content(cargo_toml_path, content).unwrap();
    
    assert_eq!(packages.len(), 5); // package + 4 deps
    
    let mockall = packages.iter().find(|p| p.name == "dev-mockall").unwrap();
    assert_eq!(mockall.current_version, "0.11");
    
    let criterion = packages.iter().find(|p| p.name == "dev-criterion").unwrap();
    assert_eq!(criterion.current_version, "0.5");
    
    let cc = packages.iter().find(|p| p.name == "build-cc").unwrap();
    assert_eq!(cc.current_version, "1.0");
}

#[test]
fn test_scan_workspace_dependencies() {
    let scanner = CargoScanner::new();
    let cargo_toml_path = "Cargo.toml";
    
    let content = r#"
[workspace]
members = ["crate-a", "crate-b"]

[workspace.dependencies]
serde = "1.0"
tokio = { version = "1.35", features = ["full"] }
"#;
    
    let packages = scanner.scan_content(cargo_toml_path, content).unwrap();
    
    assert_eq!(packages.len(), 2); // 2 workspace deps
    
    let serde = packages.iter().find(|p| p.name == "workspace-dependency-serde").unwrap();
    assert_eq!(serde.current_version, "1.0");
    
    let tokio = packages.iter().find(|p| p.name == "workspace-dependency-tokio").unwrap();
    assert_eq!(tokio.current_version, "1.35");
}

#[test]
fn test_scan_git_dependencies() {
    let scanner = CargoScanner::new();
    let cargo_toml_path = "Cargo.toml";
    
    let content = r#"
[package]
name = "test-package"
version = "0.1.0"

[dependencies]
my-crate = { git = "https://github.com/user/repo", version = "0.1.0" }
local-crate = { path = "../local-crate", version = "0.2.0" }
"#;
    
    let packages = scanner.scan_content(cargo_toml_path, content).unwrap();
    
    let my_crate = packages.iter().find(|p| p.name == "dependencies-my-crate").unwrap();
    assert_eq!(my_crate.current_version, "0.1.0");
    assert_eq!(my_crate.sources[0].source_type, SourceType::Git);
    
    let local_crate = packages.iter().find(|p| p.name == "dependencies-local-crate").unwrap();
    assert_eq!(local_crate.current_version, "0.2.0");
}

#[test]
fn cargo_scanner_test_scan_with_annotations() {
    let scanner = CargoScanner::new();
    let cargo_toml_path = "Cargo.toml";
    
    let content = r#"
[package]
name = "test-package"
version = "0.1.0"

[dependencies]
serde = "1.0"  # treeupdt: pin-version
# treeupdt: ignore
tokio = "1.35"
reqwest = "0.11" # treeupdt: update-strategy=conservative
"#;
    
    let packages = scanner.scan_content(cargo_toml_path, content).unwrap();
    
    // Check serde has pin-version annotation
    let serde = packages.iter().find(|p| p.name == "dependencies-serde").unwrap();
    // Check that we have at least one annotation with pin-version
    assert!(serde.annotations.iter().any(|a| a.options.get("pin-version") == Some(&"true".to_string())));
    
    // Check tokio has ignore annotation
    let tokio = packages.iter().find(|p| p.name == "dependencies-tokio").unwrap();
    assert!(tokio.annotations.len() > 0);
    let has_ignore = tokio.annotations.iter().any(|a| a.options.contains_key("ignore"));
    assert!(has_ignore);
    
    // Check reqwest has update-strategy annotation  
    let reqwest = packages.iter().find(|p| p.name == "dependencies-reqwest").unwrap();
    assert_eq!(reqwest.annotations.len(), 1);
    assert_eq!(reqwest.annotations[0].options.get("update-strategy").unwrap(), "conservative");
}

#[test]
fn test_scan_target_dependencies() {
    let scanner = CargoScanner::new();
    let cargo_toml_path = "Cargo.toml";
    
    let content = r#"
[package]
name = "test-package"
version = "0.1.0"

[target.'cfg(windows)'.dependencies]
winapi = "0.3"

[target.'cfg(unix)'.dependencies]
libc = "0.2"
"#;
    
    let packages = scanner.scan_content(cargo_toml_path, content).unwrap();
    
    let winapi = packages.iter().find(|p| p.name.contains("winapi")).unwrap();
    assert_eq!(winapi.current_version, "0.3");
    
    let libc = packages.iter().find(|p| p.name.contains("libc")).unwrap();
    assert_eq!(libc.current_version, "0.2");
}

#[test]
fn cargo_scanner_test_scan_directory() {
    let registry = Registry::new();
    let files = vec![
        ("crate1/Cargo.toml".to_string(), r#"
[package]
name = "crate1"
version = "0.1.0"

[dependencies]
serde = "1.0"
"#.to_string()),
        ("crate2/Cargo.toml".to_string(), r#"
[package]
name = "crate2"
version = "0.2.0"

[dependencies]
tokio = "1.35"
"#.to_string()),
    ];

    let report = registry.scan(&files);
    let packages = report.packages;

    // Should find 2 package versions and 2 dependencies
    assert_eq!(packages.len(), 4);
    assert!(packages.iter().any(|p| p.name == "crate-crate1" && p.current_version == "0.1.0"));
    assert!(packages.iter().any(|p| p.name == "crate-crate2" && p.current_version == "0.2.0"));
    assert!(packages.iter().any(|p| p.name == "dependencies-serde"));
    assert!(packages.iter().any(|p| p.name == "dependencies-tokio"));
}

#[test]
fn test_scan_empty_cargo_toml() {
    let scanner = CargoScanner::new();
    let cargo_toml_path = "Cargo.toml";
    
    let content = "[package]\nname = \"empty\"\nversion = \"0.1.0\"";
    
    let packages = scanner.scan_content(cargo_toml_path, content).unwrap();
    assert_eq!(packages.len(), 1); // Just the package itself
}

#[test]
fn test_scan_malformed_dependency() {
    let scanner = CargoScanner::new();
    let cargo_toml_path = "Cargo.toml";
    
    let content = r#"
[package]
name = "test"
version = "0.1.0"

[dependencies]
serde = "1.0"
# This will parse as a table but without version
broken = {}
tokio = "1.35"
"#;
    
    let packages = scanner.scan_content(cargo_toml_path, content).unwrap();
    
    // Should still parse valid dependencies
    assert!(packages.iter().any(|p| p.name == "dependencies-serde"));
    assert!(packages.iter().any(|p| p.name == "dependencies-tokio"));
    
    // Broken dep should have "unknown" version
    let broken = packages.iter().find(|p| p.name == "dependencies-broken").unwrap();
    assert_eq!(broken.current_version, "unknown");
}


use treeupdt::types::{
    Error, FileType, Options, Package, SourceHint, SourceType, UpdateStrategy,
};
use treeupdt::updater::npm_updater::NpmUpdater;

fn create_test_package(name: &str, version: &str) -> Package {
    Package {
        path: "package.json".to_string(),
        file_type: FileType::PackageJson,
        name: name.to_string(),
        current_version: version.to_string(),
        sources: vec![SourceHint {
            source_type: SourceType::Npm,
            identifier: "test-package".to_string(),
            url: None,
        }],
        update_strategy: UpdateStrategy::Stable,
        annotations: vec![],
        metadata: Options::new(),
    }
}

#[test]
fn npm_updater_test_update_simple_dependency() {
    let updater = NpmUpdater::new();
    let content = r#"{
  "name": "test-app",
  "version": "1.0.0",
  "dependencies": {
    "express": "4.18.0",
    "lodash": "4.17.21"
  }
}"#;
    
    let package = create_test_package("dependency-express", "4.18.0");
    let result = updater.update_content(content, &package, "4.19.0").unwrap();
    
    assert!(result.contains(r#""express": "4.19.0""#));
    assert!(result.contains(r#""lodash": "4.17.21""#)); // unchanged
}

#[test]
fn npm_updater_test_update_dev_dependency() {
    let updater = NpmUpdater::new();
    let content = r#"{
  "name": "test-app",
  "version": "1.0.0",
  "devDependencies": {
    "jest": "29.0.0",
    "eslint": "8.0.0"
  }
}"#;
    
    let package = create_test_package("devDependency-jest", "29.0.0");
    let result = updater.update_content(content, &package, "29.1.0").unwrap();
    
    assert!(result.contains(r#""jest": "29.1.0""#));
    assert!(result.contains(r#""eslint": "8.0.0""#)); // unchanged
}

#[test]
fn test_update_peer_dependency() {
    let updater = NpmUpdater::new();
    let content = r#"{
  "name": "test-lib",
  "version": "1.0.0",
  "peerDependencies": {
    "react": "18.0.0",
    "react-dom": "18.0.0"
  }
}"#;
    
    let package = create_test_package("peerDependency-react", "18.0.0");
    let result = updater.update_content(content, &package, "18.2.0").unwrap();
    
    assert!(result.contains(r#""react": "18.2.0""#));
    assert!(result.contains(r#""react-dom": "18.0.0""#)); // unchanged
}

#[test]
fn test_preserve_version_prefix_caret() {
    let updater = NpmUpdater::new();
    let content = r#"{
  "name": "test-app",
  "version": "1.0.0",
  "dependencies": {
    "express": "^4.18.0"
  }
}"#;
    
    let package = create_test_package("dependency-express", "^4.18.0");
    let result = updater.update_content(content, &package, "4.19.0").unwrap();
    
    assert!(result.contains(r#""express": "^4.19.0""#));
}

#[test]
fn test_preserve_version_prefix_tilde() {
    let updater = NpmUpdater::new();
    let content = r#"{
  "name": "test-app",
  "version": "1.0.0",
  "dependencies": {
    "express": "~4.18.0"
  }
}"#;
    
    let package = create_test_package("dependency-express", "~4.18.0");
    let result = updater.update_content(content, &package, "4.18.1").unwrap();
    
    assert!(result.contains(r#""express": "~4.18.1""#));
}

#[test]
fn test_preserve_version_prefix_gte() {
    let updater = NpmUpdater::new();
    let content = r#"{
  "name": "test-app",
  "version": "1.0.0",
  "dependencies": {
    "express": ">=4.0.0"
  }
}"#;
    
    let package = create_test_package("dependency-express", ">=4.0.0");
    let result = updater.update_content(content, &package, "5.0.0").unwrap();
    
    assert!(result.contains(r#""express": ">=5.0.0""#));
}

#[test]
fn npm_updater_test_update_package_version() {
    let updater = NpmUpdater::new();
    let content = r#"{
  "name": "my-package",
  "version": "1.0.0",
  "description": "Test package"
}"#;
    
    let package = create_test_package("package", "1.0.0");
    let result = updater.update_content(content, &package, "1.1.0").unwrap();
    
    assert!(result.contains(r#""version": "1.1.0""#));
    assert!(result.contains(r#""name": "my-package""#)); // unchanged
}

#[test]
fn test_update_scoped_package() {
    let updater = NpmUpdater::new();
    let content = r#"{
  "name": "test-app",
  "version": "1.0.0",
  "dependencies": {
    "@babel/core": "^7.0.0",
    "@babel/preset-env": "^7.0.0"
  }
}"#;
    
    let package = create_test_package("dependency-@babel/core", "^7.0.0");
    let result = updater.update_content(content, &package, "7.1.0").unwrap();
    
    assert!(result.contains(r#""@babel/core": "^7.1.0""#));
    assert!(result.contains(r#""@babel/preset-env": "^7.0.0""#)); // unchanged
}

#[test]
fn npm_updater_test_no_update_when_dependency_not_found() {
    let updater = NpmUpdater::new();
    let content = r#"{
  "name": "test-app",
  "version": "1.0.0",
  "dependencies": {
    "express": "4.18.0"
  }
}"#;
    
    let package = create_test_package("dependency-lodash", "4.17.0");
    let result = updater.update_content(content, &package, "4.18.0");

    // A declaration that is not in the file fails the mutation
    assert_eq!(result, Err(Error::DeclarationNotFound));
}

#[test]
fn npm_updater_test_preserve_formatting() {
    let updater = NpmUpdater::new();
    let content = r#"{
  "name": "test-app",
  "version": "1.0.0",
  "dependencies": {
    "express": "4.18.0"
  },
  "scripts": {
    "start": "node index.js"
  }
}"#;
    
    let package = create_test_package("dependency-express", "4.18.0");
    let result = updater.update_content(content, &package, "4.19.0").unwrap();
    
    // Check that formatting is preserved (2 space indent)
    assert!(result.contains("  \"dependencies\": {"));
    assert!(result.contains("  \"scripts\": {"));
}


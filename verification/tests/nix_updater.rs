use treeupdt::types::{
    Error, FileType, Options, Package, SourceHint, SourceType, UpdateStrategy,
};
use treeupdt::updater::nix_updater::NixUpdater;

fn create_test_package(name: &str, version: &str) -> Package {
    Package {
        path: "flake.nix".to_string(),
        file_type: FileType::Nix,
        name: name.to_string(),
        current_version: version.to_string(),
        sources: vec![SourceHint {
            source_type: SourceType::GitHub,
            identifier: "NixOS/nixpkgs".to_string(),
            url: None,
        }],
        update_strategy: UpdateStrategy::Stable,
        annotations: vec![],
        metadata: Options::new(),
    }
}

#[test]
fn test_update_flake_github_shorthand() {
    let updater = NixUpdater::new();
    let content = r#"{
  inputs = {
    nixpkgs.url = "github:NixOS/nixpkgs/nixos-23.11";
  };
}
"#;
    
    let package = create_test_package("flake-input-nixpkgs", "nixos-23.11");
    let result = updater.update_content(content, &package, "nixos-24.05").unwrap();
    
    assert!(result.contains("github:NixOS/nixpkgs/nixos-24.05"));
    assert!(!result.contains("nixos-23.11"));
}

#[test]
fn test_update_flake_github_url_with_ref() {
    let updater = NixUpdater::new();
    let content = r#"{
  inputs = {
    myrepo.url = "https://github.com/user/repo?ref=v1.0.0";
  };
}
"#;
    
    let package = create_test_package("flake-input-myrepo", "v1.0.0");
    let result = updater.update_content(content, &package, "v2.0.0").unwrap();
    
    assert!(result.contains("https://github.com/user/repo?ref=v2.0.0"));
    assert!(!result.contains("v1.0.0"));
}

#[test]
fn test_update_flake_github_url_without_ref() {
    let updater = NixUpdater::new();
    let content = r#"{
  inputs = {
    myrepo.url = "https://github.com/user/repo";
  };
}
"#;
    
    let package = create_test_package("flake-input-myrepo", "main");
    let result = updater.update_content(content, &package, "v1.0.0").unwrap();

    // A URL that carries no ref is left as it is, and the mutation succeeds
    assert_eq!(result, content);
}

#[test]
fn test_update_flake_git_plus_https() {
    let updater = NixUpdater::new();
    let content = r#"{
  inputs = {
    myrepo.url = "git+https://github.com/user/repo?ref=stable";
  };
}
"#;
    
    let package = create_test_package("flake-input-myrepo", "stable");
    let result = updater.update_content(content, &package, "v2.0").unwrap();
    
    assert!(result.contains("git+https://github.com/user/repo?ref=v2.0"));
    assert!(!result.contains("stable"));
}

#[test]
fn nix_updater_test_update_package_version() {
    let updater = NixUpdater::new();
    let content = r#"{
  pname = "my-package";
  version = "1.0.0";
  src = fetchFromGitHub {
    owner = "user";
    repo = "repo";
    rev = "v1.0.0";
  };
}
"#;
    
    let package = create_test_package("package", "1.0.0");
    let result = updater.update_content(content, &package, "1.1.0").unwrap();
    
    assert!(result.contains(r#"version = "1.1.0""#));
    assert!(!result.contains(r#"version = "1.0.0""#));
    // Note: This doesn't update the rev field - that would need a more sophisticated approach
}

#[test]
fn test_update_multiple_flake_inputs() {
    let updater = NixUpdater::new();
    let content = r#"{
  inputs = {
    nixpkgs.url = "github:NixOS/nixpkgs/nixos-23.11";
    flake-utils.url = "github:numtide/flake-utils";
    rust-overlay.url = "github:oxalica/rust-overlay";
  };
}
"#;
    
    let package = create_test_package("flake-input-nixpkgs", "nixos-23.11");
    let result = updater.update_content(content, &package, "nixos-24.05").unwrap();
    
    assert!(result.contains("github:NixOS/nixpkgs/nixos-24.05"));
    // Other inputs should remain unchanged
    assert!(result.contains("github:numtide/flake-utils"));
    assert!(result.contains("github:oxalica/rust-overlay"));
}

#[test]
fn nix_updater_test_preserve_formatting() {
    let updater = NixUpdater::new();
    let content = r#"{
  inputs = {
    # Main nixpkgs input
    nixpkgs.url = "github:NixOS/nixpkgs/nixos-23.11";
    
    # Utility functions
    flake-utils.url = "github:numtide/flake-utils";
  };
}
"#;
    
    let package = create_test_package("flake-input-nixpkgs", "nixos-23.11");
    let result = updater.update_content(content, &package, "nixos-24.05").unwrap();
    
    // Comments should be preserved
    assert!(result.contains("# Main nixpkgs input"));
    assert!(result.contains("# Utility functions"));
}

#[test]
fn test_no_update_when_input_not_found() {
    let updater = NixUpdater::new();
    let content = r#"{
  inputs = {
    nixpkgs.url = "github:NixOS/nixpkgs/nixos-23.11";
  };
}
"#;

    let package = create_test_package("flake-input-notfound", "v1.0.0");
    let result = updater.update_content(content, &package, "v2.0.0");

    // A declaration that is not in the file fails the mutation
    assert_eq!(result, Err(Error::DeclarationNotFound));
}

#[test]
fn test_update_flake_url_function() {
    let updater = NixUpdater::new();
    
    // Test github: shorthand
    assert_eq!(
        updater.update_flake_url("github:owner/repo/old-ref", "new-ref").unwrap(),
        "github:owner/repo/new-ref"
    );
    
    // Test github: without ref
    assert_eq!(
        updater.update_flake_url("github:owner/repo", "new-ref").unwrap(),
        "github:owner/repo/new-ref"
    );
    
    // Test https URL with ref
    assert_eq!(
        updater.update_flake_url("https://github.com/owner/repo?ref=old", "new").unwrap(),
        "https://github.com/owner/repo?ref=new"
    );
    
    // Test https URL without ref: it is left as it is
    assert_eq!(
        updater.update_flake_url("https://github.com/owner/repo", "new").unwrap(),
        "https://github.com/owner/repo"
    );
    
    // Test non-GitHub URL (should remain unchanged)
    assert_eq!(
        updater.update_flake_url("https://example.com/repo", "new").unwrap(),
        "https://example.com/repo"
    );
}


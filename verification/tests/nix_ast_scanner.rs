use treeupdt::scanner::nix_ast_scanner::{version_of_url, NixAstScanner};
use treeupdt::scanner::Registry;
use treeupdt::types::SourceType;

#[test]
fn test_scan_flake_simple_inputs() {
    let scanner = NixAstScanner::new();
    let flake_path = "flake.nix";
    
    let content = r#"
{
  inputs = {
    nixpkgs.url = "github:NixOS/nixpkgs/nixos-23.11";
    flake-utils.url = "github:numtide/flake-utils";
  };
  
  outputs = { self, nixpkgs, flake-utils }: {};
}
"#;
    
    let packages = scanner.scan_content(flake_path, content).unwrap();
    
    assert_eq!(packages.len(), 2);
    
    let nixpkgs = packages.iter().find(|p| p.name == "flake-input-nixpkgs").unwrap();
    assert_eq!(nixpkgs.current_version, "nixos-23.11");
    assert_eq!(nixpkgs.sources[0].source_type, SourceType::GitHub);
    assert_eq!(nixpkgs.sources[0].identifier, "NixOS/nixpkgs");
    
    let flake_utils = packages.iter().find(|p| p.name == "flake-input-flake-utils").unwrap();
    assert_eq!(flake_utils.current_version, "HEAD");
    assert_eq!(flake_utils.sources[0].source_type, SourceType::GitHub);
    assert_eq!(flake_utils.sources[0].identifier, "numtide/flake-utils");
}

#[test]
fn test_scan_flake_attribute_set_inputs() {
    let scanner = NixAstScanner::new();
    let flake_path = "flake.nix";
    
    let content = r#"
{
  inputs = {
    nixpkgs = {
      url = "github:NixOS/nixpkgs/nixos-unstable";
    };
    rust-overlay = {
      url = "github:oxalica/rust-overlay";
      inputs.nixpkgs.follows = "nixpkgs";
    };
  };
  
  outputs = { self, nixpkgs, rust-overlay }: {};
}
"#;
    
    let packages = scanner.scan_content(flake_path, content).unwrap();
    
    assert_eq!(packages.len(), 2);
    
    let nixpkgs = packages.iter().find(|p| p.name == "flake-input-nixpkgs").unwrap();
    assert_eq!(nixpkgs.current_version, "nixos-unstable");
    
    let rust_overlay = packages.iter().find(|p| p.name == "flake-input-rust-overlay").unwrap();
    assert_eq!(rust_overlay.current_version, "HEAD");
}

#[test]
fn test_parse_npm_package_urls() {
    let scanner = NixAstScanner::new();
    
    // Test unscoped package
    let (source, id) = scanner.parse_package_url(
        "https://registry.npmjs.org/lodash/-/lodash-4.17.21.tgz",
        "lodash"
    );
    assert_eq!(source, SourceType::Npm);
    assert_eq!(id, "lodash");
    
    // Test scoped package
    let (source, id) = scanner.parse_package_url(
        "https://registry.npmjs.org/@acme-corp/widget-code/-/widget-code-1.0.59.tgz",
        "widget-code"
    );
    assert_eq!(source, SourceType::Npm);
    assert_eq!(id, "@acme-corp/widget-code");
    
    // Test another scoped package
    let (source, id) = scanner.parse_package_url(
        "https://registry.npmjs.org/@types/node/-/node-20.0.0.tgz",
        "node"
    );
    assert_eq!(source, SourceType::Npm);
    assert_eq!(id, "@types/node");
    
    // Test URL without version suffix
    let (source, id) = scanner.parse_package_url(
        "https://registry.npmjs.org/@babel/core",
        "core"
    );
    assert_eq!(source, SourceType::Npm);
    assert_eq!(id, "@babel/core");
}

#[test]
fn test_scan_flake_with_annotations() {
    let scanner = NixAstScanner::new();
    let flake_path = "flake.nix";
    
    let content = r#"
{
  inputs = {
    # treeupdt: pin-version
    nixpkgs.url = "github:NixOS/nixpkgs/nixos-23.11";
    
    flake-utils.url = "github:numtide/flake-utils"; # treeupdt: update-strategy=conservative
    
    # treeupdt: ignore
    my-private-repo.url = "git+ssh://git@github.com/myorg/private";
  };
  
  outputs = { self, nixpkgs, flake-utils, my-private-repo }: {};
}
"#;
    
    let packages = scanner.scan_content(flake_path, content).unwrap();
    
    // Check annotations are extracted (note: the current implementation doesn't fully support annotations)
    // This is expected to fail until annotation support is properly implemented
    assert_eq!(packages.len(), 3);
}

#[test]
fn test_scan_flake_type_based_inputs() {
    let scanner = NixAstScanner::new();
    let flake_path = "flake.nix";
    
    let content = r#"
{
  inputs = {
    myrepo = {
      type = "github";
      owner = "NixOS";
      repo = "nixpkgs";
      ref = "nixos-23.11";
    };
    gitrepo = {
      type = "git";
      url = "https://github.com/user/repo.git";
    };
    localrepo = {
      type = "path";
      path = "./local-flake";
    };
  };
  
  outputs = { ... }: {};
}
"#;
    
    let packages = scanner.scan_content(flake_path, content).unwrap();
    
    assert_eq!(packages.len(), 3);
    
    let myrepo = packages.iter().find(|p| p.name == "flake-input-myrepo").unwrap();
    assert!(myrepo.sources[0].url.as_ref().unwrap().contains("github:NixOS/nixpkgs"));
    
    let gitrepo = packages.iter().find(|p| p.name == "flake-input-gitrepo").unwrap();
    // Since the URL is https://github.com/..., it will be GitHub type
    assert_eq!(gitrepo.sources[0].source_type, SourceType::GitHub);
    
    let localrepo = packages.iter().find(|p| p.name == "flake-input-localrepo").unwrap();
    assert!(localrepo.sources[0].url.as_ref().unwrap().contains("path:"));
}

#[test]
fn test_scan_package_nix() {
    let scanner = NixAstScanner::new();
    let package_path = "package.nix";
    
    let content = r#"
{ stdenv, fetchurl }:

stdenv.mkDerivation rec {
  pname = "mypackage";
  version = "1.2.3";
  
  src = fetchurl {
    url = "https://github.com/owner/mypackage/archive/v${version}.tar.gz";
    sha256 = "0000000000000000000000000000000000000000000000000000";
  };
}
"#;
    
    let packages = scanner.scan_content(package_path, content).unwrap();
    
    assert_eq!(packages.len(), 1);
    
    let pkg = &packages[0];
    assert_eq!(pkg.name, "package");
    assert_eq!(pkg.current_version, "1.2.3");
    
    // Since the URL contains interpolations (${version}), 
    // the scanner captures the full URL template
    if let Some(ref url) = pkg.sources[0].url {
        assert!(url.contains("github.com") || url.contains("${version}"), 
               "URL should contain github.com or be a template");
    }
    
    // Since URL contains github.com/owner/mypackage, the identifier includes owner
    assert_eq!(pkg.sources[0].identifier, "owner/mypackage");
    assert_eq!(pkg.sources[0].source_type, SourceType::GitHub);
}

#[test]
fn test_scan_package_with_let_binding() {
    let scanner = NixAstScanner::new();
    let default_path = "default.nix";
    
    let content = r#"
{ stdenv, fetchFromGitHub }:

let
  version = "2.5.0";
in
stdenv.mkDerivation {
  pname = "mytool";
  inherit version;
  
  src = fetchFromGitHub {
    owner = "myorg";
    repo = "mytool";
    rev = "v${version}";
    sha256 = "0000000000000000000000000000000000000000000000000000";
  };
}
"#;
    
    let packages = scanner.scan_content(default_path, content).unwrap();
    
    assert_eq!(packages.len(), 1);
    
    let pkg = &packages[0];
    assert_eq!(pkg.current_version, "2.5.0");
}

#[test]
fn test_scan_npm_package() {
    let scanner = NixAstScanner::new();
    let package_path = "package.nix";
    
    let content = r#"
{ fetchurl }:

{
  pname = "typescript";
  version = "5.0.4";
  
  src = fetchurl {
    url = "https://registry.npmjs.org/typescript/-/typescript-${version}.tgz";
    sha256 = "0000000000000000000000000000000000000000000000000000";
  };
}
"#;
    
    let packages = scanner.scan_content(package_path, content).unwrap();
    
    assert_eq!(packages.len(), 1);
    
    let pkg = &packages[0];
    assert_eq!(pkg.current_version, "5.0.4");
    
    // If URL contains npmjs.org it should be NPM type
    if let Some(ref url) = pkg.sources[0].url {
        if url.contains("npmjs.org") {
            assert_eq!(pkg.sources[0].source_type, SourceType::Npm);
            assert_eq!(pkg.sources[0].identifier, "typescript");
        } else {
            // Otherwise it uses the pname
            assert_eq!(pkg.sources[0].identifier, "typescript");
        }
    }
}

#[test]
fn nix_ast_scanner_test_scan_directory() {
    let registry = Registry::new();
    let flake_content = r#"
{
  inputs = {
    nixpkgs.url = "github:NixOS/nixpkgs";
  };
  outputs = { ... }: {};
}
"#;
    let package_content = r#"
{ stdenv }:
stdenv.mkDerivation {
  pname = "test";
  version = "1.0.0";
}
"#;
    let sub_package_content = r#"
{
  version = "2.0.0";
}
"#;
    let files = vec![
        ("flake.nix".to_string(), flake_content.to_string()),
        ("package.nix".to_string(), package_content.to_string()),
        ("pkgs/another.nix".to_string(), sub_package_content.to_string()),
    ];

    let report = registry.scan(&files);
    let packages = report.packages;

    // Should find packages from all files
    assert!(packages.len() >= 2);
    assert!(packages.iter().any(|p| p.name == "flake-input-nixpkgs"));
    assert!(packages.iter().any(|p| p.current_version == "1.0.0"));
}

#[test]
fn nix_ast_scanner_test_scan_empty_file() {
    let scanner = NixAstScanner::new();
    let empty_path = "empty.nix";
    
    let content = "{ }";
    
    let packages = scanner.scan_content(empty_path, content).unwrap();
    assert_eq!(packages.len(), 0);
}

#[test]
fn test_parse_flake_url() {
    let scanner = NixAstScanner::new();
    
    let test_cases = vec![
        ("github:NixOS/nixpkgs", SourceType::GitHub, "NixOS/nixpkgs"),
        ("github:numtide/flake-utils/main", SourceType::GitHub, "numtide/flake-utils"),
        ("https://github.com/user/repo", SourceType::GitHub, "user/repo"),
        ("git+https://github.com/user/repo.git", SourceType::Git, "git+https://github.com/user/repo.git"),
        ("git+ssh://git@github.com/user/repo", SourceType::Git, "git+ssh://git@github.com/user/repo"),
        ("path:./local", SourceType::Url, "path:./local"),
    ];
    
    for (url, expected_type, expected_id) in test_cases {
        let (source_type, identifier) = scanner.parse_flake_url(url);
        assert_eq!(source_type, expected_type, "URL: {}", url);
        assert_eq!(identifier, expected_id, "URL: {}", url);
    }
}

#[test]
fn test_scan_nix_package_with_scoped_npm() {
    let scanner = NixAstScanner::new();
    let file_path = "package.nix";
    
    let content = r#"{
  buildNpmPackage,
  fetchzip,
}:

buildNpmPackage rec {
  pname = "widget-code";
  version = "1.0.59";

  src = fetchzip {
    url = "https://registry.npmjs.org/@acme-corp/widget-code/-/widget-code-${version}.tgz";
    hash = "sha256-abc123";
  };
}
"#;
    
    let packages = scanner.scan_content(file_path, content).unwrap();
    
    assert_eq!(packages.len(), 1);
    assert_eq!(packages[0].name, "package");
    assert_eq!(packages[0].current_version, "1.0.59");
    assert_eq!(packages[0].sources[0].source_type, SourceType::Npm);
    assert_eq!(packages[0].sources[0].identifier, "@acme-corp/widget-code");
}


#[test]
fn version_is_read_off_the_url() {
    let cases = [
        ("github:NixOS/nixpkgs/nixos-23.11", "nixos-23.11"),
        ("github:NixOS/nixpkgs", "HEAD"),
        ("github:o/r/feature/x", "feature/x"),
        ("github:o", "HEAD"),
        ("https://github.com/o/r?ref=v1.0.0", "v1.0.0"),
        ("https://github.com/o/r?ref=v1&dir=x", "v1"),
        ("https://example.com/r?ref=main", "main"),
        ("git+https://github.com/o/r.git", "HEAD"),
        ("git+ssh://git@github.com/myorg/private", "HEAD"),
        ("https://github.com/o/r", "HEAD"),
        ("https://github.com/o/r/tree/main", "main"),
        ("https://github.com/o/r.git/sub/dir", "sub/dir"),
        ("git+https://example.com/o/r", "HEAD"),
        ("path:./local", "path:./local"),
        ("https://example.com/archive.tar.gz", "https://example.com/archive.tar.gz"),
    ];
    for (url, expected) in cases {
        let read: String = version_of_url(&url.chars().collect()).into_iter().collect();
        assert_eq!(read, expected, "URL: {}", url);
    }
}

#[test]
fn url_without_a_version_is_kept_in_the_metadata() {
    let scanner = NixAstScanner::new();
    let plain = scanner.create_flake_input_package("flake.nix", "x", "https://example.com/x.tar.gz", vec![]);
    assert_eq!(plain.name, "flake-input-x");
    assert_eq!(plain.current_version, "https://example.com/x.tar.gz");
    assert_eq!(plain.metadata.get("url").unwrap(), "https://example.com/x.tar.gz");
    assert_eq!(plain.sources[0].source_type, SourceType::Url);
    assert_eq!(plain.sources[0].url, Some("https://example.com/x.tar.gz".to_string()));
    let pinned = scanner.create_flake_input_package("flake.nix", "y", "github:o/r/v1", vec![]);
    assert!(pinned.metadata.is_empty());
    assert_eq!(pinned.sources[0].identifier, "o/r");
}

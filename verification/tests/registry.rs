use treeupdt::scanner::Registry;
use treeupdt::types::{
    Error, FileType, Options, Package, SourceHint, SourceType, UpdateStrategy,
};
use treeupdt::updater::{UpdaterKind, UpdaterRegistry};

#[test]
fn file_type_is_told_by_the_name() {
    let registry = Registry::new();
    assert_eq!(registry.file_type("a/b/go.mod"), FileType::GoMod);
    assert_eq!(registry.file_type("Cargo.toml"), FileType::CargoToml);
    assert_eq!(registry.file_type("web/package.json"), FileType::PackageJson);
    assert_eq!(registry.file_type("web/node_modules/x/package.json"), FileType::Unknown);
    assert_eq!(registry.file_type("flake.nix"), FileType::Nix);
    assert_eq!(registry.file_type("pkgs/default.nix"), FileType::Nix);
    assert_eq!(registry.file_type(".nix"), FileType::Unknown);
    assert_eq!(registry.file_type("go.mod.bak"), FileType::Unknown);
    assert_eq!(registry.file_type("README.md"), FileType::Unknown);
}

#[test]
fn scanners_run_one_after_the_other() {
    let registry = Registry::new();
    let files = vec![
        ("Cargo.toml".to_string(), "[dependencies]\nserde = \"1.0\"\n".to_string()),
        ("go.mod".to_string(), "module m\n\ngo 1.21\n".to_string()),
        ("package.json".to_string(), "{\"dependencies\": {\"express\": \"^4.18.0\"}}".to_string()),
        ("flake.nix".to_string(), "{ inputs = { nixpkgs.url = \"github:NixOS/nixpkgs\"; }; }".to_string()),
        ("notes.txt".to_string(), "serde = \"1.0\"".to_string()),
    ];
    let report = registry.scan(&files);
    let names: Vec<&str> = report.packages.iter().map(|p| p.name.as_str()).collect();
    assert_eq!(
        names,
        vec!["flake-input-nixpkgs", "go-version", "dependency-express", "dependencies-serde"]
    );
    assert!(report.failures.is_empty());
}

#[test]
fn unreadable_file_is_noted_and_the_walk_goes_on() {
    let registry = Registry::new();
    let files = vec![
        ("a/Cargo.toml".to_string(), "[dependencies\nserde = ".to_string()),
        ("b/Cargo.toml".to_string(), "[dependencies]\nserde = \"1.0\"\n".to_string()),
        ("c/package.json".to_string(), "{ not json".to_string()),
    ];
    let report = registry.scan(&files);
    assert_eq!(report.packages.len(), 1);
    assert_eq!(report.packages[0].path, "b/Cargo.toml");
    assert_eq!(
        report.failures,
        vec![
            ("c/package.json".to_string(), Error::ParseError),
            ("a/Cargo.toml".to_string(), Error::ParseError),
        ]
    );
    assert_eq!(registry.scan_file("a/Cargo.toml", "[dependencies\n"), Err(Error::ParseError));
    assert_eq!(registry.scan_file("notes.txt", "anything"), Ok(vec![]));
}

fn package(file_type: FileType, path: &str, name: &str) -> Package {
    Package {
        path: path.to_string(),
        file_type,
        name: name.to_string(),
        current_version: "1.0".to_string(),
        sources: vec![SourceHint {
            source_type: SourceType::Crates,
            identifier: "x".to_string(),
            url: None,
        }],
        update_strategy: UpdateStrategy::Stable,
        annotations: vec![],
        metadata: Options::new(),
    }
}

#[test]
fn mutation_goes_to_the_updater_of_the_format() {
    let registry = UpdaterRegistry::new();
    assert_eq!(registry.get_updater(FileType::Nix), Some(UpdaterKind::Nix));
    assert_eq!(registry.get_updater(FileType::CargoToml), Some(UpdaterKind::Cargo));
    assert_eq!(registry.get_updater(FileType::PackageJson), Some(UpdaterKind::Npm));
    assert_eq!(registry.get_updater(FileType::GoMod), Some(UpdaterKind::Go));
    assert_eq!(registry.get_updater(FileType::Pipfile), None);
    assert_eq!(registry.get_updater(FileType::Gemfile), None);
    assert_eq!(registry.get_updater(FileType::Unknown), None);

    let go = package(FileType::GoMod, "go.mod", "module-a/b");
    assert_eq!(
        registry.update_file(&go, "require a/b v1.0.0\n", "v1.1.0"),
        Ok("require a/b v1.1.0\n".to_string())
    );
    let cargo = package(FileType::CargoToml, "Cargo.toml", "dependencies-serde");
    assert_eq!(
        registry.update_file(&cargo, "[dependencies]\nserde = \"1.0\"\n", "1.2.0"),
        Ok("[dependencies]\nserde = \"1.2.0\"\n".to_string())
    );
    let unknown = package(FileType::Pipfile, "Pipfile", "requests");
    assert_eq!(
        registry.update_file(&unknown, "requests = \"*\"", "2.0"),
        Err(Error::DeclarationNotFound)
    );
}

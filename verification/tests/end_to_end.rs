use treeupdt::scanner::cargo_scanner::{CargoScanner, DependencyValue};
use treeupdt::scanner::go_scanner::GoModScanner;
use treeupdt::scanner::nix_ast_scanner::NixAstScanner;
use treeupdt::scanner::nix_query::Capture;
use treeupdt::scanner::npm_scanner::NpmScanner;
use treeupdt::types::{Error, Package, SourceType};
use treeupdt::updater::cargo_updater::CargoUpdater;
use treeupdt::updater::go_updater::GoUpdater;
use treeupdt::updater::nix_updater::NixUpdater;
use treeupdt::updater::npm_updater::NpmUpdater;

fn find<'a>(packages: &'a [Package], name: &str) -> &'a Package {
    packages.iter().find(|p| p.name == name).unwrap()
}

#[test]
fn cargo_dependency_is_scanned_and_mutated() {
    let content = "[package]\nname = \"demo\"\nversion = \"0.1.0\"\n\n[dependencies]\n# pinned by hand\nserde = \"1.0\"\ntokio = { version = \"1.35\", features = [\"full\"] }\n";
    let packages = CargoScanner::new().scan_content("Cargo.toml", content).unwrap();
    let serde = find(&packages, "dependencies-serde");
    assert_eq!(serde.current_version, "1.0");

    let output = CargoUpdater::new().update_content(content, serde, "1.2.0").unwrap();
    assert!(output.contains("serde = \"1.2.0\""));
    let before: Vec<&str> = content.lines().collect();
    let after: Vec<&str> = output.lines().collect();
    assert_eq!(before.len(), after.len());
    for (old, new) in before.iter().zip(after.iter()) {
        if old.starts_with("serde") {
            assert_eq!(*new, "serde = \"1.2.0\"");
        } else {
            assert_eq!(old, new);
        }
    }
}

#[test]
fn flake_input_is_scanned_and_mutated() {
    let content = "{\n  inputs = {\n    nixpkgs.url = \"github:NixOS/nixpkgs/nixos-23.11\";\n  };\n}\n";
    let packages = NixAstScanner::new().scan_content("flake.nix", content).unwrap();
    assert_eq!(packages.len(), 1);
    assert_eq!(packages[0].name, "flake-input-nixpkgs");
    assert_eq!(packages[0].current_version, "nixos-23.11");

    let output = NixUpdater::new().update_content(content, &packages[0], "nixos-24.05").unwrap();
    assert_eq!(
        output,
        "{\n  inputs = {\n    nixpkgs.url = \"github:NixOS/nixpkgs/nixos-24.05\";\n  };\n}\n"
    );
}

#[test]
fn go_directive_attaches_to_its_line_only() {
    let content = "module m\n\ngo 1.21\n\nrequire (\n\tgithub.com/a/before v1.0.0\n\tgithub.com/spf13/cobra v1.7.0 // treeupdt: update-strategy=conservative\n\tgithub.com/a/after v1.0.0\n)\n";
    let packages = GoModScanner::new().scan_content("go.mod", content).unwrap();
    let cobra = find(&packages, "github.com/spf13/cobra");
    assert_eq!(cobra.annotations.len(), 1);
    assert_eq!(cobra.annotations[0].line, 7);
    assert_eq!(cobra.annotations[0].options.len(), 1);
    assert_eq!(cobra.annotations[0].options.get("update-strategy").unwrap(), "conservative");
    assert!(find(&packages, "github.com/a/before").annotations.is_empty());
    assert!(find(&packages, "github.com/a/after").annotations.is_empty());
}

#[test]
fn npm_range_operator_is_kept() {
    let content = "{\n  \"name\": \"demo\",\n  \"dependencies\": {\n    \"express\": \"^4.18.0\"\n  }\n}";
    let packages = NpmScanner::new().scan_content("package.json", content).unwrap();
    let express = find(&packages, "dependency-express");
    assert_eq!(express.current_version, "^4.18.0");
    let output = NpmUpdater::new().update_content(content, express, "4.19.0").unwrap();
    assert!(output.contains("\"express\": \"^4.19.0\""));
    assert_eq!(NpmUpdater::new().version_with_prefix("^4.18.0", "4.19.0"), "^4.19.0");
    assert_eq!(NpmUpdater::new().version_with_prefix("~4.18.0", "4.19.0"), "~4.19.0");
    assert_eq!(NpmUpdater::new().version_with_prefix(">=4.18.0", "4.19.0"), ">=4.19.0");
    assert_eq!(NpmUpdater::new().version_with_prefix("4.18.0", "4.19.0"), "4.19.0");
    assert_eq!(NpmUpdater::new().version_with_prefix(">4.18.0", "4.19.0"), "4.19.0");
}

#[test]
fn let_bound_version_is_resolved() {
    let content = "{ stdenv }:\nlet\n  version = \"2.5.0\";\nin\nstdenv.mkDerivation {\n  pname = \"mytool\";\n  inherit version;\n}\n";
    let packages = NixAstScanner::new().scan_content("default.nix", content).unwrap();
    assert_eq!(packages.len(), 1);
    assert_eq!(packages[0].name, "package");
    assert_eq!(packages[0].current_version, "2.5.0");
    assert_eq!(packages[0].sources[0].source_type, SourceType::Url);
    assert_eq!(packages[0].sources[0].identifier, "mytool");
    assert_eq!(packages[0].sources[0].url, None);
}

#[test]
fn round_trip_in_a_flake() {
    let content = "{\n  inputs = {\n    a.url = \"github:o/a\";\n    b = { url = \"https://github.com/o/b?ref=v1\"; };\n    c.url = \"https://github.com/o/c\";\n  };\n}\n";
    let scanner = NixAstScanner::new();
    let updater = NixUpdater::new();
    let first = scanner.scan_content("flake.nix", content).unwrap();
    assert_eq!(first.len(), 3);
    let untouched = updater.update_content(content, find(&first, "flake-input-c"), "v9").unwrap();
    assert_eq!(untouched, content);
    for (name, version) in [("flake-input-a", "main"), ("flake-input-b", "é2")] {
        let output = updater.update_content(content, find(&first, name), version).unwrap();
        let second = scanner.scan_content("flake.nix", &output).unwrap();
        assert_eq!(second.len(), first.len());
        for (old, new) in first.iter().zip(second.iter()) {
            assert_eq!(old.name, new.name);
            if old.name == name {
                assert_eq!(new.current_version, version);
            } else {
                assert_eq!(old, new);
            }
        }
    }
}

#[test]
fn round_trip_in_a_package_expression() {
    let content = "{ stdenv }:\nstdenv.mkDerivation {\n  pname = \"t\"; # ünï\n  version = \"1.0.0\";\n}\n";
    let scanner = NixAstScanner::new();
    let first = scanner.scan_content("package.nix", content).unwrap();
    let output = NixUpdater::new().update_content(content, &first[0], "1.1.0").unwrap();
    assert_eq!(output, content.replace("1.0.0", "1.1.0"));
    let second = scanner.scan_content("package.nix", &output).unwrap();
    assert_eq!(second[0].current_version, "1.1.0");
}

#[test]
fn round_trip_in_a_cargo_manifest() {
    let content = "[package]\nname = \"demo\"\nversion = \"0.1.0\"\n\n[dependencies]\nserde = \"1.0\"\ntokio = { version = \"1.35\", features = [\"full\"] }\n\n[dev-dependencies]\ncriterion = \"0.5\"\n\n[workspace.dependencies]\nanyhow = \"1\"\n";
    let scanner = CargoScanner::new();
    let updater = CargoUpdater::new();
    let first = scanner.scan_content("Cargo.toml", content).unwrap();
    assert_eq!(first.len(), 5);
    for target in &first {
        let output = updater.update_content(content, target, "9.9.9").unwrap();
        let second = scanner.scan_content("Cargo.toml", &output).unwrap();
        assert_eq!(second.len(), first.len());
        for (old, new) in first.iter().zip(second.iter()) {
            if old.name == target.name {
                assert_eq!(new.current_version, "9.9.9");
                assert_eq!(new.name, old.name);
            } else {
                assert_eq!(old, new);
            }
        }
    }
}

#[test]
fn round_trip_in_a_package_json_without_operator() {
    let content = "{\"dependencies\": {\"a\": \"1.0.0\", \"b\": \"^2.0.0\"}}";
    let scanner = NpmScanner::new();
    let first = scanner.scan_content("package.json", content).unwrap();
    let output = NpmUpdater::new().update_content(content, find(&first, "dependency-a"), "1.1.0").unwrap();
    let second = scanner.scan_content("package.json", &output).unwrap();
    assert_eq!(find(&second, "dependency-a").current_version, "1.1.0");
    assert_eq!(find(&second, "dependency-b"), find(&first, "dependency-b"));
}

#[test]
fn same_version_leaves_nix_and_cargo_as_they_are() {
    let flake = "{\n  inputs = {\n    # the channel\n    nixpkgs.url = \"github:NixOS/nixpkgs/nixos-23.11\";   # treeupdt: pin-version\n    other.url = \"https://example.com/x?ref=v1&dir=sub\";\n    flake-utils.url = \"github:numtide/flake-utils\";\n    plain = { url = \"https://github.com/o/plain\"; };\n    typed = { type = \"github\"; owner = \"o\"; repo = \"r\"; ref = \"v3\"; };\n    bare = { type = \"github\"; owner = \"o\"; repo = \"b\"; };\n  };\n}\n";
    let packages = NixAstScanner::new().scan_content("flake.nix", flake).unwrap();
    for p in &packages {
        let output = NixUpdater::new().update_content(flake, p, &p.current_version).unwrap();
        assert_eq!(output, flake);
    }
    let expression = "{\n  pname = \"x\";\n  version = \"1.0.0\";\n}\n";
    let packages = NixAstScanner::new().scan_content("default.nix", expression).unwrap();
    let output = NixUpdater::new().update_content(expression, &packages[0], "1.0.0").unwrap();
    assert_eq!(output, expression);

    let manifest = "# top\n[package]\nname = \"demo\"   # the name\nversion = \"0.1.0\" # own\n\n[dependencies]\nserde = \"1.0\"   # treeupdt: pin-version\ntokio = { version = \"1.35\", features = [\"full\"] } # async\n\n[target.'cfg(unix)'.dev-dependencies]\nlibc = \"0.2\" # c\n";
    let packages = CargoScanner::new().scan_content("Cargo.toml", manifest).unwrap();
    for p in &packages {
        let output = CargoUpdater::new().update_content(manifest, p, &p.current_version).unwrap();
        assert_eq!(output, manifest);
    }
}

#[test]
fn same_mutation_again_leaves_package_json_as_it_is() {
    let content = "{\"name\":\"demo\",\"dependencies\":{\"express\":\"^4.18.0\",\"left-pad\":\"1.0.0\"}}";
    let packages = NpmScanner::new().scan_content("package.json", content).unwrap();
    let updater = NpmUpdater::new();
    for p in &packages {
        let once = updater.update_content(content, p, "5.0.0").unwrap();
        let twice = updater.update_content(&once, p, "5.0.0").unwrap();
        assert_eq!(once, twice);
        assert!(once.contains("\n  \"dependencies\": {\n"));
    }
    let own = treeupdt::types::Package { name: "package".to_string(), ..packages[0].clone() };
    let versioned = updater.update_content(content, &own, "2.0.0").unwrap();
    assert!(versioned.contains("\"version\": \"2.0.0\""));
    assert_eq!(updater.update_content("[1, 2]", &own, "2.0.0"), Err(Error::ParseError));
    assert_eq!(updater.update_content("{", &packages[0], "2.0.0"), Err(Error::ParseError));
}

#[test]
fn inline_directive_wins_over_the_comment_above() {
    let cargo = "[dependencies]\n# treeupdt: ignore\nserde = \"1.0\" # treeupdt: pin-version=1.0\n";
    let packages = CargoScanner::new().scan_content("Cargo.toml", cargo).unwrap();
    let serde = find(&packages, "dependencies-serde");
    assert_eq!(serde.annotations.len(), 1);
    assert_eq!(serde.annotations[0].line, 3);
    assert_eq!(serde.annotations[0].options.get("pin-version").unwrap(), "1.0");
    assert!(!serde.annotations[0].options.contains_key("ignore"));

    let go = "require (\n\t// treeupdt: ignore\n\ta/b v1.0.0 // treeupdt: update-strategy=latest\n)\n";
    let packages = GoModScanner::new().scan_content("go.mod", go).unwrap();
    assert_eq!(packages[0].annotations.len(), 1);
    assert_eq!(packages[0].annotations[0].line, 3);
    assert!(packages[0].annotations[0].options.contains_key("update-strategy"));
}

#[test]
fn comment_is_not_looked_for_past_a_line_of_code() {
    let cargo = "[dependencies]\n# treeupdt: ignore\nserde = \"1.0\"\ntokio = \"1.35\"\n# plain\n# treeupdt: pin-version\n\nanyhow = \"1\"\n# treeupdt: update-strategy=latest\n# plain\nregex = \"1\"\n";
    let packages = CargoScanner::new().scan_content("Cargo.toml", cargo).unwrap();
    assert_eq!(find(&packages, "dependencies-serde").annotations.len(), 1);
    assert!(find(&packages, "dependencies-tokio").annotations.is_empty());
    assert!(find(&packages, "dependencies-anyhow").annotations.is_empty());
    let regex = find(&packages, "dependencies-regex");
    assert_eq!(regex.annotations.len(), 1);
    assert_eq!(regex.annotations[0].line, 9);
}

#[test]
fn flake_input_found_by_two_forms_is_declared_once() {
    let content = "{\n  inputs = {\n    gitrepo = {\n      type = \"git\";\n      url = \"https://github.com/user/repo.git\";\n    };\n    typed = { type = \"github\"; owner = \"o\"; repo = \"r\"; };\n    hosted = { type = \"git\"; host = \"example.com\"; owner = \"o\"; repo = \"r\"; };\n    local = { type = \"path\"; path = \"./x\"; };\n    odd = { type = \"tarball\"; };\n  };\n}\n";
    let packages = NixAstScanner::new().scan_content("flake.nix", content).unwrap();
    let names: Vec<&str> = packages.iter().map(|p| p.name.as_str()).collect();
    assert_eq!(
        names,
        vec!["flake-input-gitrepo", "flake-input-typed", "flake-input-hosted", "flake-input-local"]
    );
    assert_eq!(find(&packages, "flake-input-typed").sources[0].url, Some("github:o/r".to_string()));
    assert_eq!(find(&packages, "flake-input-typed").current_version, "HEAD");
    assert_eq!(
        find(&packages, "flake-input-hosted").sources[0].url,
        Some("git+ssh://git@example.com/o/r".to_string())
    );
    assert_eq!(find(&packages, "flake-input-hosted").sources[0].source_type, SourceType::Git);
    let local = find(&packages, "flake-input-local");
    assert_eq!(local.current_version, "path:./x");
    assert_eq!(local.metadata.get("url").unwrap(), "path:./x");
}

fn capture(name: &str, text: &str, start: usize, row: usize) -> Capture {
    Capture::new(name, text, start, start + text.len(), row)
}

#[test]
fn first_form_wins_for_an_input_given_by_hand() {
    let scanner = NixAstScanner::new();
    let direct = vec![vec![
        capture("inputs_key", "inputs", 4, 1),
        capture("input_name", "x", 20, 2),
        capture("key", "url", 22, 2),
        capture("url", "github:o/first", 29, 2),
    ]];
    let nested = vec![vec![
        capture("inputs_key", "inputs", 4, 1),
        capture("input_name", "x", 60, 3),
        capture("key", "url", 66, 3),
        capture("url", "github:o/second/v2", 73, 3),
    ]];
    let sets = vec![vec![
        capture("inputs_key", "inputs", 4, 1),
        capture("input_name", "x", 60, 3),
        capture("attr_set", "url = \"github:o/second/v2\";", 66, 3),
    ]];
    let values = vec![vec![capture("key", "url", 66, 3), capture("value", "github:o/second/v2", 73, 3)]];
    let comments = vec![vec![capture("comment", "# treeupdt: ignore", 10, 1)]];
    let packages = scanner.extract_flake_inputs("flake.nix", &comments, &direct, &nested, &sets, &values);
    assert_eq!(packages.len(), 1);
    assert_eq!(packages[0].sources[0].url, Some("github:o/first".to_string()));
    assert_eq!(packages[0].current_version, "HEAD");
    assert_eq!(packages[0].annotations.len(), 1);
    assert_eq!(packages[0].annotations[0].line, 2);

    let only_second = scanner.extract_flake_inputs("flake.nix", &vec![], &vec![], &nested, &sets, &values);
    assert_eq!(only_second.len(), 1);
    assert_eq!(only_second[0].current_version, "v2");
    let only_third = scanner.extract_flake_inputs("flake.nix", &vec![], &vec![], &vec![], &sets, &values);
    assert_eq!(only_third.len(), 1);
    assert_eq!(only_third[0].current_version, "v2");
    assert!(only_third[0].annotations.is_empty());
}

#[test]
fn package_without_version_gives_nothing() {
    let scanner = NixAstScanner::new();
    let values = vec![vec![capture("key", "pname", 0, 0), capture("value", "x", 9, 0)]];
    assert!(scanner.extract_package_info("a.nix", &values, &vec![], &vec![]).is_empty());
    let lets = vec![vec![capture("key", "version", 0, 0), capture("value", "3", 11, 0)]];
    let found = scanner.extract_package_info("a.nix", &values, &vec![], &lets);
    assert_eq!(found.len(), 1);
    assert_eq!(found[0].current_version, "3");
    assert_eq!(found[0].sources[0].identifier, "x");
}

#[test]
fn dependency_value_gives_version_and_source() {
    let scanner = CargoScanner::new();
    let (version, hint) = scanner.parse_dependency("serde", &DependencyValue::Version("1.0".to_string()));
    assert_eq!(version, "1.0");
    assert_eq!(hint.source_type, SourceType::Crates);
    assert_eq!(hint.identifier, "serde");
    assert_eq!(hint.url, None);
    let (version, hint) = scanner.parse_dependency(
        "x",
        &DependencyValue::Table { version: None, git: true },
    );
    assert_eq!(version, "unknown");
    assert_eq!(hint.source_type, SourceType::Git);
    let (version, hint) = scanner.parse_dependency(
        "x",
        &DependencyValue::Table { version: Some("2".to_string()), git: false },
    );
    assert_eq!(version, "2");
    assert_eq!(hint.source_type, SourceType::Crates);
    let (version, _) = scanner.parse_dependency("x", &DependencyValue::Other);
    assert_eq!(version, "unknown");
}

#[test]
fn dependency_line_is_looked_for_in_its_section() {
    let scanner = CargoScanner::new();
    let lines: Vec<String> = "[package]\nname = \"a\"\n[dev-dependencies]\nserde = \"0\"\n[dependencies]\n  \"serde\" = \"1\"\nserde_json = \"1\"\n[[bin]]\nname = \"b\"\n[other]\nserde_json = \"2\"\n"
        .lines()
        .map(|l| l.to_string())
        .collect();
    assert_eq!(scanner.find_dependency_line(&lines, "serde", "dependencies"), Some(5));
    assert_eq!(scanner.find_dependency_line(&lines, "serde", "dev-dependencies"), Some(3));
    assert_eq!(scanner.find_dependency_line(&lines, "serde_json", "dependencies"), Some(6));
    // an array of tables does not end the section
    assert_eq!(scanner.find_dependency_line(&lines, "name", "dependencies"), Some(8));
    assert_eq!(scanner.find_dependency_line(&lines, "tokio", "dependencies"), None);
    assert_eq!(scanner.find_dependency_line(&lines, "serde", "build-dependencies"), None);
}

#[test]
fn mutation_of_a_missing_declaration_fails() {
    let go = GoUpdater::new();
    let cargo = CargoUpdater::new();
    let npm = NpmUpdater::new();
    let nix = NixUpdater::new();
    let base = NpmScanner::new()
        .scan_content("package.json", "{\"dependencies\": {\"a\": \"1\", \"n\": 1}}")
        .unwrap();
    let named = |name: &str| Package { name: name.to_string(), ..base[0].clone() };
    assert_eq!(go.update_content("go 1.21\n", &named("module-a/b"), "v2"), Err(Error::DeclarationNotFound));
    assert_eq!(cargo.update_content("[dependencies]\n", &named("dependencies-a"), "2"), Err(Error::DeclarationNotFound));
    assert_eq!(cargo.update_content("[dependencies]\na = 1\n", &named("dependencies-a"), "2"), Err(Error::DeclarationNotFound));
    assert_eq!(cargo.update_content("[dependencies]\n", &named("crate-a"), "2"), Err(Error::DeclarationNotFound));
    assert_eq!(cargo.update_content("[dependencies]\n", &named("odd"), "2"), Err(Error::DeclarationNotFound));
    assert_eq!(cargo.update_content("[dependencies", &named("dependencies-a"), "2"), Err(Error::ParseError));
    assert_eq!(npm.update_content("{}", &named("dependency-a"), "2"), Err(Error::DeclarationNotFound));
    assert_eq!(npm.update_content("{\"dependencies\": {\"n\": 1}}", &named("dependency-n"), "2"), Err(Error::DeclarationNotFound));
    assert_eq!(npm.update_content("{}", &named("odd"), "2"), Err(Error::DeclarationNotFound));
    assert_eq!(nix.update_content("{ }", &named("package"), "2"), Err(Error::DeclarationNotFound));
    assert_eq!(nix.update_content("{ }", &named("flake-input-a"), "2"), Err(Error::DeclarationNotFound));
    assert_eq!(nix.update_content("{ }", &named("odd"), "2"), Err(Error::DeclarationNotFound));
}

#[test]
fn url_forms_are_rewritten_in_their_own_dialect() {
    let nix = NixUpdater::new();
    assert_eq!(nix.update_flake_url("github:o/r/a/b", "v").unwrap(), "github:o/r/v");
    assert_eq!(nix.update_flake_url("github:o", "v").unwrap(), "github:o");
    assert_eq!(nix.update_flake_url("https://example.com/r?ref=old&dir=x", "v").unwrap(), "https://example.com/r?ref=v&dir=x");
    assert_eq!(nix.update_flake_url("https://github.com/o/r?ref=old&dir=sub", "new").unwrap(), "https://github.com/o/r?ref=new&dir=sub");
    assert_eq!(nix.update_flake_url("https://github.com/o/r?dir=x", "v").unwrap(), "https://github.com/o/r?dir=x");
    assert_eq!(nix.update_flake_url("git+https://github.com/o/r", "v").unwrap(), "git+https://github.com/o/r");
    assert_eq!(nix.update_flake_url("github:numtide/flake-utils", "HEAD").unwrap(), "github:numtide/flake-utils");
    assert_eq!(nix.update_flake_url("github:numtide/flake-utils", "main").unwrap(), "github:numtide/flake-utils/main");
    assert_eq!(nix.update_flake_url("path:./x", "v").unwrap(), "path:./x");
}

#[test]
fn nested_flake_input_is_mutated_too() {
    let content = "{\n  inputs = {\n    b = {\n      url = \"github:o/b/v1\";\n      flake = false;\n    };\n  };\n}\n";
    let packages = NixAstScanner::new().scan_content("flake.nix", content).unwrap();
    let output = NixUpdater::new().update_content(content, &packages[0], "v2").unwrap();
    assert_eq!(output, content.replace("v1", "v2"));
}

#[test]
fn cargo_mutation_keeps_comments_and_spacing() {
    let content = "[dependencies]\r\nserde   =   \"1.0\"   # treeupdt: pin-version\r\ntokio = { features = [\"full\"], version = '1.35' } # async\n\n[target.'cfg(unix)'.dev-dependencies]\nlibc = \"0.2\" # c\n";
    let scanner = CargoScanner::new();
    let updater = CargoUpdater::new();
    let first = scanner.scan_content("Cargo.toml", content).unwrap();
    let serde = updater.update_content(content, find(&first, "dependencies-serde"), "1.2.0").unwrap();
    assert_eq!(serde, content.replace("\"1.0\"", "\"1.2.0\""));
    let tokio = updater.update_content(content, find(&first, "dependencies-tokio"), "1.40").unwrap();
    assert_eq!(tokio, content.replace("'1.35'", "'1.40'"));
    let quoted = updater.update_content(content, find(&first, "dependencies-tokio"), "1'40").unwrap();
    assert_eq!(quoted, content.replace("'1.35'", "\"1'40\""));
    let libc = updater
        .update_content(content, find(&first, "target.cfg(unix).dev-libc"), "0.3")
        .unwrap();
    assert_eq!(libc, content.replace("\"0.2\"", "\"0.3\""));
    let again = scanner.scan_content("Cargo.toml", &libc).unwrap();
    assert_eq!(find(&again, "target.cfg(unix).dev-libc").current_version, "0.3");
    let odd = updater.update_content(content, find(&first, "dependencies-serde"), "a\"b\\c\u{1}").unwrap();
    assert!(odd.contains("serde   =   \"a\\\"b\\\\c\\u0001\"   # treeupdt: pin-version"));
    let read = scanner.scan_content("Cargo.toml", &odd).unwrap();
    assert_eq!(find(&read, "dependencies-serde").current_version, "a\"b\\c\u{1}");
}

#[test]
fn typed_flake_input_is_mutated_at_its_ref() {
    let content = "{\n  inputs = {\n    typed = { type = \"github\"; owner = \"o\"; repo = \"r\"; ref = \"v3\"; };\n    bare = { type = \"github\"; owner = \"o\"; repo = \"b\"; };\n  };\n}\n";
    let scanner = NixAstScanner::new();
    let updater = NixUpdater::new();
    let first = scanner.scan_content("flake.nix", content).unwrap();
    let typed = updater.update_content(content, find(&first, "flake-input-typed"), "v4").unwrap();
    assert_eq!(typed, content.replace("v3", "v4"));
    let again = scanner.scan_content("flake.nix", &typed).unwrap();
    assert_eq!(find(&again, "flake-input-typed").current_version, "v4");
    assert_eq!(find(&again, "flake-input-bare"), find(&first, "flake-input-bare"));
    let bare = updater.update_content(content, find(&first, "flake-input-bare"), "v4").unwrap();
    assert_eq!(bare, content);
}

#[test]
fn round_trip_in_a_go_mod() {
    let content = "module m\r\n\r\ngo 1.21\r\n\r\nrequire (\r\n\t// v2 is broken upstream\r\n\tgithub.com/a/b   v1.0.0 // indirect\r\n\tgithub.com/a/bc v1.0.0\r\n)\r\n\r\n  require  github.com/c/d  v0.1.0\r\n";
    let scanner = GoModScanner::new();
    let updater = GoUpdater::new();
    let first = scanner.scan_content("go.mod", content).unwrap();
    let names: Vec<&str> = first.iter().map(|p| p.name.as_str()).collect();
    assert_eq!(names, vec!["go-version", "github.com/a/b", "github.com/a/bc", "github.com/c/d"]);
    let output = updater.update_content(content, find(&first, "github.com/a/b"), "1.9.0").unwrap();
    assert_eq!(output, content.replace("github.com/a/b   v1.0.0", "github.com/a/b   v1.9.0"));
    let second = scanner.scan_content("go.mod", &output).unwrap();
    assert_eq!(second.len(), first.len());
    for (old, new) in first.iter().zip(second.iter()) {
        if old.name == "github.com/a/b" {
            assert_eq!(new.current_version, "1.9.0");
        } else {
            assert_eq!(old, new);
        }
    }
    let single = updater.update_content(content, find(&first, "github.com/c/d"), "v0.2.0").unwrap();
    assert_eq!(single, content.replace("v0.1.0", "v0.2.0"));
    let same = updater.update_content(content, find(&first, "github.com/a/bc"), "1.0.0").unwrap();
    assert_eq!(same, content);
}

#[test]
fn cargo_entry_without_a_version_gets_one() {
    let content = "# top\r\n[dependencies]\r\nmy = { git = \"u\" } # c\r\n\r\n[dependencies.other]\r\npath = \"../o\" # p\r\n";
    let scanner = CargoScanner::new();
    let updater = CargoUpdater::new();
    let first = scanner.scan_content("Cargo.toml", content).unwrap();
    assert_eq!(find(&first, "dependencies-my").current_version, "unknown");
    let inline = updater.update_content(content, find(&first, "dependencies-my"), "2").unwrap();
    assert_eq!(inline, content.replace("{ git = \"u\" }", "{ git = \"u\", version = \"2\" }"));
    let table = updater.update_content(content, find(&first, "dependencies-other"), "3").unwrap();
    assert_eq!(table, format!("{}version = \"3\"\r\n", content));
    let again = scanner.scan_content("Cargo.toml", &table).unwrap();
    assert_eq!(find(&again, "dependencies-other").current_version, "3");
    assert_eq!(find(&again, "dependencies-my"), find(&first, "dependencies-my"));

    let empty = "[dependencies]\na = {}\nb = { }\n\n[dependencies.c]\n\n[dev-dependencies]\nd = \"1\"";
    let first = scanner.scan_content("Cargo.toml", empty).unwrap();
    let a = updater.update_content(empty, find(&first, "dependencies-a"), "2").unwrap();
    assert_eq!(a, empty.replace("a = {}", "a = { version = \"2\" }"));
    let b = updater.update_content(empty, find(&first, "dependencies-b"), "2").unwrap();
    assert_eq!(b, empty.replace("b = { }", "b = { version = \"2\" }"));
    let c = updater.update_content(empty, find(&first, "dependencies-c"), "2").unwrap();
    assert_eq!(c, empty.replace("[dependencies.c]\n", "[dependencies.c]\nversion = \"2\"\n"));
    for text in [&a, &b, &c] {
        assert_eq!(scanner.scan_content("Cargo.toml", text).unwrap().len(), first.len());
    }
}

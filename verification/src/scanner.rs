//! The format scanners: from the text of a manifest to its declarations.

pub mod annotation_parser;
pub mod cargo_scanner;
pub mod correlation;
pub mod go_scanner;
pub mod json_doc;
pub mod nix_ast_scanner;
pub mod nix_query;
pub mod npm_scanner;
pub mod toml_doc;

use vstd::prelude::*;
use crate::scanner::cargo_scanner::CargoScanner;
use crate::scanner::go_scanner::GoModScanner;
use crate::scanner::nix_ast_scanner::{
    file_name, is_nix_file, is_nix_name, name_of_file, NixAstScanner,
};
use crate::scanner::npm_scanner::NpmScanner;
use crate::text::{same_str, split, split_on, text, to_chars, views};
use crate::types::{package_views, scan_view, Error, FileType, Package, PackageView};

verus! {

/// The format of the manifest at `path`, told by the name of the file:
/// `go.mod`, `Cargo.toml`, `package.json` outside any `node_modules`, and
/// any `.nix` file. Another file is of unknown format.
pub open spec fn file_type_of(path: Seq<char>) -> FileType {
    let name = file_name(path);
    if name == "go.mod"@ {
        FileType::GoMod
    } else if name == "Cargo.toml"@ {
        FileType::CargoToml
    } else if name == "package.json"@ {
        if split(path, '/').contains("node_modules"@) {
            FileType::Unknown
        } else {
            FileType::PackageJson
        }
    } else if is_nix_name(name) {
        FileType::Nix
    } else {
        FileType::Unknown
    }
}

/// The declarations of the manifest at `path` with text `content`, read as
/// the format `file_type`. A file of a format without a scanner has none.
pub open spec fn scanned_as(file_type: FileType, path: Seq<char>, content: Seq<char>) -> Result<
    Seq<PackageView>,
    Error,
> {
    match file_type {
        FileType::Nix => nix_ast_scanner::scanned(path, content),
        FileType::GoMod => Ok(go_scanner::scanned(path, content)),
        FileType::PackageJson => npm_scanner::scanned(path, content),
        FileType::CargoToml => cargo_scanner::scanned(path, content),
        _ => Ok(Seq::empty()),
    }
}

/// What a walk over several files has given.
pub struct ScanReport {
    /// The declarations of the files that were read.
    pub packages: Vec<Package>,
    /// The files that could not be read as their format, each with the
    /// reason.
    pub failures: Vec<(String, Error)>,
}

/// What a `ScanReport` stands for.
pub struct ScanReportView {
    pub packages: Seq<PackageView>,
    pub failures: Seq<(Seq<char>, Error)>,
}

/// What a list of failures stands for.
pub open spec fn failure_views(v: Seq<(String, Error)>) -> Seq<(Seq<char>, Error)> {
    Seq::new(v.len(), |i: int| (v[i].0@, v[i].1))
}

/// What a list of files, each a path and a text, stands for.
pub open spec fn file_views(v: Seq<(String, String)>) -> Seq<(Seq<char>, Seq<char>)> {
    Seq::new(v.len(), |i: int| (v[i].0@, v[i].1@))
}

impl View for ScanReport {
    type V = ScanReportView;

    open spec fn view(&self) -> ScanReportView {
        ScanReportView {
            packages: package_views(self.packages@),
            failures: failure_views(self.failures@),
        }
    }
}

/// The report `start` extended by what the first `count` of `files` give
/// to the scanner of the format `file_type`. A file of another format is
/// passed over; a file that cannot be read is noted and the walk goes on.
pub open spec fn pass(
    files: Seq<(Seq<char>, Seq<char>)>,
    file_type: FileType,
    count: int,
    start: ScanReportView,
) -> ScanReportView
    decreases count,
{
    if count <= 0 {
        start
    } else {
        let prev = pass(files, file_type, count - 1, start);
        let (path, content) = files[count - 1];
        if file_type_of(path) == file_type {
            match scanned_as(file_type, path, content) {
                Ok(p) => ScanReportView { packages: prev.packages + p, failures: prev.failures },
                Err(e) => ScanReportView {
                    packages: prev.packages,
                    failures: prev.failures.push((path, e)),
                },
            }
        } else {
            prev
        }
    }
}

/// The report on `files`: the scanners run one after the other, for Nix,
/// `go.mod`, `package.json` and `Cargo.toml`, each over all files in their
/// order.
pub open spec fn scanned_files(files: Seq<(Seq<char>, Seq<char>)>) -> ScanReportView {
    let n = files.len() as int;
    let empty = ScanReportView { packages: Seq::empty(), failures: Seq::empty() };
    pass(
        files,
        FileType::CargoToml,
        n,
        pass(files, FileType::PackageJson, n, pass(files, FileType::GoMod, n, pass(files, FileType::Nix, n, empty))),
    )
}

/// Whether a segment of `path` is `node_modules`.
fn in_node_modules(path: &str) -> (r: bool)
    ensures
        r == split(path@, '/').contains("node_modules"@),
{
    let parts = split_on(&to_chars(path), '/');
    let mut i: usize = 0;
    while i < parts.len()
        invariant
            i <= parts.len(),
            views(parts@) == split(path@, '/'),
            forall|k: int| 0 <= k < i ==> views(parts@)[k] != "node_modules"@,
        decreases parts.len() - i,
    {
        assert(views(parts@)[i as int] == parts@[i as int]@);
        if same_str(&parts[i], "node_modules") {
            assert(views(parts@).contains("node_modules"@));
            return true;
        }
        i += 1;
    }
    false
}

/// The scanners of all formats.
pub struct Registry {
    nix: NixAstScanner,
    go: GoModScanner,
    npm: NpmScanner,
    cargo: CargoScanner,
}

impl Registry {
    pub fn new() -> (r: Self) {
        Registry {
            nix: NixAstScanner::new(),
            go: GoModScanner::new(),
            npm: NpmScanner::new(),
            cargo: CargoScanner::new(),
        }
    }

    /// The format of the manifest at `path`.
    pub fn file_type(&self, path: &str) -> (r: FileType)
        ensures
            r == file_type_of(path@),
    {
        let name = name_of_file(path);
        if same_str(&name, "go.mod") {
            FileType::GoMod
        } else if same_str(&name, "Cargo.toml") {
            FileType::CargoToml
        } else if same_str(&name, "package.json") {
            if in_node_modules(path) {
                return FileType::Unknown;
            }
            FileType::PackageJson
        } else if is_nix_file(&name) {
            FileType::Nix
        } else {
            FileType::Unknown
        }
    }

    /// The declarations of the manifest at `path` with text `content`, read
    /// as the format `file_type`.
    pub fn scan_as(&self, file_type: FileType, path: &str, content: &str) -> (r: Result<
        Vec<Package>,
        Error,
    >)
        ensures
            scan_view(r) == scanned_as(file_type, path@, content@),
    {
        match file_type {
            FileType::Nix => self.nix.scan_content(path, content),
            FileType::GoMod => self.go.scan_content(path, content),
            FileType::PackageJson => self.npm.scan_content(path, content),
            FileType::CargoToml => self.cargo.scan_content(path, content),
            _ => {
                let none: Vec<Package> = Vec::new();
                assert(package_views(none@) =~= Seq::<PackageView>::empty());
                Ok(none)
            },
        }
    }

    /// The declarations of the manifest at `path` with text `content`, read
    /// as the format that the name of the file tells.
    pub fn scan_file(&self, path: &str, content: &str) -> (r: Result<Vec<Package>, Error>)
        ensures
            scan_view(r) == scanned_as(file_type_of(path@), path@, content@),
    {
        self.scan_as(self.file_type(path), path, content)
    }

    /// Runs the scanner of one format over `files` and adds what it finds
    /// to `report`.
    fn run_pass(&self, files: &Vec<(String, String)>, file_type: FileType, report: &mut ScanReport)
        ensures
            final(report)@ == pass(file_views(files@), file_type, files.len() as int, old(report)@),
    {
        let mut i: usize = 0;
        let ghost fv = file_views(files@);
        while i < files.len()
            invariant
                i <= files.len(),
                fv == file_views(files@),
                report@ == pass(fv, file_type, i as int, old(report)@),
            decreases files.len() - i,
        {
            let path = &files[i].0;
            let content = &files[i].1;
            assert(fv[i as int] == (path@, content@));
            if self.file_type(path.as_str()) == file_type {
                match self.scan_as(file_type, path.as_str(), content.as_str()) {
                    Ok(mut found) => {
                        let ghost before = package_views(report.packages@);
                        let ghost added = package_views(found@);
                        report.packages.append(&mut found);
                        assert(package_views(report.packages@) =~= before + added);
                    },
                    Err(e) => {
                        let ghost was = failure_views(report.failures@);
                        report.failures.push((text(path.as_str()), e));
                        assert(failure_views(report.failures@) =~= was.push((path@, e)));
                    },
                }
            }
            i += 1;
        }
    }

    /// The report on `files`, each given as its path and its text. A file
    /// that cannot be read as its format is noted in the report and does
    /// not end the walk.
    pub fn scan(&self, files: &Vec<(String, String)>) -> (r: ScanReport)
        ensures
            r@ == scanned_files(file_views(files@)),
    {
        let mut report = ScanReport { packages: Vec::new(), failures: Vec::new() };
        assert(report@.packages =~= Seq::<PackageView>::empty());
        assert(report@.failures =~= Seq::<(Seq<char>, Error)>::empty());
        self.run_pass(files, FileType::Nix, &mut report);
        self.run_pass(files, FileType::GoMod, &mut report);
        self.run_pass(files, FileType::PackageJson, &mut report);
        self.run_pass(files, FileType::CargoToml, &mut report);
        report
    }
}

} // verus!

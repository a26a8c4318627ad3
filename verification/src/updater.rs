//! The format mutators: from the text of a manifest, a declaration and a new
//! version to the rewritten text.

pub mod cargo_updater;
pub mod go_updater;
pub mod json_editing;
pub mod nix_updater;
pub mod npm_updater;
pub mod toml_editing;

use vstd::prelude::*;
use crate::types::{Error, FileType, Package};
use crate::updater::cargo_updater::CargoUpdater;
use crate::types::result_view;
use crate::updater::go_updater::GoUpdater;
use crate::updater::nix_updater::NixUpdater;
use crate::updater::npm_updater::NpmUpdater;

verus! {

/// The mutators that there are.
#[derive(Debug, Clone, Copy, PartialEq, Eq, Structural)]
pub enum UpdaterKind {
    Nix,
    Cargo,
    Npm,
    Go,
}

/// The mutator for manifests of the format `file_type`, where there is one.
pub open spec fn updater_for(file_type: FileType) -> Option<UpdaterKind> {
    match file_type {
        FileType::Nix => Some(UpdaterKind::Nix),
        FileType::CargoToml => Some(UpdaterKind::Cargo),
        FileType::PackageJson => Some(UpdaterKind::Npm),
        FileType::GoMod => Some(UpdaterKind::Go),
        _ => None,
    }
}

/// The manifest `content` with `version` as the version of the declaration
/// `name`, rewritten by the mutator of the format `file_type`. A
/// declaration of a format without a mutator is not found.
pub open spec fn updated_as(
    file_type: FileType,
    content: Seq<char>,
    name: Seq<char>,
    version: Seq<char>,
) -> Result<Seq<char>, Error> {
    match updater_for(file_type) {
        Some(UpdaterKind::Nix) => nix_updater::updated_content(content, name, version),
        Some(UpdaterKind::Cargo) => cargo_updater::updated_content(content, name, version),
        Some(UpdaterKind::Npm) => npm_updater::updated_content(content, name, version),
        Some(UpdaterKind::Go) => go_updater::updated_content(content, name, version),
        None => Err(Error::DeclarationNotFound),
    }
}

/// The mutators of all formats.
pub struct UpdaterRegistry {
    nix_updater: NixUpdater,
    cargo_updater: CargoUpdater,
    npm_updater: NpmUpdater,
    go_updater: GoUpdater,
}

impl UpdaterRegistry {
    pub fn new() -> (r: Self) {
        UpdaterRegistry {
            nix_updater: NixUpdater::new(),
            cargo_updater: CargoUpdater::new(),
            npm_updater: NpmUpdater::new(),
            go_updater: GoUpdater::new(),
        }
    }

    /// The mutator for manifests of the format `file_type`.
    pub fn get_updater(&self, file_type: FileType) -> (r: Option<UpdaterKind>)
        ensures
            r == updater_for(file_type),
    {
        match file_type {
            FileType::Nix => Some(UpdaterKind::Nix),
            FileType::CargoToml => Some(UpdaterKind::Cargo),
            FileType::PackageJson => Some(UpdaterKind::Npm),
            FileType::GoMod => Some(UpdaterKind::Go),
            _ => None,
        }
    }

    /// The text that the file of the declaration `package` is to hold
    /// after the declaration is mutated to `new_version`, given the text
    /// `content` that it holds now. Nothing is written: the caller writes
    /// the text where this succeeds, and nothing where it fails.
    pub fn update_file(&self, package: &Package, content: &str, new_version: &str) -> (r:
        Result<String, Error>)
        ensures
            result_view(r) == updated_as(package.file_type, content@, package.name@, new_version@),
    {
        match self.get_updater(package.file_type) {
            Some(UpdaterKind::Nix) => self.nix_updater.update_content(content, package, new_version),
            Some(UpdaterKind::Cargo) => self.cargo_updater.update_content(
                content,
                package,
                new_version,
            ),
            Some(UpdaterKind::Npm) => self.npm_updater.update_content(content, package, new_version),
            Some(UpdaterKind::Go) => self.go_updater.update_content(content, package, new_version),
            None => Err(Error::DeclarationNotFound),
        }
    }
}

} // verus!

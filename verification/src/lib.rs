//! Discovery and rewriting of version-pinned dependency declarations in
//! project manifests (`flake.nix`, `Cargo.toml`, `go.mod`, `package.json`).

pub mod cache;
pub mod config;
pub mod edit;
pub mod filter;
pub mod pattern;
pub mod policy;
pub mod scanner;
pub mod sources;
pub mod text;
pub mod types;
pub mod updater;

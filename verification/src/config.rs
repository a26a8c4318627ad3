//! The layered configuration: global settings, settings per file and
//! settings per package.

use vstd::prelude::*;
use crate::text::{
    contains, find_char, has_prefix, has_suffix, matches_at, push_str, same, split, split_on,
    strip_prefix, to_chars, views, without_prefix,
};
use crate::types::{SourceType, UpdateStrategy};

verus! {

/// The filters that the configuration names.
#[derive(Debug, Clone, PartialEq, Eq)]
pub struct FilterConfig {
    /// Filter by file types.
    pub file_types: Option<Vec<String>>,
    /// Filter by package name patterns.
    pub name_patterns: Option<Vec<String>>,
    /// Filter by source types.
    pub source_types: Option<Vec<String>>,
    /// Filter by update strategies.
    pub update_strategies: Option<Vec<String>>,
}

impl Default for FilterConfig {
    fn default() -> (r: Self)
        ensures
            r.file_types is None,
            r.name_patterns is None,
            r.source_types is None,
            r.update_strategies is None,
    {
        FilterConfig {
            file_types: None,
            name_patterns: None,
            source_types: None,
            update_strategies: None,
        }
    }
}

/// The settings that hold for every file.
#[derive(Debug, Clone, PartialEq, Eq)]
pub struct GlobalConfig {
    /// The update strategy of a declaration that nothing else decides.
    pub update_strategy: UpdateStrategy,
    /// Whether answers of version sources are cached.
    pub cache_enabled: bool,
    /// How long a cached answer stays good, in seconds.
    pub cache_ttl: u64,
    /// The filters applied where the caller names none.
    pub filters: FilterConfig,
    /// Paths that are not scanned.
    pub exclude_paths: Vec<String>,
}

/// The settings of one package.
#[derive(Debug, Clone, PartialEq, Eq)]
pub struct PackageConfig {
    /// Whether the package is updated at all.
    pub enabled: bool,
    pub update_strategy: Option<UpdateStrategy>,
    /// The version that the package is pinned to.
    pub pin_version: Option<String>,
    /// The source type to ask first.
    pub preferred_source: Option<SourceType>,
    /// Versions that are not offered as updates.
    pub ignore_versions: Vec<String>,
}

/// The settings of one file.
#[derive(Debug, Clone, PartialEq, Eq)]
pub struct FileConfig {
    /// Whether the file is updated at all.
    pub enabled: bool,
    pub update_strategy: Option<UpdateStrategy>,
    /// The settings of packages of this file, by name.
    pub packages: Vec<(String, PackageConfig)>,
}

/// The whole configuration.
#[derive(Debug, Clone, PartialEq, Eq)]
pub struct Config {
    pub global: GlobalConfig,
    /// The settings of files, by path.
    pub files: Vec<(String, FileConfig)>,
    /// The settings of packages in any file, by name.
    pub packages: Vec<(String, PackageConfig)>,
}

pub fn default_update_strategy() -> (r: UpdateStrategy)
    ensures
        r == UpdateStrategy::Stable,
{
    UpdateStrategy::Stable
}

pub fn default_cache_enabled() -> (r: bool)
    ensures
        r,
{
    true
}

/// One hour.
pub fn default_cache_ttl() -> (r: u64)
    ensures
        r == 3600,
{
    3600
}

pub fn default_enabled() -> (r: bool)
    ensures
        r,
{
    true
}

impl Default for GlobalConfig {
    fn default() -> (r: Self)
        ensures
            r.update_strategy == UpdateStrategy::Stable,
            r.cache_enabled,
            r.cache_ttl == 3600,
            r.filters.file_types is None,
            r.filters.name_patterns is None,
            r.filters.source_types is None,
            r.filters.update_strategies is None,
            r.exclude_paths@.len() == 0,
    {
        GlobalConfig {
            update_strategy: default_update_strategy(),
            cache_enabled: default_cache_enabled(),
            cache_ttl: default_cache_ttl(),
            filters: FilterConfig::default(),
            exclude_paths: Vec::new(),
        }
    }
}

impl Default for Config {
    fn default() -> (r: Self)
        ensures
            r.global.update_strategy == UpdateStrategy::Stable,
            r.global.cache_enabled,
            r.global.cache_ttl == 3600,
            r.global.exclude_paths@.len() == 0,
            r.files@.len() == 0,
            r.packages@.len() == 0,
    {
        Config { global: GlobalConfig::default(), files: Vec::new(), packages: Vec::new() }
    }
}

/// The index of the first entry from `from` on whose key is `key`.
pub open spec fn key_index<T>(entries: Seq<(String, T)>, key: Seq<char>, from: int) -> Option<int>
    decreases entries.len() - from,
{
    if from < 0 || from >= entries.len() {
        None
    } else if entries[from].0@ == key {
        Some(from)
    } else {
        key_index(entries, key, from + 1)
    }
}

/// The index of the first entry whose key is `key`.
pub fn find_key<T>(entries: &Vec<(String, T)>, key: &Vec<char>) -> (r: Option<usize>)
    ensures
        match r {
            Some(i) => i < entries.len() && key_index(entries@, key@, 0) == Some(i as int),
            None => key_index(entries@, key@, 0) is None,
        },
{
    let mut i: usize = 0;
    while i < entries.len()
        invariant
            i <= entries.len(),
            key_index(entries@, key@, 0) == key_index(entries@, key@, i as int),
        decreases entries.len() - i,
    {
        if same(&to_chars(entries[i].0.as_str()), key) {
            return Some(i);
        }
        i += 1;
    }
    None
}

/// `path` without a `./` at its start.
pub open spec fn normalized(path: Seq<char>) -> Seq<char> {
    match strip_prefix(path, "./"@) {
        Some(rest) => rest,
        None => path,
    }
}

/// The index of the settings of the file at `path`: those filed under the
/// path as given, else under the path without `./` at its start, else under
/// that path with `./` before it.
pub open spec fn file_config_index(files: Seq<(String, FileConfig)>, path: Seq<char>) -> Option<
    int,
> {
    if key_index(files, path, 0) is Some {
        key_index(files, path, 0)
    } else if key_index(files, normalized(path), 0) is Some {
        key_index(files, normalized(path), 0)
    } else {
        key_index(files, "./"@ + normalized(path), 0)
    }
}

/// Whether the pattern `pattern` excludes `path`. A pattern with one `*`
/// excludes a path that begins with what stands before the star and ends
/// with what stands after it; a pattern with more stars excludes nothing.
/// A pattern without a star excludes the path of that name and what lies
/// below it.
pub open spec fn excluded_by(path: Seq<char>, pattern: Seq<char>) -> bool {
    if contains(pattern, seq!['*']) {
        split(pattern, '*').len() == 2 && has_prefix(path, split(pattern, '*')[0]) && has_suffix(
            path,
            split(pattern, '*')[1],
        )
    } else {
        path == pattern || has_prefix(path, pattern + "/"@)
    }
}

/// Whether one of the first `count` of `patterns` excludes `path`.
pub open spec fn excluded(path: Seq<char>, patterns: Seq<String>, count: int) -> bool
    decreases count,
{
    if count <= 0 {
        false
    } else {
        excluded(path, patterns, count - 1) || excluded_by(path, patterns[count - 1]@)
    }
}

/// Whether the pattern `pattern` excludes `path`.
pub fn pattern_excludes(path: &Vec<char>, pattern: &Vec<char>) -> (r: bool)
    ensures
        r == excluded_by(path@, pattern@),
{
    if find_char(pattern, '*').is_some() {
        let parts = split_on(pattern, '*');
        if parts.len() == 2 {
            assert(views(parts@)[0] == parts@[0]@);
            assert(views(parts@)[1] == parts@[1]@);
            let tail = &parts[1];
            matches_at(path, &parts[0], 0) && tail.len() <= path.len() && matches_at(
                path,
                tail,
                path.len() - tail.len(),
            )
        } else {
            false
        }
    } else {
        let mut below = crate::text::copy(pattern);
        push_str(&mut below, "/");
        same(path, pattern) || matches_at(path, &below, 0)
    }
}

impl Config {
    /// The settings of the file at `path`.
    pub fn get_file_config(&self, path: &str) -> (r: Option<&FileConfig>)
        ensures
            match r {
                Some(c) => file_config_index(self.files@, path@) is Some && *c
                    == self.files@[file_config_index(self.files@, path@)->0].1,
                None => file_config_index(self.files@, path@) is None,
            },
    {
        let p = to_chars(path);
        match find_key(&self.files, &p) {
            Some(i) => { return Some(&self.files[i].1); },
            None => {},
        }
        let plain = match without_prefix(&p, "./") {
            Some(rest) => rest,
            None => p,
        };
        match find_key(&self.files, &plain) {
            Some(i) => { return Some(&self.files[i].1); },
            None => {},
        }
        let mut dotted = to_chars("./");
        crate::text::push_all(&mut dotted, &plain);
        match find_key(&self.files, &dotted) {
            Some(i) => Some(&self.files[i].1),
            None => None,
        }
    }

    /// The settings of the package `package_name` that hold in any file.
    pub fn get_package_config(&self, package_name: &str) -> (r: Option<&PackageConfig>)
        ensures
            match r {
                Some(c) => key_index(self.packages@, package_name@, 0) is Some && *c
                    == self.packages@[key_index(self.packages@, package_name@, 0)->0].1,
                None => key_index(self.packages@, package_name@, 0) is None,
            },
    {
        match find_key(&self.packages, &to_chars(package_name)) {
            Some(i) => Some(&self.packages[i].1),
            None => None,
        }
    }

    /// Whether `path` is excluded from scanning.
    pub fn is_excluded(&self, path: &str) -> (r: bool)
        ensures
            r == excluded(
                path@,
                self.global.exclude_paths@,
                self.global.exclude_paths@.len() as int,
            ),
    {
        let p = to_chars(path);
        let patterns = &self.global.exclude_paths;
        let mut i: usize = 0;
        while i < patterns.len()
            invariant
                i <= patterns.len(),
                !excluded(path@, patterns@, i as int),
                patterns@ == self.global.exclude_paths@,
                p@ == path@,
            decreases patterns.len() - i,
        {
            if pattern_excludes(&p, &to_chars(patterns[i].as_str())) {
                assert(excluded(path@, patterns@, i + 1));
                proof {
                    lemma_excluded_grows(path@, patterns@, i + 1, patterns.len() as int);
                }
                return true;
            }
            i += 1;
        }
        false
    }
}

/// A path that one pattern excludes stays excluded when more patterns are
/// looked at.
proof fn lemma_excluded_grows(path: Seq<char>, patterns: Seq<String>, from: int, to: int)
    requires
        0 <= from <= to,
        excluded(path, patterns, from),
    ensures
        excluded(path, patterns, to),
    decreases to - from,
{
    if from < to {
        lemma_excluded_grows(path, patterns, from, to - 1);
    }
}

} // verus!

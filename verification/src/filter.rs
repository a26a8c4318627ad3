//! The filter that a caller puts on the declarations of a scan.

use vstd::prelude::*;
use crate::pattern::{compiles, is_match, regex_matches, regex_valid};
use crate::text::{ends_with, has_suffix, same_str, to_chars};
use crate::types::{
    opt_view, package_views, Package, PackageView, SourceHintView, SourceType, UpdateStrategy,
};

verus! {

/// A filter as the caller writes it.
#[derive(Debug, Clone, PartialEq, Eq)]
pub struct FilterConfig {
    /// `nix`, `cargo`, `npm` or `go`.
    pub file_type: Option<String>,
    /// A regular expression on the name of the declaration.
    pub name_pattern: Option<String>,
    /// `github`, `npm`, `crates` or `git`.
    pub source_type: Option<String>,
    /// `stable`, `conservative`, `latest` or `aggressive`.
    pub update_strategy: Option<String>,
}

/// Why a filter could not be made.
#[derive(Debug, Clone, Copy, PartialEq, Eq, Structural)]
pub enum FilterError {
    /// The name pattern is no regular expression.
    InvalidPattern,
    UnknownSourceType,
    UnknownUpdateStrategy,
}

/// A filter, checked.
#[derive(Debug, Clone, PartialEq, Eq)]
pub struct Filter {
    pub file_type: Option<String>,
    pub name_pattern: Option<String>,
    pub source_type: Option<SourceType>,
    pub update_strategy: Option<UpdateStrategy>,
}

/// What a `Filter` stands for.
pub struct FilterView {
    pub file_type: Option<Seq<char>>,
    pub name_pattern: Option<Seq<char>>,
    pub source_type: Option<SourceType>,
    pub update_strategy: Option<UpdateStrategy>,
}

impl View for Filter {
    type V = FilterView;

    open spec fn view(&self) -> FilterView {
        FilterView {
            file_type: opt_view(self.file_type),
            name_pattern: opt_view(self.name_pattern),
            source_type: self.source_type,
            update_strategy: self.update_strategy,
        }
    }
}

/// The source type that `s` names.
pub open spec fn source_type_named(s: Seq<char>) -> Option<SourceType> {
    if s == "github"@ {
        Some(SourceType::GitHub)
    } else if s == "npm"@ {
        Some(SourceType::Npm)
    } else if s == "crates"@ {
        Some(SourceType::Crates)
    } else if s == "git"@ {
        Some(SourceType::Git)
    } else {
        None
    }
}

/// The update strategy that `s` names.
pub open spec fn strategy_named(s: Seq<char>) -> Option<UpdateStrategy> {
    if s == "stable"@ {
        Some(UpdateStrategy::Stable)
    } else if s == "conservative"@ {
        Some(UpdateStrategy::Conservative)
    } else if s == "latest"@ {
        Some(UpdateStrategy::Latest)
    } else if s == "aggressive"@ {
        Some(UpdateStrategy::Aggressive)
    } else {
        None
    }
}

/// The filter that `config` asks for, or the first thing that is wrong with
/// it: the pattern, the source type, the update strategy, in this order.
pub open spec fn filter_of(
    file_type: Option<Seq<char>>,
    name_pattern: Option<Seq<char>>,
    source_type: Option<Seq<char>>,
    update_strategy: Option<Seq<char>>,
) -> Result<FilterView, FilterError> {
    if name_pattern is Some && !regex_valid(name_pattern->0) {
        Err(FilterError::InvalidPattern)
    } else if source_type is Some && source_type_named(source_type->0) is None {
        Err(FilterError::UnknownSourceType)
    } else if update_strategy is Some && strategy_named(update_strategy->0) is None {
        Err(FilterError::UnknownUpdateStrategy)
    } else {
        Ok(
            FilterView {
                file_type,
                name_pattern,
                source_type: match source_type {
                    Some(s) => source_type_named(s),
                    None => None,
                },
                update_strategy: match update_strategy {
                    Some(s) => strategy_named(s),
                    None => None,
                },
            },
        )
    }
}

/// Whether a manifest at `path` is of the kind `kind`.
pub open spec fn path_is_of(kind: Seq<char>, path: Seq<char>) -> bool {
    if kind == "nix"@ {
        has_suffix(path, ".nix"@)
    } else if kind == "cargo"@ {
        has_suffix(path, "Cargo.toml"@)
    } else if kind == "npm"@ {
        has_suffix(path, "package.json"@) || has_suffix(path, "package-lock.json"@)
    } else if kind == "go"@ {
        has_suffix(path, "go.mod"@)
    } else {
        false
    }
}

/// Whether one of the first `count` of `sources` is of the type `t`.
pub open spec fn has_source(sources: Seq<SourceHintView>, t: SourceType, count: int) -> bool
    decreases count,
{
    if count <= 0 {
        false
    } else {
        has_source(sources, t, count - 1) || sources[count - 1].source_type == t
    }
}

/// Whether the filter lets the declaration through: each criterion that the
/// filter names has to hold.
pub open spec fn lets_through(f: FilterView, p: PackageView) -> bool {
    &&& f.file_type is Some ==> path_is_of(f.file_type->0, p.path)
    &&& f.name_pattern is Some ==> regex_matches(f.name_pattern->0, p.name)
    &&& f.source_type is Some ==> has_source(p.sources, f.source_type->0, p.sources.len() as int)
    &&& f.update_strategy is Some ==> p.update_strategy == f.update_strategy->0
}

/// Those of the first `count` of `packages` that the filter lets through,
/// in their order.
pub open spec fn kept(f: FilterView, packages: Seq<PackageView>, count: int) -> Seq<PackageView>
    decreases count,
{
    if count <= 0 {
        Seq::empty()
    } else if lets_through(f, packages[count - 1]) {
        kept(f, packages, count - 1).push(packages[count - 1])
    } else {
        kept(f, packages, count - 1)
    }
}

/// The source type that `s` names.
pub fn parse_source_type(s: &str) -> (r: Option<SourceType>)
    ensures
        r == source_type_named(s@),
{
    let c = to_chars(s);
    if same_str(&c, "github") {
        Some(SourceType::GitHub)
    } else if same_str(&c, "npm") {
        Some(SourceType::Npm)
    } else if same_str(&c, "crates") {
        Some(SourceType::Crates)
    } else if same_str(&c, "git") {
        Some(SourceType::Git)
    } else {
        None
    }
}

/// The update strategy that `s` names.
pub fn parse_update_strategy(s: &str) -> (r: Option<UpdateStrategy>)
    ensures
        r == strategy_named(s@),
{
    let c = to_chars(s);
    if same_str(&c, "stable") {
        Some(UpdateStrategy::Stable)
    } else if same_str(&c, "conservative") {
        Some(UpdateStrategy::Conservative)
    } else if same_str(&c, "latest") {
        Some(UpdateStrategy::Latest)
    } else if same_str(&c, "aggressive") {
        Some(UpdateStrategy::Aggressive)
    } else {
        None
    }
}

/// What the result of making a filter stands for.
pub open spec fn filter_result_view(r: Result<Filter, FilterError>) -> Result<
    FilterView,
    FilterError,
> {
    match r {
        Ok(f) => Ok(f@),
        Err(e) => Err(e),
    }
}

impl Filter {
    /// Checks `config` and makes the filter.
    pub fn from_config(config: FilterConfig) -> (r: Result<Filter, FilterError>)
        ensures
            filter_result_view(r) == filter_of(
                opt_view(config.file_type),
                opt_view(config.name_pattern),
                opt_view(config.source_type),
                opt_view(config.update_strategy),
            ),
    {
        match &config.name_pattern {
            Some(p) => {
                if !compiles(p.as_str()) {
                    return Err(FilterError::InvalidPattern);
                }
            },
            None => {},
        }
        let source_type = match &config.source_type {
            Some(s) => {
                match parse_source_type(s.as_str()) {
                    Some(t) => Some(t),
                    None => { return Err(FilterError::UnknownSourceType); },
                }
            },
            None => None,
        };
        let update_strategy = match &config.update_strategy {
            Some(s) => {
                match parse_update_strategy(s.as_str()) {
                    Some(t) => Some(t),
                    None => { return Err(FilterError::UnknownUpdateStrategy); },
                }
            },
            None => None,
        };
        Ok(
            Filter {
                file_type: config.file_type,
                name_pattern: config.name_pattern,
                source_type,
                update_strategy,
            },
        )
    }

    /// Whether the filter lets `package` through.
    pub fn matches(&self, package: &Package) -> (r: bool)
        ensures
            r == lets_through(self@, package@),
    {
        match &self.file_type {
            Some(kind) => {
                let k = to_chars(kind.as_str());
                let path = to_chars(package.path.as_str());
                let of_kind = if same_str(&k, "nix") {
                    ends_with(&path, ".nix")
                } else if same_str(&k, "cargo") {
                    ends_with(&path, "Cargo.toml")
                } else if same_str(&k, "npm") {
                    ends_with(&path, "package.json") || ends_with(&path, "package-lock.json")
                } else if same_str(&k, "go") {
                    ends_with(&path, "go.mod")
                } else {
                    false
                };
                if !of_kind {
                    return false;
                }
            },
            None => {},
        }
        match &self.name_pattern {
            Some(p) => {
                if !is_match(p.as_str(), package.name.as_str()) {
                    return false;
                }
            },
            None => {},
        }
        match self.source_type {
            Some(t) => {
                let mut found = false;
                let mut i: usize = 0;
                while i < package.sources.len()
                    invariant
                        i <= package.sources.len(),
                        found == has_source(package@.sources, t, i as int),
                    decreases package.sources.len() - i,
                {
                    assert(package@.sources[i as int] == package.sources@[i as int]@);
                    if package.sources[i].source_type == t {
                        found = true;
                    }
                    i += 1;
                }
                if !found {
                    return false;
                }
            },
            None => {},
        }
        match self.update_strategy {
            Some(s) => {
                if package.update_strategy != s {
                    return false;
                }
            },
            None => {},
        }
        true
    }

    /// Those of `packages` that the filter lets through, in their order.
    pub fn apply(&self, packages: Vec<Package>) -> (r: Vec<Package>)
        ensures
            package_views(r@) == kept(self@, package_views(packages@), packages.len() as int),
    {
        let mut r: Vec<Package> = Vec::new();
        let mut i: usize = 0;
        let ghost pv = package_views(packages@);
        assert(package_views(r@) =~= Seq::<PackageView>::empty());
        while i < packages.len()
            invariant
                i <= packages.len(),
                pv == package_views(packages@),
                package_views(r@) == kept(self@, pv, i as int),
            decreases packages.len() - i,
        {
            assert(pv[i as int] == packages@[i as int]@);
            if self.matches(&packages[i]) {
                let ghost before = package_views(r@);
                let p = packages[i].duplicate();
                r.push(p);
                assert(package_views(r@) =~= before.push(p@));
            }
            i += 1;
        }
        r
    }
}

} // verus!

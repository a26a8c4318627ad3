//! What the configuration, the annotations and the answers of the sources
//! decide about the declarations of a scan.

use vstd::prelude::*;
use crate::config::{excluded, file_config_index, find_key, key_index, Config, PackageConfig};
use crate::filter::{parse_update_strategy, strategy_named, FilterConfig};
use crate::pattern::{is_match, regex_matches};
use crate::sources::{UpdateInfo, UpdateInfoView};
use crate::text::{
    contains, ends_with, find, find_char, from_chars, has_suffix, push_str, same, same_str, slice,
    split, split_on, str_views, text, to_chars, trim, trimmed, views,
};
use crate::types::{
    annotation_views, hint_views, opt_view, package_views, Annotation, AnnotationView, Package,
    PackageView, SourceHint, SourceHintView, SourceType, UpdateStrategy,
};

verus! {

/// The first string of an optional list.
pub open spec fn first_of(list: Option<Vec<String>>) -> Option<Seq<char>> {
    match list {
        Some(v) => if v@.len() > 0 {
            Some(v@[0]@)
        } else {
            None
        },
        None => None,
    }
}

/// `given`, or else `fallback`.
pub open spec fn or_else(given: Option<Seq<char>>, fallback: Option<Seq<char>>) -> Option<
    Seq<char>,
> {
    if given is Some {
        given
    } else {
        fallback
    }
}

/// The first string of an optional list.
fn first_string(list: &Option<Vec<String>>) -> (r: Option<String>)
    ensures
        opt_view(r) == first_of(*list),
{
    match list {
        Some(v) => {
            if v.len() > 0 {
                Some(v[0].clone())
            } else {
                None
            }
        },
        None => None,
    }
}

/// The filter of the caller, completed from the configuration: where the
/// caller names no criterion, the first that the configuration lists for
/// it holds.
pub fn merge_filters(given: FilterConfig, config: &crate::config::FilterConfig) -> (r:
    FilterConfig)
    ensures
        opt_view(r.file_type) == or_else(opt_view(given.file_type), first_of(config.file_types)),
        opt_view(r.name_pattern) == or_else(
            opt_view(given.name_pattern),
            first_of(config.name_patterns),
        ),
        opt_view(r.source_type) == or_else(
            opt_view(given.source_type),
            first_of(config.source_types),
        ),
        opt_view(r.update_strategy) == or_else(
            opt_view(given.update_strategy),
            first_of(config.update_strategies),
        ),
{
    FilterConfig {
        file_type: if given.file_type.is_some() {
            given.file_type
        } else {
            first_string(&config.file_types)
        },
        name_pattern: if given.name_pattern.is_some() {
            given.name_pattern
        } else {
            first_string(&config.name_patterns)
        },
        source_type: if given.source_type.is_some() {
            given.source_type
        } else {
            first_string(&config.source_types)
        },
        update_strategy: if given.update_strategy.is_some() {
            given.update_strategy
        } else {
            first_string(&config.update_strategies)
        },
    }
}

/// The index of the first source from `from` on that is of the type `t`.
pub open spec fn source_position(sources: Seq<SourceHintView>, t: SourceType, from: int) -> Option<
    int,
>
    decreases sources.len() - from,
{
    if from < 0 || from >= sources.len() {
        None
    } else if sources[from].source_type == t {
        Some(from)
    } else {
        source_position(sources, t, from + 1)
    }
}

/// `sources` with the first source of the type `preferred` moved to the
/// front; the others keep their order.
pub open spec fn promoted(sources: Seq<SourceHintView>, preferred: SourceType) -> Seq<
    SourceHintView,
> {
    match source_position(sources, preferred, 0) {
        Some(i) => sources.remove(i).insert(0, sources[i]),
        None => sources,
    }
}

/// The strategy `over`, or else `base`.
pub open spec fn overridden(base: UpdateStrategy, over: Option<UpdateStrategy>) -> UpdateStrategy {
    match over {
        Some(s) => s,
        None => base,
    }
}

/// The declaration under the settings of its package: dropped where the
/// package is disabled or pinned, else with the strategy and the preferred
/// source of the settings.
pub open spec fn with_package_config(p: PackageView, c: PackageConfig) -> Option<PackageView> {
    if !c.enabled || c.pin_version is Some {
        None
    } else {
        Some(
            PackageView {
                update_strategy: overridden(p.update_strategy, c.update_strategy),
                sources: match c.preferred_source {
                    Some(t) => promoted(p.sources, t),
                    None => p.sources,
                },
                ..p
            },
        )
    }
}

/// The strategy of a declaration after the first `count` of its
/// annotations, beginning with `start`; none where an annotation says
/// `ignore` or `pin-version`. An `update-strategy` that names no strategy
/// changes nothing.
pub open spec fn annotated(start: UpdateStrategy, annotations: Seq<AnnotationView>, count: int)
    -> Option<UpdateStrategy>
    decreases count,
{
    if count <= 0 {
        Some(start)
    } else {
        let options = annotations[count - 1].options;
        match annotated(start, annotations, count - 1) {
            None => None,
            Some(s) => if options.contains_key("ignore"@) || options.contains_key(
                "pin-version"@,
            ) {
                None
            } else if options.contains_key("update-strategy"@) {
                Some(overridden(s, strategy_named(options["update-strategy"@])))
            } else {
                Some(s)
            },
        }
    }
}

/// The declaration under the settings of its file: dropped where the file
/// is disabled, else with the strategy of the file and under the settings
/// that the file has for the package.
pub open spec fn with_file_config(config: Config, p: PackageView) -> Option<PackageView> {
    match file_config_index(config.files@, p.path) {
        Some(i) => {
            let fc = config.files@[i].1;
            let q = PackageView {
                update_strategy: overridden(p.update_strategy, fc.update_strategy),
                ..p
            };
            if !fc.enabled {
                None
            } else {
                match key_index(fc.packages@, p.name, 0) {
                    Some(j) => with_package_config(q, fc.packages@[j].1),
                    None => Some(q),
                }
            }
        },
        None => Some(p),
    }
}

/// The declaration under the settings that hold for its package in any
/// file.
pub open spec fn with_global_package(config: Config, p: PackageView) -> Option<PackageView> {
    match key_index(config.packages@, p.name, 0) {
        Some(j) => with_package_config(p, config.packages@[j].1),
        None => Some(p),
    }
}

/// The declaration as the configuration and its annotations leave it, or
/// none where they take it out. The global strategy comes first, then the
/// file, the package within the file, the package in any file, and last the
/// annotations.
pub open spec fn effective(config: Config, p: PackageView) -> Option<PackageView> {
    if excluded(p.path, config.global.exclude_paths@, config.global.exclude_paths@.len() as int) {
        None
    } else {
        match with_file_config(
            config,
            PackageView { update_strategy: config.global.update_strategy, ..p },
        ) {
            None => None,
            Some(q) => match with_global_package(config, q) {
                None => None,
                Some(r) => match annotated(
                    r.update_strategy,
                    r.annotations,
                    r.annotations.len() as int,
                ) {
                    Some(s) => Some(PackageView { update_strategy: s, ..r }),
                    None => None,
                },
            },
        }
    }
}

/// Those of the first `count` of `packages` that the configuration leaves,
/// each as it leaves it.
pub open spec fn configured(config: Config, packages: Seq<PackageView>, count: int) -> Seq<
    PackageView,
>
    decreases count,
{
    if count <= 0 {
        Seq::empty()
    } else {
        match effective(config, packages[count - 1]) {
            Some(p) => configured(config, packages, count - 1).push(p),
            None => configured(config, packages, count - 1),
        }
    }
}

/// What an optional declaration stands for.
pub open spec fn opt_package_view(p: Option<Package>) -> Option<PackageView> {
    match p {
        Some(x) => Some(x@),
        None => None,
    }
}

/// Moves the first source of the type `preferred` to the front.
fn promote(sources: &mut Vec<SourceHint>, preferred: SourceType)
    ensures
        hint_views(final(sources)@) == promoted(hint_views(old(sources)@), preferred),
{
    let mut i: usize = 0;
    let ghost hv = hint_views(sources@);
    while i < sources.len()
        invariant
            i <= sources.len(),
            sources@ == old(sources)@,
            hv == hint_views(sources@),
            source_position(hv, preferred, 0) == source_position(hv, preferred, i as int),
        decreases sources.len() - i,
    {
        assert(hv[i as int] == sources@[i as int]@);
        if sources[i].source_type == preferred {
            let hint = sources.remove(i);
            sources.insert(0, hint);
            assert(hint_views(sources@) =~= hv.remove(i as int).insert(0, hv[i as int]));
            return ;
        }
        i += 1;
    }
}

/// Puts `package` under the settings `c`; false where they take it out.
fn apply_package_config(package: &mut Package, c: &PackageConfig) -> (kept: bool)
    ensures
        kept == with_package_config(old(package)@, *c) is Some,
        kept ==> final(package)@ == with_package_config(old(package)@, *c)->0,
{
    if !c.enabled || c.pin_version.is_some() {
        return false;
    }
    match c.update_strategy {
        Some(s) => {
            package.update_strategy = s;
        },
        None => {},
    }
    match c.preferred_source {
        Some(t) => {
            promote(&mut package.sources, t);
        },
        None => {},
    }
    true
}

/// The strategy of a declaration after its annotations.
fn read_annotations(start: UpdateStrategy, annotations: &Vec<Annotation>) -> (r: Option<
    UpdateStrategy,
>)
    ensures
        r == annotated(start, annotation_views(annotations@), annotations.len() as int),
{
    let mut strategy = start;
    let mut i: usize = 0;
    let ghost av = annotation_views(annotations@);
    while i < annotations.len()
        invariant
            i <= annotations.len(),
            av == annotation_views(annotations@),
            annotated(start, av, i as int) == Some(strategy),
        decreases annotations.len() - i,
    {
        let options = &annotations[i].options;
        assert(av[i as int].options == options@);
        if options.contains_key("ignore") || options.contains_key("pin-version") {
            proof {
                lemma_annotated_none(start, av, i + 1, annotations.len() as int);
            }
            return None;
        }
        match options.get("update-strategy") {
            Some(name) => {
                match parse_update_strategy(name.as_str()) {
                    Some(s) => {
                        strategy = s;
                    },
                    None => {},
                }
            },
            None => {},
        }
        i += 1;
    }
    Some(strategy)
}

/// A declaration that an annotation takes out stays out.
proof fn lemma_annotated_none(
    start: UpdateStrategy,
    annotations: Seq<AnnotationView>,
    from: int,
    to: int,
)
    requires
        0 <= from <= to,
        annotated(start, annotations, from) is None,
    ensures
        annotated(start, annotations, to) is None,
    decreases to - from,
{
    if from < to {
        lemma_annotated_none(start, annotations, from, to - 1);
    }
}

/// The declaration `package` as the configuration and its annotations
/// leave it, or none where they take it out.
pub fn apply_config(config: &Config, package: Package) -> (r: Option<Package>)
    ensures
        opt_package_view(r) == effective(*config, package@),
{
    let mut p = package;
    if config.is_excluded(p.path.as_str()) {
        return None;
    }
    p.update_strategy = config.global.update_strategy;
    let ghost at_start = p@;
    match config.get_file_config(p.path.as_str()) {
        Some(fc) => {
            if !fc.enabled {
                return None;
            }
            match fc.update_strategy {
                Some(s) => {
                    p.update_strategy = s;
                },
                None => {},
            }
            match find_key(&fc.packages, &to_chars(p.name.as_str())) {
                Some(j) => {
                    if !apply_package_config(&mut p, &fc.packages[j].1) {
                        return None;
                    }
                },
                None => {},
            }
        },
        None => {},
    }
    assert(Some(p@) == with_file_config(*config, at_start));
    let ghost after_file = p@;
    match find_key(&config.packages, &to_chars(p.name.as_str())) {
        Some(j) => {
            if !apply_package_config(&mut p, &config.packages[j].1) {
                return None;
            }
        },
        None => {},
    }
    assert(Some(p@) == with_global_package(*config, after_file));
    match read_annotations(p.update_strategy, &p.annotations) {
        Some(s) => {
            p.update_strategy = s;
            Some(p)
        },
        None => None,
    }
}

/// Those of `packages` that the configuration leaves, each as it leaves
/// it, in their order.
pub fn configure(config: &Config, packages: Vec<Package>) -> (r: Vec<Package>)
    ensures
        package_views(r@) == configured(*config, package_views(packages@), packages.len() as int),
{
    let mut r: Vec<Package> = Vec::new();
    let mut i: usize = 0;
    let ghost pv = package_views(packages@);
    assert(package_views(r@) =~= Seq::<PackageView>::empty());
    while i < packages.len()
        invariant
            i <= packages.len(),
            pv == package_views(packages@),
            package_views(r@) == configured(*config, pv, i as int),
        decreases packages.len() - i,
    {
        assert(pv[i as int] == packages@[i as int]@);
        match apply_config(config, packages[i].duplicate()) {
            Some(p) => {
                let ghost before = package_views(r@);
                r.push(p);
                assert(package_views(r@) =~= before.push(p@));
            },
            None => {},
        }
        i += 1;
    }
    r
}

/// Whether `c` has a meaning of its own in a regular expression.
pub open spec fn is_meta(c: char) -> bool {
    c == '\\' || c == '.' || c == '+' || c == '*' || c == '?' || c == '(' || c == ')' || c == '|'
        || c == '[' || c == ']' || c == '{' || c == '}' || c == '^' || c == '$' || c == '#' || c
        == '&' || c == '-' || c == '~'
}

/// The regular expression that matches what the pattern `p` matches: a star
/// stands for any run of characters, and every other character for itself.
pub open spec fn glob_body(p: Seq<char>) -> Seq<char>
    decreases p.len(),
{
    if p.len() == 0 {
        Seq::empty()
    } else if p.last() == '*' {
        glob_body(p.drop_last()) + ".*"@
    } else if is_meta(p.last()) {
        glob_body(p.drop_last()).push('\\').push(p.last())
    } else {
        glob_body(p.drop_last()).push(p.last())
    }
}

/// The regular expression that matches a text exactly where the pattern
/// `p` matches the whole of it.
pub open spec fn star_pattern(p: Seq<char>) -> Seq<char> {
    "(?s)^"@ + glob_body(p) + "$"@
}

/// Whether the pattern `pattern` rules out `version`: the pattern has to
/// match the whole version, a star standing for any run of characters and
/// every other character for itself. A pattern without a star rules out
/// the version that it is.
pub open spec fn pattern_ignores(pattern: Seq<char>, version: Seq<char>) -> bool {
    if contains(pattern, seq!['*']) {
        regex_matches(star_pattern(pattern), version)
    } else {
        pattern == version
    }
}

/// Whether one of the first `count` of `patterns` rules out `version`.
pub open spec fn any_ignores(patterns: Seq<Seq<char>>, version: Seq<char>, count: int) -> bool
    decreases count,
{
    if count <= 0 {
        false
    } else {
        any_ignores(patterns, version, count - 1) || pattern_ignores(patterns[count - 1], version)
    }
}

/// The patterns of an `ignore-versions` directive: the pieces between
/// commas, trimmed.
pub open spec fn directive_patterns(value: Seq<char>) -> Seq<Seq<char>> {
    Seq::new(split(value, ',').len(), |i: int| trim(split(value, ',')[i]))
}

/// Whether one of the first `count` of `annotations` rules out `version`
/// with an `ignore-versions` directive.
pub open spec fn annotations_ignore(
    annotations: Seq<AnnotationView>,
    version: Seq<char>,
    count: int,
) -> bool
    decreases count,
{
    if count <= 0 {
        false
    } else {
        let options = annotations[count - 1].options;
        annotations_ignore(annotations, version, count - 1) || (options.contains_key(
            "ignore-versions"@,
        ) && any_ignores(
            directive_patterns(options["ignore-versions"@]),
            version,
            directive_patterns(options["ignore-versions"@]).len() as int,
        ))
    }
}

/// Whether the settings `packages` rule out `version` for the package
/// `name`.
pub open spec fn settings_ignore(
    packages: Seq<(String, PackageConfig)>,
    name: Seq<char>,
    version: Seq<char>,
) -> bool {
    match key_index(packages, name, 0) {
        Some(j) => any_ignores(
            str_views(packages[j].1.ignore_versions@),
            version,
            packages[j].1.ignore_versions@.len() as int,
        ),
        None => false,
    }
}

/// Whether `version` is not to be offered for the declaration `p`: an
/// annotation rules it out, or the settings of the package within its file
/// do, or the settings of the package in any file.
pub open spec fn ignored(config: Config, p: PackageView, version: Seq<char>) -> bool {
    annotations_ignore(p.annotations, version, p.annotations.len() as int) || (match file_config_index(
        config.files@,
        p.path,
    ) {
        Some(i) => settings_ignore(config.files@[i].1.packages@, p.name, version),
        None => false,
    }) || settings_ignore(config.packages@, p.name, version)
}

/// Whether `c` has a meaning of its own in a regular expression.
fn is_meta_char(c: char) -> (r: bool)
    ensures
        r == is_meta(c),
{
    c == '\\' || c == '.' || c == '+' || c == '*' || c == '?' || c == '(' || c == ')' || c == '|'
        || c == '[' || c == ']' || c == '{' || c == '}' || c == '^' || c == '$' || c == '#' || c
        == '&' || c == '-' || c == '~'
}

/// The regular expression that matches a text exactly where the pattern
/// `p` matches the whole of it.
pub fn star_regex(p: &Vec<char>) -> (r: Vec<char>)
    ensures
        r@ == star_pattern(p@),
{
    let mut body: Vec<char> = Vec::new();
    let mut i: usize = 0;
    assert(p@.take(0) =~= Seq::<char>::empty());
    while i < p.len()
        invariant
            i <= p.len(),
            body@ == glob_body(p@.take(i as int)),
        decreases p.len() - i,
    {
        assert(p@.take(i + 1).drop_last() =~= p@.take(i as int));
        if p[i] == '*' {
            push_str(&mut body, ".*");
        } else if is_meta_char(p[i]) {
            body.push('\\');
            body.push(p[i]);
        } else {
            body.push(p[i]);
        }
        i += 1;
    }
    assert(p@.take(p.len() as int) =~= p@);
    let mut r = to_chars("(?s)^");
    crate::text::push_all(&mut r, &body);
    push_str(&mut r, "$");
    r
}

/// Whether the pattern `pattern` rules out `version`.
pub fn ignores(pattern: &Vec<char>, version: &str) -> (r: bool)
    ensures
        r == pattern_ignores(pattern@, version@),
{
    if find_char(pattern, '*').is_some() {
        is_match(from_chars(&star_regex(pattern)).as_str(), version)
    } else {
        same_str(pattern, version)
    }
}

/// A version that one pattern rules out stays ruled out when more patterns
/// are looked at.
proof fn lemma_any_ignores_grows(
    patterns: Seq<Seq<char>>,
    version: Seq<char>,
    from: int,
    to: int,
)
    requires
        0 <= from <= to,
        any_ignores(patterns, version, from),
    ensures
        any_ignores(patterns, version, to),
    decreases to - from,
{
    if from < to {
        lemma_any_ignores_grows(patterns, version, from, to - 1);
    }
}

/// Whether one of `patterns` rules out `version`.
fn any_pattern_ignores(patterns: &Vec<Vec<char>>, version: &str) -> (r: bool)
    ensures
        r == any_ignores(views(patterns@), version@, patterns.len() as int),
{
    let mut i: usize = 0;
    while i < patterns.len()
        invariant
            i <= patterns.len(),
            !any_ignores(views(patterns@), version@, i as int),
        decreases patterns.len() - i,
    {
        assert(views(patterns@)[i as int] == patterns@[i as int]@);
        if ignores(&patterns[i], version) {
            proof {
                lemma_any_ignores_grows(views(patterns@), version@, i + 1, patterns.len() as int);
            }
            return true;
        }
        i += 1;
    }
    false
}

/// The patterns of an `ignore-versions` directive.
fn patterns_of_directive(value: &str) -> (r: Vec<Vec<char>>)
    ensures
        views(r@) == directive_patterns(value@),
{
    let pieces = split_on(&to_chars(value), ',');
    let mut r: Vec<Vec<char>> = Vec::new();
    let mut i: usize = 0;
    while i < pieces.len()
        invariant
            i <= pieces.len(),
            r.len() == i,
            views(pieces@) == split(value@, ','),
            forall|k: int| 0 <= k < i ==> r@[k]@ == trim(split(value@, ',')[k]),
        decreases pieces.len() - i,
    {
        assert(views(pieces@)[i as int] == pieces@[i as int]@);
        r.push(trimmed(&pieces[i]));
        i += 1;
    }
    assert(views(r@) =~= directive_patterns(value@));
    r
}

/// A version that one annotation rules out stays ruled out when more
/// annotations are looked at.
proof fn lemma_annotations_ignore_grows(
    annotations: Seq<AnnotationView>,
    version: Seq<char>,
    from: int,
    to: int,
)
    requires
        0 <= from <= to,
        annotations_ignore(annotations, version, from),
    ensures
        annotations_ignore(annotations, version, to),
    decreases to - from,
{
    if from < to {
        lemma_annotations_ignore_grows(annotations, version, from, to - 1);
    }
}

/// Whether the settings `packages` rule out `version` for the package
/// `name`.
fn settings_rule_out(packages: &Vec<(String, PackageConfig)>, name: &str, version: &str) -> (r:
    bool)
    ensures
        r == settings_ignore(packages@, name@, version@),
{
    match find_key(packages, &to_chars(name)) {
        Some(j) => {
            let patterns = crate::text::chars_of_all(&packages[j].1.ignore_versions);
            assert(views(patterns@).len() == patterns.len());
            assert(str_views(packages@[j as int].1.ignore_versions@).len()
                == packages@[j as int].1.ignore_versions@.len());
            any_pattern_ignores(&patterns, version)
        },
        None => false,
    }
}

/// Whether `version` is not to be offered for the declaration `package`.
pub fn should_ignore(config: &Config, package: &Package, version: &str) -> (r: bool)
    ensures
        r == ignored(*config, package@, version@),
{
    let mut i: usize = 0;
    let ghost av = annotation_views(package.annotations@);
    while i < package.annotations.len()
        invariant
            i <= package.annotations.len(),
            av == annotation_views(package.annotations@),
            !annotations_ignore(av, version@, i as int),
        decreases package.annotations.len() - i,
    {
        let options = &package.annotations[i].options;
        assert(av[i as int].options == options@);
        match options.get("ignore-versions") {
            Some(value) => {
                let patterns = patterns_of_directive(value.as_str());
                if any_pattern_ignores(&patterns, version) {
                    proof {
                        lemma_annotations_ignore_grows(
                            av,
                            version@,
                            i + 1,
                            package.annotations.len() as int,
                        );
                    }
                    return true;
                }
            },
            None => {},
        }
        i += 1;
    }
    let in_file = match config.get_file_config(package.path.as_str()) {
        Some(fc) => settings_rule_out(&fc.packages, package.name.as_str(), version),
        None => false,
    };
    in_file || settings_rule_out(&config.packages, package.name.as_str(), version)
}

/// The file and the name that an update request names: it is written
/// `file:name`, or `name` alone for any file.
pub open spec fn path_spec(request: Seq<char>) -> (Option<Seq<char>>, Seq<char>) {
    match find(request, seq![':']) {
        Some(i) => (Some(request.take(i)), request.skip(i + 1)),
        None => (None, request),
    }
}

/// Whether the update request `request` names the declaration `p`: the
/// name is that of the declaration, and its path ends with the file where
/// the request names one.
pub open spec fn requested(p: PackageView, request: Seq<char>) -> bool {
    p.name == path_spec(request).1 && match path_spec(request).0 {
        Some(file) => has_suffix(p.path, file),
        None => true,
    }
}

/// The indices of those of the first `count` of `packages` that the update
/// request `request` names, in ascending order.
pub open spec fn selection(packages: Seq<PackageView>, request: Seq<char>, count: int) -> Seq<
    usize,
>
    decreases count,
{
    if count <= 0 {
        Seq::empty()
    } else if requested(packages[count - 1], request) {
        selection(packages, request, count - 1).push((count - 1) as usize)
    } else {
        selection(packages, request, count - 1)
    }
}

/// The file and the name that an update request names.
pub fn parse_path_spec(request: &str) -> (r: (Option<String>, String))
    ensures
        (opt_view(r.0), r.1@) == path_spec(request@),
{
    let q = to_chars(request);
    let n = q.len();
    match find_char(&q, ':') {
        Some(i) => {
            assert(q@.skip(i + 1) =~= q@.subrange(i + 1, n as int));
            (Some(from_chars(&slice(&q, 0, i))), from_chars(&slice(&q, i + 1, n)))
        },
        None => (None, from_chars(&q)),
    }
}

/// The indices of those of `packages` that the update request `request`
/// names, in ascending order.
pub fn select(packages: &Vec<Package>, request: &str) -> (r: Vec<usize>)
    ensures
        r@ == selection(package_views(packages@), request@, packages.len() as int),
{
    let (file, name) = parse_path_spec(request);
    let wanted = to_chars(name.as_str());
    let mut r: Vec<usize> = Vec::new();
    let mut i: usize = 0;
    let ghost pv = package_views(packages@);
    while i < packages.len()
        invariant
            i <= packages.len(),
            pv == package_views(packages@),
            wanted@ == path_spec(request@).1,
            opt_view(file) == path_spec(request@).0,
            r@ == selection(pv, request@, i as int),
        decreases packages.len() - i,
    {
        let p = &packages[i];
        assert(pv[i as int] == p@);
        let in_file = match &file {
            Some(f) => ends_with(&to_chars(p.path.as_str()), f.as_str()),
            None => true,
        };
        if same(&to_chars(p.name.as_str()), &wanted) && in_file {
            r.push(i);
        }
        i += 1;
    }
    r
}

/// One update that a check offers.
#[derive(Debug, Clone, PartialEq, Eq)]
pub struct UpdateEntry {
    pub package: String,
    pub path: String,
    pub current_version: String,
    pub latest_version: String,
    pub latest_stable_version: Option<String>,
    pub source_type: SourceType,
    pub identifier: String,
}

/// What an `UpdateEntry` stands for.
pub struct UpdateEntryView {
    pub package: Seq<char>,
    pub path: Seq<char>,
    pub current_version: Seq<char>,
    pub latest_version: Seq<char>,
    pub latest_stable_version: Option<Seq<char>>,
    pub source_type: SourceType,
    pub identifier: Seq<char>,
}

impl View for UpdateEntry {
    type V = UpdateEntryView;

    open spec fn view(&self) -> UpdateEntryView {
        UpdateEntryView {
            package: self.package@,
            path: self.path@,
            current_version: self.current_version@,
            latest_version: self.latest_version@,
            latest_stable_version: opt_view(self.latest_stable_version),
            source_type: self.source_type,
            identifier: self.identifier@,
        }
    }
}

/// What an optional `UpdateEntry` stands for.
pub open spec fn opt_entry_view(e: Option<UpdateEntry>) -> Option<UpdateEntryView> {
    match e {
        Some(x) => Some(x@),
        None => None,
    }
}

/// The update that the answer `info` of the source `hint` offers for the
/// declaration `p`: none where the source sees no update, and none where
/// the latest version is ruled out.
pub open spec fn offered(config: Config, p: PackageView, hint: SourceHintView, info: UpdateInfoView)
    -> Option<UpdateEntryView> {
    if info.update_available && !ignored(config, p, info.latest_version.version) {
        Some(
            UpdateEntryView {
                package: p.name,
                path: p.path,
                current_version: p.current_version,
                latest_version: info.latest_version.version,
                latest_stable_version: match info.latest_stable_version {
                    Some(v) => Some(v.version),
                    None => None,
                },
                source_type: hint.source_type,
                identifier: hint.identifier,
            },
        )
    } else {
        None
    }
}

/// The update that the answer `info` of the source `hint` offers for the
/// declaration `package`.
pub fn report_update(config: &Config, package: &Package, hint: &SourceHint, info: &UpdateInfo)
    -> (r: Option<UpdateEntry>)
    ensures
        opt_entry_view(r) == offered(*config, package@, hint@, info@),
{
    if info.update_available && !should_ignore(
        config,
        package,
        info.latest_version.version.as_str(),
    ) {
        Some(
            UpdateEntry {
                package: package.name.clone(),
                path: package.path.clone(),
                current_version: package.current_version.clone(),
                latest_version: info.latest_version.version.clone(),
                latest_stable_version: match &info.latest_stable_version {
                    Some(v) => Some(v.version.clone()),
                    None => None,
                },
                source_type: hint.source_type,
                identifier: hint.identifier.clone(),
            },
        )
    } else {
        None
    }
}

/// How a source hint is shown: the kind of source and a colon before the
/// identifier for GitHub, npm and git, the identifier alone otherwise.
pub open spec fn hint_label(hint: SourceHintView) -> Seq<char> {
    match hint.source_type {
        SourceType::GitHub => "github:"@ + hint.identifier,
        SourceType::Npm => "npm:"@ + hint.identifier,
        SourceType::Git => "git:"@ + hint.identifier,
        _ => hint.identifier,
    }
}

/// How an update strategy is written.
pub open spec fn strategy_name(s: UpdateStrategy) -> Seq<char> {
    match s {
        UpdateStrategy::Conservative => "conservative"@,
        UpdateStrategy::Stable => "stable"@,
        UpdateStrategy::Latest => "latest"@,
        UpdateStrategy::Aggressive => "aggressive"@,
    }
}

/// How a source hint is shown.
pub fn source_label(hint: &SourceHint) -> (r: String)
    ensures
        r@ == hint_label(hint@),
{
    let mut t = match hint.source_type {
        SourceType::GitHub => to_chars("github:"),
        SourceType::Npm => to_chars("npm:"),
        SourceType::Git => to_chars("git:"),
        _ => {
            let e: Vec<char> = Vec::new();
            assert(e@ + hint.identifier@ =~= hint.identifier@);
            e
        },
    };
    push_str(&mut t, hint.identifier.as_str());
    from_chars(&t)
}

/// How an update strategy is written.
pub fn strategy_label(s: UpdateStrategy) -> (r: String)
    ensures
        r@ == strategy_name(s),
{
    match s {
        UpdateStrategy::Conservative => text("conservative"),
        UpdateStrategy::Stable => text("stable"),
        UpdateStrategy::Latest => text("latest"),
        UpdateStrategy::Aggressive => text("aggressive"),
    }
}

/// The line that names a declaration for an update request: its path, a
/// colon and its name.
pub fn path_line(package: &Package) -> (r: String)
    ensures
        r@ == package.path@ + ":"@ + package.name@,
{
    let mut t = to_chars(package.path.as_str());
    push_str(&mut t, ":");
    push_str(&mut t, package.name.as_str());
    from_chars(&t)
}

/// How the attempt to update a declaration from one of its sources ended.
#[derive(Debug, Clone, Copy, PartialEq, Eq, Structural)]
pub enum Attempt {
    /// The source could not be asked.
    CheckFailed,
    /// The source offers nothing newer.
    UpToDate,
    /// The new version was written to the file.
    Written,
    /// The source offers a newer version, and it could not be written.
    WriteFailed,
}

/// Whether the sources that follow are still to be tried after `attempt`:
/// the first source whose version is written ends the search, and every
/// other outcome leads on to the next source.
pub fn tries_next_source(attempt: Attempt) -> (r: bool)
    ensures
        r == !(attempt is Written),
{
    match attempt {
        Attempt::Written => false,
        _ => true,
    }
}

} // verus!

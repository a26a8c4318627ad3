//! Declarations of Nix files: the inputs of a `flake.nix`, and the version
//! of a package expression.

use vstd::prelude::*;
use crate::pattern::{captures, group, regex_captures, regex_group};
use crate::scanner::annotation_parser::{
    extract_annotation_from_line, line_annotation, opt_annotation_view,
};
use crate::scanner::nix_query::{
    capture_named, capture_text, find_capture, match_view, match_views, nix_query, run_query,
    Capture, CaptureView,
};
use crate::text::{
    contains, contains_str, copy, ends_with, find, find_str, from_chars, has_prefix, has_suffix,
    join, join_from, push_all, push_str, same, same_str, slice, split, split_on, starts_with,
    to_chars, views,
};
use crate::types::{
    scan_view, annotation_views, package_views, Annotation, AnnotationView, Error, FileType,
    Options, Package, PackageView, SourceHint, SourceHintView, SourceType, UpdateStrategy,
};

verus! {

/// The regular expression that finds owner and repository in a URL on
/// `github.com`.
pub open spec fn github_pattern() -> Seq<char> {
    "github\\.com[/:]([^/]+)/([^/?#.]+)"@
}

/// `s` without any `.git` at its end.
pub open spec fn strip_git_suffix(s: Seq<char>) -> Seq<char>
    decreases s.len(),
{
    if has_suffix(s, ".git"@) && ".git"@.len() > 0 {
        strip_git_suffix(s.take(s.len() - ".git"@.len()))
    } else {
        s
    }
}

/// Where the input with URL `url` comes from, and under which name: a
/// `github:` shorthand and a URL on `github.com` give owner and repository,
/// a `git+` URL and any other URL give themselves.
pub open spec fn flake_source(url: Seq<char>) -> (SourceType, Seq<char>) {
    if has_prefix(url, "github:"@) {
        let parts = split(url.skip("github:"@.len() as int), '/');
        if parts.len() >= 2 {
            (SourceType::GitHub, parts[0] + "/"@ + parts[1])
        } else {
            (SourceType::Url, url)
        }
    } else if has_prefix(url, "git+"@) {
        (SourceType::Git, url)
    } else if contains(url, "github.com"@) {
        match regex_captures(github_pattern(), url) {
            Some(g) => if g.len() > 2 && g[1] is Some && g[2] is Some {
                (SourceType::GitHub, g[1]->0 + "/"@ + strip_git_suffix(g[2]->0))
            } else {
                (SourceType::Url, url)
            },
            None => (SourceType::Url, url),
        }
    } else {
        (SourceType::Url, url)
    }
}

/// Whether segment `i` of a URL path ends the repository: it ends in `.git`,
/// or the path is long and the segment equals the one before the last.
pub open spec fn marks_repo(parts: Seq<Seq<char>>, i: int) -> bool {
    has_suffix(parts[i], ".git"@) || (parts.len() > 5 && parts[i] == parts[parts.len() - 2])
}

/// The first segment at or after `from` that ends the repository.
pub open spec fn repo_index(parts: Seq<Seq<char>>, from: int) -> Option<int>
    decreases parts.len() - from,
{
    if from < 0 || from >= parts.len() {
        None
    } else if marks_repo(parts, from) {
        Some(from)
    } else {
        repo_index(parts, from + 1)
    }
}

/// The version that the path of `url` gives: what follows the repository,
/// and `HEAD` where nothing does.
pub open spec fn path_version(url: Seq<char>) -> Seq<char> {
    let parts = split(url, '/');
    if has_suffix(url, ".git"@) {
        "HEAD"@
    } else {
        match repo_index(parts, 0) {
            Some(i) => if i + 1 < parts.len() {
                join(parts.skip(i + 1), "/"@)
            } else {
                "HEAD"@
            },
            None => "HEAD"@,
        }
    }
}

/// Whether a version can be read off `url`: it is a `github:` shorthand,
/// holds `?ref=`, lies on `github.com` or is a `git+` URL.
pub open spec fn has_version(url: Seq<char>) -> bool {
    has_prefix(url, "github:"@) || find(url, "?ref="@) is Some || contains(url, "github.com"@)
        || has_prefix(url, "git+"@)
}

/// The version that `url` pins. `github:owner/repo/ref` gives `ref`, and
/// `HEAD` without one; `?ref=X` gives `X`; another URL on `github.com` or
/// with `git+` gives what its path tells. A URL of no such form stands for
/// itself.
pub open spec fn flake_version(url: Seq<char>) -> Seq<char> {
    if has_prefix(url, "github:"@) {
        let parts = split(url.skip("github:"@.len() as int), '/');
        if parts.len() > 2 {
            join(parts.skip(2), "/"@)
        } else {
            "HEAD"@
        }
    } else {
        match find(url, "?ref="@) {
            Some(i) => split(url.skip(i + "?ref="@.len()), '&')[0],
            None => if contains(url, "github.com"@) || has_prefix(url, "git+"@) {
                path_version(url)
            } else {
                url
            },
        }
    }
}

/// The declaration of the flake input `name` with URL `url`. Where no
/// version can be read off the URL, the metadata keeps the URL under `url`.
pub open spec fn flake_input_package(
    path: Seq<char>,
    name: Seq<char>,
    url: Seq<char>,
    annotations: Seq<AnnotationView>,
) -> PackageView {
    PackageView {
        path,
        file_type: FileType::Nix,
        name: "flake-input-"@ + name,
        current_version: flake_version(url),
        sources: seq![
            SourceHintView {
                source_type: flake_source(url).0,
                identifier: flake_source(url).1,
                url: Some(url),
            },
        ],
        update_strategy: UpdateStrategy::Stable,
        annotations,
        metadata: if has_version(url) {
            Map::empty()
        } else {
            Map::empty().insert("url"@, url)
        },
    }
}

/// The regular expression that finds the package name in a URL of the npm
/// registry, scoped or not.
pub open spec fn npm_pattern() -> Seq<char> {
    "registry\\.npmjs\\.org/(@[^/]+/[^/]+|[^/@]+)(?:/-/|$)"@
}

/// The regular expression that finds owner and repository in the path of a
/// URL on `github.com`.
pub open spec fn github_path_pattern() -> Seq<char> {
    "github\\.com/([^/]+/[^/]+)"@
}

/// Where the package fetched from `url` comes from, and under which name.
/// `name` is the package's own name, used where the URL tells the registry
/// but not the name.
pub open spec fn package_source(url: Seq<char>, name: Seq<char>) -> (SourceType, Seq<char>) {
    if contains(url, "registry.npmjs.org"@) {
        match regex_group(npm_pattern(), url, 1) {
            Some(found) => (SourceType::Npm, found),
            None => (SourceType::Npm, name),
        }
    } else if contains(url, "github.com"@) {
        match regex_group(github_path_pattern(), url, 1) {
            Some(found) => (SourceType::GitHub, found),
            None => (SourceType::GitHub, name),
        }
    } else if contains(url, "pypi.org"@) {
        (SourceType::PyPi, name)
    } else {
        (SourceType::Url, url)
    }
}

/// The captures of all matches, one after the other.
pub open spec fn flat(matches: Seq<Seq<CaptureView>>) -> Seq<CaptureView>
    decreases matches.len(),
{
    if matches.len() == 0 {
        Seq::empty()
    } else {
        flat(matches.drop_last()) + matches.last()
    }
}

/// The annotation of the first comment from index `from` on that begins on
/// line `row` (0-based) and holds a directive.
pub open spec fn comment_annotation(comments: Seq<CaptureView>, row: int, from: int) -> Option<
    AnnotationView,
>
    decreases comments.len() - from,
{
    if from < 0 || from >= comments.len() || row < 0 || row >= usize::MAX {
        None
    } else if comments[from].row == row && line_annotation(comments[from].text, (row + 1) as usize)
        is Some {
        line_annotation(comments[from].text, (row + 1) as usize)
    } else {
        comment_annotation(comments, row, from + 1)
    }
}

/// The annotations of a binding that begins on line `row`: at most one, from
/// a comment on that line, else on the line above, else on the one above
/// that.
pub open spec fn binding_annotations(comments: Seq<CaptureView>, row: usize) -> Seq<
    AnnotationView,
> {
    let same_line = comment_annotation(comments, row as int, 0);
    let above = comment_annotation(comments, row - 1, 0);
    let further = comment_annotation(comments, row - 2, 0);
    if same_line is Some {
        seq![same_line->0]
    } else if above is Some {
        seq![above->0]
    } else if further is Some {
        seq![further->0]
    } else {
        Seq::empty()
    }
}

/// A directive in a comment on the line of a binding is the only one
/// attached to it, whatever the lines above say.
pub proof fn lemma_same_line_comment_wins(comments: Seq<CaptureView>, row: usize)
    requires
        comment_annotation(comments, row as int, 0) is Some,
    ensures
        binding_annotations(comments, row) == seq![comment_annotation(comments, row as int, 0)->0],
{
}

/// Whether one of `packages` has the name `name`.
pub open spec fn named(packages: Seq<PackageView>, name: Seq<char>) -> bool
    decreases packages.len(),
{
    if packages.len() == 0 {
        false
    } else {
        packages.last().name == name || named(packages.drop_last(), name)
    }
}

/// The input that a match of one of the URL queries gives, as the capture of
/// its name and its URL: the match has to lie in `inputs` and bind `url`.
pub open spec fn url_input(m: Seq<CaptureView>) -> Option<(CaptureView, Seq<char>)> {
    if capture_text(m, "inputs_key"@) == Some("inputs"@) && capture_text(m, "key"@) == Some(
        "url"@,
    ) {
        match (capture_named(m, "input_name"@), capture_text(m, "url"@)) {
            (Some(n), Some(u)) => Some((n, u)),
            _ => None,
        }
    } else {
        None
    }
}

/// The declarations after the first `count` matches of a URL query, added to
/// `start`. An input that is declared already is passed over.
pub open spec fn url_pass(
    path: Seq<char>,
    comments: Seq<CaptureView>,
    matches: Seq<Seq<CaptureView>>,
    count: int,
    start: Seq<PackageView>,
) -> Seq<PackageView>
    decreases count,
{
    if count <= 0 {
        start
    } else {
        let prev = url_pass(path, comments, matches, count - 1, start);
        match url_input(matches[count - 1]) {
            Some((n, u)) => if named(prev, "flake-input-"@ + n.text) {
                prev
            } else {
                prev.push(flake_input_package(path, n.text, u, binding_annotations(comments, n.row)))
            },
            None => prev,
        }
    }
}

/// The value of the attribute `key` among the first `count` key-value
/// matches, looking only at bindings inside the bytes from `start` to `end`.
/// The last such binding decides.
pub open spec fn attribute(
    values: Seq<Seq<CaptureView>>,
    start: usize,
    end: usize,
    key: Seq<char>,
    count: int,
) -> Option<Seq<char>>
    decreases count,
{
    if count <= 0 {
        None
    } else {
        match (capture_named(values[count - 1], "key"@), capture_text(values[count - 1], "value"@)) {
            (Some(k), Some(v)) => if k.text == key && start <= k.start_byte && k.end_byte <= end {
                Some(v)
            } else {
                attribute(values, start, end, key, count - 1)
            },
            _ => attribute(values, start, end, key, count - 1),
        }
    }
}

/// `s`, or the empty text.
pub open spec fn or_empty(s: Option<Seq<char>>) -> Seq<char> {
    match s {
        Some(x) => x,
        None => Seq::empty(),
    }
}

/// The URL of an input that is written as an attribute set between `start`
/// and `end`. An explicit `url` decides. Else `type` does: `github` gives
/// `github:<owner>/<repo>` and `/<ref>` where there is one, `git` gives an
/// ssh URL made of `host`, `owner` and `repo`, `path` gives `path:<path>`.
/// Another type, or a missing attribute, gives none.
pub open spec fn set_url(values: Seq<Seq<CaptureView>>, start: usize, end: usize) -> Option<
    Seq<char>,
> {
    let n = values.len() as int;
    let kind = attribute(values, start, end, "type"@, n);
    let owner = attribute(values, start, end, "owner"@, n);
    let repo = attribute(values, start, end, "repo"@, n);
    if attribute(values, start, end, "url"@, n) is Some {
        attribute(values, start, end, "url"@, n)
    } else if kind == Some("github"@) {
        if owner is Some && repo is Some {
            Some(
                "github:"@ + owner->0 + "/"@ + repo->0 + match attribute(
                    values,
                    start,
                    end,
                    "ref"@,
                    n,
                ) {
                    Some(r) => "/"@ + r,
                    None => Seq::empty(),
                },
            )
        } else {
            None
        }
    } else if kind == Some("git"@) {
        match attribute(values, start, end, "host"@, n) {
            Some(h) => Some(
                "git+ssh://git@"@ + h + "/"@ + or_empty(owner) + "/"@ + or_empty(repo),
            ),
            None => None,
        }
    } else if kind == Some("path"@) {
        match attribute(values, start, end, "path"@, n) {
            Some(p) => Some("path:"@ + p),
            None => None,
        }
    } else {
        None
    }
}

/// The input that a match of the attribute-set query gives, as the capture
/// of its name and the capture of its set: the match has to lie in `inputs`.
pub open spec fn set_input(m: Seq<CaptureView>) -> Option<(CaptureView, CaptureView)> {
    if capture_text(m, "inputs_key"@) == Some("inputs"@) {
        match (capture_named(m, "input_name"@), capture_named(m, "attr_set"@)) {
            (Some(n), Some(s)) => Some((n, s)),
            _ => None,
        }
    } else {
        None
    }
}

/// The declarations after the first `count` matches of the attribute-set
/// query, added to `start`. An input that is declared already is passed
/// over.
pub open spec fn set_pass(
    path: Seq<char>,
    comments: Seq<CaptureView>,
    values: Seq<Seq<CaptureView>>,
    matches: Seq<Seq<CaptureView>>,
    count: int,
    start: Seq<PackageView>,
) -> Seq<PackageView>
    decreases count,
{
    if count <= 0 {
        start
    } else {
        let prev = set_pass(path, comments, values, matches, count - 1, start);
        match set_input(matches[count - 1]) {
            Some((n, s)) => match set_url(values, s.start_byte, s.end_byte) {
                Some(u) => if named(prev, "flake-input-"@ + n.text) {
                    prev
                } else {
                    prev.push(
                        flake_input_package(path, n.text, u, binding_annotations(comments, n.row)),
                    )
                },
                None => prev,
            },
            None => prev,
        }
    }
}

/// The declarations of the inputs of a flake, given the matches of the five
/// queries: comments, inputs of the form `name.url = "..."`, inputs of the
/// form `name = { url = "..."; }`, inputs written as any attribute set, and
/// all bindings of a name to a string. The forms are tried in this order and
/// an input is declared once, by the first form that finds it.
pub open spec fn flake_inputs(
    path: Seq<char>,
    comments: Seq<Seq<CaptureView>>,
    direct: Seq<Seq<CaptureView>>,
    nested: Seq<Seq<CaptureView>>,
    sets: Seq<Seq<CaptureView>>,
    values: Seq<Seq<CaptureView>>,
) -> Seq<PackageView> {
    let c = flat(comments);
    let first = url_pass(path, c, direct, direct.len() as int, Seq::empty());
    let second = url_pass(path, c, nested, nested.len() as int, first);
    set_pass(path, c, values, sets, sets.len() as int, second)
}

/// No two of `packages` have the same name.
pub open spec fn distinct_names(packages: Seq<PackageView>) -> bool {
    forall|i: int, j: int|
        0 <= i < j < packages.len() ==> (#[trigger] packages[i]).name != (#[trigger] packages[j]).name
}

pub proof fn lemma_not_named(packages: Seq<PackageView>, name: Seq<char>)
    ensures
        !named(packages, name) ==> forall|i: int|
            0 <= i < packages.len() ==> (#[trigger] packages[i]).name != name,
    decreases packages.len(),
{
    if packages.len() > 0 {
        lemma_not_named(packages.drop_last(), name);
        if !named(packages, name) {
            assert forall|i: int| 0 <= i < packages.len() implies (#[trigger] packages[i]).name
                != name by {
                if i < packages.len() - 1 {
                    assert(packages[i] == packages.drop_last()[i]);
                }
            }
        }
    }
}

proof fn lemma_push_distinct(packages: Seq<PackageView>, p: PackageView)
    requires
        distinct_names(packages),
        !named(packages, p.name),
    ensures
        distinct_names(packages.push(p)),
{
    lemma_not_named(packages, p.name);
    let q = packages.push(p);
    assert forall|i: int, j: int| 0 <= i < j < q.len() implies (#[trigger] q[i]).name != (
    #[trigger] q[j]).name by {
        if j < packages.len() {
            assert(q[i] == packages[i]);
            assert(q[j] == packages[j]);
        } else {
            assert(q[i] == packages[i]);
        }
    }
}

proof fn lemma_url_pass_distinct(
    path: Seq<char>,
    comments: Seq<CaptureView>,
    matches: Seq<Seq<CaptureView>>,
    count: int,
    start: Seq<PackageView>,
)
    requires
        distinct_names(start),
    ensures
        distinct_names(url_pass(path, comments, matches, count, start)),
    decreases count,
{
    if count > 0 {
        lemma_url_pass_distinct(path, comments, matches, count - 1, start);
        let prev = url_pass(path, comments, matches, count - 1, start);
        match url_input(matches[count - 1]) {
            Some((n, u)) => {
                if !named(prev, "flake-input-"@ + n.text) {
                    lemma_push_distinct(
                        prev,
                        flake_input_package(path, n.text, u, binding_annotations(comments, n.row)),
                    );
                }
            },
            None => {},
        }
    }
}

proof fn lemma_set_pass_distinct(
    path: Seq<char>,
    comments: Seq<CaptureView>,
    values: Seq<Seq<CaptureView>>,
    matches: Seq<Seq<CaptureView>>,
    count: int,
    start: Seq<PackageView>,
)
    requires
        distinct_names(start),
    ensures
        distinct_names(set_pass(path, comments, values, matches, count, start)),
    decreases count,
{
    if count > 0 {
        lemma_set_pass_distinct(path, comments, values, matches, count - 1, start);
        let prev = set_pass(path, comments, values, matches, count - 1, start);
        match set_input(matches[count - 1]) {
            Some((n, s)) => match set_url(values, s.start_byte, s.end_byte) {
                Some(u) => {
                    if !named(prev, "flake-input-"@ + n.text) {
                        lemma_push_distinct(
                            prev,
                            flake_input_package(
                                path,
                                n.text,
                                u,
                                binding_annotations(comments, n.row),
                            ),
                        );
                    }
                },
                None => {},
            },
            None => {},
        }
    }
}

/// An input of a flake is declared once, however many of the query forms
/// find it.
pub proof fn lemma_flake_inputs_distinct(
    path: Seq<char>,
    comments: Seq<Seq<CaptureView>>,
    direct: Seq<Seq<CaptureView>>,
    nested: Seq<Seq<CaptureView>>,
    sets: Seq<Seq<CaptureView>>,
    values: Seq<Seq<CaptureView>>,
)
    ensures
        distinct_names(flake_inputs(path, comments, direct, nested, sets, values)),
{
    let c = flat(comments);
    let first = url_pass(path, c, direct, direct.len() as int, Seq::empty());
    lemma_url_pass_distinct(path, c, direct, direct.len() as int, Seq::empty());
    lemma_url_pass_distinct(path, c, nested, nested.len() as int, first);
    let second = url_pass(path, c, nested, nested.len() as int, first);
    lemma_set_pass_distinct(path, c, values, sets, sets.len() as int, second);
}

/// The key and the value that a key-value match binds.
pub open spec fn key_value(m: Seq<CaptureView>) -> Option<(Seq<char>, Seq<char>)> {
    match (capture_text(m, "key"@), capture_text(m, "value"@)) {
        (Some(k), Some(v)) => Some((k, v)),
        _ => None,
    }
}

/// The value of the last of the first `count` matches that binds `key`.
pub open spec fn last_value(values: Seq<Seq<CaptureView>>, key: Seq<char>, count: int) -> Option<
    Seq<char>,
>
    decreases count,
{
    if count <= 0 {
        None
    } else {
        match key_value(values[count - 1]) {
            Some((k, v)) => if k == key {
                Some(v)
            } else {
                last_value(values, key, count - 1)
            },
            None => last_value(values, key, count - 1),
        }
    }
}

/// The value of the first match from index `from` on that binds `key`.
pub open spec fn first_value(values: Seq<Seq<CaptureView>>, key: Seq<char>, from: int) -> Option<
    Seq<char>,
>
    decreases values.len() - from,
{
    if from < 0 || from >= values.len() {
        None
    } else {
        match key_value(values[from]) {
            Some((k, v)) => if k == key {
                Some(v)
            } else {
                first_value(values, key, from + 1)
            },
            None => first_value(values, key, from + 1),
        }
    }
}

/// The URL that the first `count` key-value matches bind to `url`: the last
/// one, where a value that begins with a dot does not replace an earlier
/// one (it is the tail of a text with an interpolation in it).
pub open spec fn fragment_url(values: Seq<Seq<CaptureView>>, count: int) -> Option<Seq<char>>
    decreases count,
{
    if count <= 0 {
        None
    } else {
        let prev = fragment_url(values, count - 1);
        match key_value(values[count - 1]) {
            Some((k, v)) => if k == "url"@ && (prev is None || !has_prefix(v, "."@)) {
                Some(v)
            } else {
                prev
            },
            None => prev,
        }
    }
}

/// `s` without the double quotes at either end.
pub open spec fn strip_quotes(s: Seq<char>) -> Seq<char>
    decreases s.len(),
{
    if s.len() > 0 && s[0] == '"' {
        strip_quotes(s.drop_first())
    } else if s.len() > 0 && s.last() == '"' {
        strip_quotes(s.drop_last())
    } else {
        s
    }
}

/// The URL of the first match from index `from` on that binds `url` to a
/// string expression: the source text of the expression, interpolations
/// included, without its quotes.
pub open spec fn expression_url(exprs: Seq<Seq<CaptureView>>, from: int) -> Option<Seq<char>>
    decreases exprs.len() - from,
{
    if from < 0 || from >= exprs.len() {
        None
    } else if capture_text(exprs[from], "key"@) == Some("url"@) && capture_text(
        exprs[from],
        "url_expr"@,
    ) is Some {
        Some(strip_quotes(capture_text(exprs[from], "url_expr"@)->0))
    } else {
        expression_url(exprs, from + 1)
    }
}

/// The version of a package expression: the last `version` bound to a
/// string anywhere, else the first one bound in a `let`.
pub open spec fn package_version(values: Seq<Seq<CaptureView>>, lets: Seq<Seq<CaptureView>>)
    -> Option<Seq<char>> {
    match last_value(values, "version"@, values.len() as int) {
        Some(v) => Some(v),
        None => first_value(lets, "version"@, 0),
    }
}

/// The URL of a package expression: what `url` is bound to as a plain
/// string, else as a string expression.
pub open spec fn package_url(values: Seq<Seq<CaptureView>>, exprs: Seq<Seq<CaptureView>>)
    -> Option<Seq<char>> {
    match fragment_url(values, values.len() as int) {
        Some(u) => Some(u),
        None => expression_url(exprs, 0),
    }
}

/// The declaration of a package expression with version `version`.
pub open spec fn package_declaration(
    path: Seq<char>,
    version: Seq<char>,
    pname: Option<Seq<char>>,
    url: Option<Seq<char>>,
) -> PackageView {
    let name = match pname {
        Some(n) => n,
        None => "package"@,
    };
    let source = match url {
        Some(u) => package_source(u, name),
        None => (SourceType::Url, name),
    };
    PackageView {
        path,
        file_type: FileType::Nix,
        name: "package"@,
        current_version: version,
        sources: seq![SourceHintView { source_type: source.0, identifier: source.1, url }],
        update_strategy: UpdateStrategy::Stable,
        annotations: Seq::empty(),
        metadata: Map::empty(),
    }
}

/// The declarations of a package expression, given the matches of three
/// queries: all bindings of a name to a string, all bindings of a name to
/// a string expression, and the bindings of a `let`. There is one
/// declaration where a version is found, and none otherwise.
pub open spec fn package_info(
    path: Seq<char>,
    values: Seq<Seq<CaptureView>>,
    exprs: Seq<Seq<CaptureView>>,
    lets: Seq<Seq<CaptureView>>,
) -> Seq<PackageView> {
    match package_version(values, lets) {
        Some(version) => seq![
            package_declaration(
                path,
                version,
                last_value(values, "pname"@, values.len() as int),
                package_url(values, exprs),
            ),
        ],
        None => Seq::empty(),
    }
}

/// The query for comments.
pub open spec fn comment_query() -> Seq<char> {
    "(comment) @comment"@
}

/// The query for inputs of the form `name.url = "..."`.
pub open spec fn direct_query() -> Seq<char> {
    "(binding (attrpath (identifier) @inputs_key) (attrset_expression (binding_set (binding (attrpath (identifier) @input_name . (identifier) @key) (string_expression (string_fragment) @url)))))"@
}

/// The query for inputs of the form `name = { url = "..."; }`.
pub open spec fn nested_query() -> Seq<char> {
    "(binding (attrpath (identifier) @inputs_key) (attrset_expression (binding_set (binding (attrpath (identifier) @input_name) (attrset_expression (binding_set (binding (attrpath (identifier) @key) (string_expression (string_fragment) @url))))))))"@
}

/// The query for inputs written as an attribute set.
pub open spec fn set_query() -> Seq<char> {
    "(binding (attrpath (identifier) @inputs_key) (attrset_expression (binding_set (binding (attrpath (identifier) @input_name) (attrset_expression (binding_set) @attr_set)))))"@
}

/// The query for bindings of a name to a string.
pub open spec fn value_query() -> Seq<char> {
    "(binding (attrpath (identifier) @key) (string_expression (string_fragment) @value))"@
}

/// The query for bindings of a name to a string expression.
pub open spec fn expression_query() -> Seq<char> {
    "(binding (attrpath (identifier) @key) (string_expression) @url_expr)"@
}

/// The query for bindings of a name to a string in a `let`.
pub open spec fn let_query() -> Seq<char> {
    "(let_expression (binding_set (binding (attrpath (identifier) @key) (string_expression (string_fragment) @value))))"@
}

/// The last segment of `path`.
pub open spec fn file_name(path: Seq<char>) -> Seq<char> {
    split(path, '/').last()
}

/// Whether a file of this name is a Nix file: the name ends in `.nix` and
/// has something before it.
pub open spec fn is_nix_name(name: Seq<char>) -> bool {
    has_suffix(name, ".nix"@) && name.len() > ".nix"@.len()
}

/// The declarations of the flake with text `content`.
pub open spec fn scanned_flake(path: Seq<char>, content: Seq<char>) -> Result<
    Seq<PackageView>,
    Error,
> {
    match nix_query(content, comment_query()) {
        Err(e) => Err(e),
        Ok(comments) => match nix_query(content, direct_query()) {
            Err(e) => Err(e),
            Ok(direct) => match nix_query(content, nested_query()) {
                Err(e) => Err(e),
                Ok(nested) => match nix_query(content, set_query()) {
                    Err(e) => Err(e),
                    Ok(sets) => match nix_query(content, value_query()) {
                        Err(e) => Err(e),
                        Ok(values) => Ok(
                            flake_inputs(path, comments, direct, nested, sets, values),
                        ),
                    },
                },
            },
        },
    }
}

/// The declarations of the package expression with text `content`.
pub open spec fn scanned_package(path: Seq<char>, content: Seq<char>) -> Result<
    Seq<PackageView>,
    Error,
> {
    match nix_query(content, value_query()) {
        Err(e) => Err(e),
        Ok(values) => match nix_query(content, expression_query()) {
            Err(e) => Err(e),
            Ok(exprs) => match nix_query(content, let_query()) {
                Err(e) => Err(e),
                Ok(lets) => Ok(package_info(path, values, exprs, lets)),
            },
        },
    }
}

/// The declarations of the Nix file at `path` with text `content`: the
/// inputs for a `flake.nix`, the package for another `.nix` file, nothing
/// for a file of another name.
pub open spec fn scanned(path: Seq<char>, content: Seq<char>) -> Result<Seq<PackageView>, Error> {
    if file_name(path) == "flake.nix"@ {
        scanned_flake(path, content)
    } else if is_nix_name(file_name(path)) {
        scanned_package(path, content)
    } else {
        Ok(Seq::empty())
    }
}

/// The scanner for Nix files.
pub struct NixAstScanner;

/// `s` without any `.git` at its end.
fn without_git_suffix(s: &Vec<char>) -> (r: Vec<char>)
    ensures
        r@ == strip_git_suffix(s@),
{
    let mut end: usize = s.len();
    proof {
        reveal_strlit(".git");
        assert(s@.take(end as int) =~= s@);
    }
    loop
        invariant
            end <= s.len(),
            ".git"@.len() == 4,
            strip_git_suffix(s@) == strip_git_suffix(s@.take(end as int)),
        decreases end,
    {
        let head = slice(s, 0, end);
        assert(head@ =~= s@.take(end as int));
        if ends_with(&head, ".git") {
            assert(head@.take(head@.len() - 4) =~= s@.take(end - 4));
            end -= 4;
        } else {
            return head;
        }
    }
}

/// The first segment at or after `from` that ends the repository.
fn find_repo(parts: &Vec<Vec<char>>, from: usize) -> (r: Option<usize>)
    ensures
        match r {
            Some(i) => i < parts.len() && repo_index(views(parts@), from as int) == Some(i as int),
            None => repo_index(views(parts@), from as int) is None,
        },
{
    let n = parts.len();
    let mut i: usize = from;
    while i < n
        invariant
            n == parts.len(),
            from <= i,
            repo_index(views(parts@), from as int) == repo_index(views(parts@), i as int),
        decreases n - i,
    {
        assert(views(parts@)[i as int] == parts@[i as int]@);
        let marks = if ends_with(&parts[i], ".git") {
            true
        } else if n > 5 {
            assert(views(parts@)[n - 2] == parts@[n - 2]@);
            same(&parts[i], &parts[n - 2])
        } else {
            false
        };
        if marks {
            return Some(i);
        }
        i += 1;
    }
    None
}

/// The version that `url` pins.
pub fn version_of_url(url: &Vec<char>) -> (r: Vec<char>)
    ensures
        r@ == flake_version(url@),
{
    let n = url.len();
    if starts_with(url, "github:") {
        let prefix = to_chars("github:");
        assert(url@.skip(prefix@.len() as int) =~= url@.subrange(prefix@.len() as int, n as int));
        let parts = split_on(&slice(url, prefix.len(), n), '/');
        if parts.len() > 2 {
            join_from(&parts, 2, "/")
        } else {
            to_chars("HEAD")
        }
    } else {
        match find_str(url, "?ref=") {
            Some(i) => {
                let marker = to_chars("?ref=");
                assert(url@.skip(i + marker@.len()) =~= url@.subrange(
                    i + marker@.len(),
                    n as int,
                ));
                let parts = split_on(&slice(url, i + marker.len(), n), '&');
                assert(views(parts@)[0] == parts@[0]@);
                copy(&parts[0])
            },
            None => {
                if contains_str(url, "github.com") || starts_with(url, "git+") {
                    if ends_with(url, ".git") {
                        to_chars("HEAD")
                    } else {
                        let parts = split_on(url, '/');
                        match find_repo(&parts, 0) {
                            Some(i) => {
                                if i + 1 < parts.len() {
                                    join_from(&parts, i + 1, "/")
                                } else {
                                    to_chars("HEAD")
                                }
                            },
                            None => to_chars("HEAD"),
                        }
                    }
                } else {
                    copy(url)
                }
            },
        }
    }
}

/// A copy of `c`.
fn copy_capture(c: &Capture) -> (r: Capture)
    ensures
        r@ == c@,
{
    Capture::new(c.name.as_str(), c.text.as_str(), c.start_byte, c.end_byte, c.row)
}

/// The captures of all matches, one after the other.
pub fn flatten(matches: &Vec<Vec<Capture>>) -> (r: Vec<Capture>)
    ensures
        match_view(r@) == flat(match_views(matches@)),
{
    let mut r: Vec<Capture> = Vec::new();
    let ghost mv = match_views(matches@);
    let mut i: usize = 0;
    assert(mv.take(0) =~= Seq::<Seq<CaptureView>>::empty());
    assert(match_view(r@) =~= Seq::<CaptureView>::empty());
    while i < matches.len()
        invariant
            i <= matches.len(),
            mv == match_views(matches@),
            match_view(r@) == flat(mv.take(i as int)),
        decreases matches.len() - i,
    {
        let m = &matches[i];
        let ghost before = match_view(r@);
        let mut j: usize = 0;
        assert(mv[i as int] == match_view(m@));
        assert(match_view(m@).take(0) =~= Seq::<CaptureView>::empty());
        assert(before + match_view(m@).take(0) =~= before);
        while j < m.len()
            invariant
                j <= m.len(),
                match_view(r@) == before + match_view(m@).take(j as int),
            decreases m.len() - j,
        {
            let ghost was = match_view(r@);
            let c = copy_capture(&m[j]);
            r.push(c);
            assert(match_view(r@) =~= was.push(c@));
            assert(match_view(m@).take(j + 1) =~= match_view(m@).take(j as int).push(m@[j as int]@));
            assert(before + match_view(m@).take(j + 1) =~= (before + match_view(m@).take(
                j as int,
            )).push(c@));
            j += 1;
        }
        proof {
            assert(match_view(m@).take(m.len() as int) =~= match_view(m@));
            assert(mv.take(i + 1).drop_last() =~= mv.take(i as int));
            assert(mv.take(i + 1).last() == mv[i as int]);
        }
        i += 1;
    }
    assert(mv.take(matches.len() as int) =~= mv);
    r
}

/// The annotation of the first comment that begins on line `row` and holds
/// a directive.
fn annotation_on_row(comments: &Vec<Capture>, row: usize) -> (r: Option<Annotation>)
    ensures
        opt_annotation_view(r) == comment_annotation(match_view(comments@), row as int, 0),
{
    if row == usize::MAX {
        return None;
    }
    let mut i: usize = 0;
    let ghost cv = match_view(comments@);
    while i < comments.len()
        invariant
            i <= comments.len(),
            row < usize::MAX,
            cv == match_view(comments@),
            comment_annotation(cv, row as int, 0) == comment_annotation(cv, row as int, i as int),
        decreases comments.len() - i,
    {
        assert(cv[i as int] == comments@[i as int]@);
        if comments[i].row == row {
            let a = extract_annotation_from_line(comments[i].text.as_str(), row + 1);
            if a.is_some() {
                return a;
            }
        }
        i += 1;
    }
    None
}

/// The annotations of a binding that begins on line `row`.
pub fn annotations_near(comments: &Vec<Capture>, row: usize) -> (r: Vec<Annotation>)
    ensures
        annotation_views(r@) == binding_annotations(match_view(comments@), row),
{
    let mut found = annotation_on_row(comments, row);
    if found.is_none() && row >= 1 {
        found = annotation_on_row(comments, row - 1);
    }
    if found.is_none() && row >= 2 {
        found = annotation_on_row(comments, row - 2);
    }
    let mut r: Vec<Annotation> = Vec::new();
    match found {
        Some(a) => {
            r.push(a);
            assert(annotation_views(r@) =~= seq![a@]);
        },
        None => {
            assert(annotation_views(r@) =~= Seq::<AnnotationView>::empty());
        },
    }
    r
}

/// Whether one of `packages` has the name `name`.
fn has_named(packages: &Vec<Package>, name: &Vec<char>) -> (r: bool)
    ensures
        r == named(package_views(packages@), name@),
{
    let mut i: usize = packages.len();
    let ghost pv = package_views(packages@);
    assert(pv.take(i as int) =~= pv);
    while i > 0
        invariant
            i <= packages.len(),
            pv == package_views(packages@),
            named(pv, name@) == named(pv.take(i as int), name@),
        decreases i,
    {
        proof {
            assert(pv.take(i as int).drop_last() =~= pv.take(i - 1));
            assert(pv.take(i as int).last() == packages@[i - 1]@);
        }
        i -= 1;
        if same(&to_chars(packages[i].name.as_str()), name) {
            return true;
        }
    }
    false
}

/// Whether the last capture of `m` named `name` has the text `expected`.
fn text_is(m: &Vec<Capture>, name: &str, expected: &str) -> (r: bool)
    ensures
        r == (capture_text(match_view(m@), name@) == Some(expected@)),
{
    match find_capture(m, name) {
        Some(i) => same_str(&to_chars(m[i].text.as_str()), expected),
        None => false,
    }
}

/// The input that a match of one of the URL queries gives: the indices of
/// the capture of its name and of the capture of its URL.
fn read_url_input(m: &Vec<Capture>) -> (r: Option<(usize, usize)>)
    ensures
        match r {
            Some((n, u)) => n < m.len() && u < m.len() && url_input(match_view(m@)) == Some(
                (m@[n as int]@, m@[u as int]@.text),
            ),
            None => url_input(match_view(m@)) is None,
        },
{
    if text_is(m, "inputs_key", "inputs") && text_is(m, "key", "url") {
        match (find_capture(m, "input_name"), find_capture(m, "url")) {
            (Some(n), Some(u)) => Some((n, u)),
            _ => None,
        }
    } else {
        None
    }
}

/// Adds the declaration of the input `name` with URL `url`, unless the input
/// is declared already.
fn add_input(
    path: &str,
    comments: &Vec<Capture>,
    name: &Capture,
    url: &str,
    packages: &mut Vec<Package>,
)
    ensures
        package_views(final(packages)@) == if named(
            package_views(old(packages)@),
            "flake-input-"@ + name@.text,
        ) {
            package_views(old(packages)@)
        } else {
            package_views(old(packages)@).push(
                flake_input_package(
                    path@,
                    name@.text,
                    url@,
                    binding_annotations(match_view(comments@), name.row),
                ),
            )
        },
{
    let mut full = to_chars("flake-input-");
    push_str(&mut full, name.text.as_str());
    if !has_named(packages, &full) {
        let annotations = annotations_near(comments, name.row);
        let p = NixAstScanner::new().create_flake_input_package(
            path,
            name.text.as_str(),
            url,
            annotations,
        );
        let ghost before = package_views(packages@);
        packages.push(p);
        assert(package_views(packages@) =~= before.push(p@));
    }
}

/// Adds the declarations that the matches of a URL query give.
fn run_url_pass(
    path: &str,
    comments: &Vec<Capture>,
    matches: &Vec<Vec<Capture>>,
    packages: &mut Vec<Package>,
)
    ensures
        package_views(final(packages)@) == url_pass(
            path@,
            match_view(comments@),
            match_views(matches@),
            matches.len() as int,
            package_views(old(packages)@),
        ),
{
    let mut i: usize = 0;
    while i < matches.len()
        invariant
            i <= matches.len(),
            package_views(packages@) == url_pass(
                path@,
                match_view(comments@),
                match_views(matches@),
                i as int,
                package_views(old(packages)@),
            ),
        decreases matches.len() - i,
    {
        let m = &matches[i];
        assert(match_views(matches@)[i as int] == match_view(m@));
        match read_url_input(m) {
            Some((n, u)) => {
                add_input(path, comments, &m[n], m[u].text.as_str(), packages);
            },
            None => {},
        }
        i += 1;
    }
}

/// The value of the attribute `key` of the set between `start` and `end`.
pub fn read_attribute(values: &Vec<Vec<Capture>>, start: usize, end: usize, key: &str) -> (r: Option<
    Vec<char>,
>)
    ensures
        crate::text::opt_chars(r) == attribute(
            match_views(values@),
            start,
            end,
            key@,
            values.len() as int,
        ),
{
    let mut count: usize = values.len();
    let ghost v = match_views(values@);
    while count > 0
        invariant
            count <= values.len(),
            v == match_views(values@),
            attribute(v, start, end, key@, values.len() as int) == attribute(
                v,
                start,
                end,
                key@,
                count as int,
            ),
        decreases count,
    {
        let m = &values[count - 1];
        assert(v[count - 1] == match_view(m@));
        match (find_capture(m, "key"), find_capture(m, "value")) {
            (Some(k), Some(x)) => {
                if same_str(&to_chars(m[k].text.as_str()), key) && start <= m[k].start_byte
                    && m[k].end_byte <= end {
                    return Some(to_chars(m[x].text.as_str()));
                }
            },
            _ => {},
        }
        count -= 1;
    }
    None
}

/// `s`, or the empty text.
fn text_or_empty(s: &Option<Vec<char>>) -> (r: Vec<char>)
    ensures
        r@ == or_empty(crate::text::opt_chars(*s)),
{
    match s {
        Some(x) => copy(x),
        None => Vec::new(),
    }
}

/// Whether `s` is the text `expected`.
fn is_text(s: &Option<Vec<char>>, expected: &str) -> (r: bool)
    ensures
        r == (crate::text::opt_chars(*s) == Some(expected@)),
{
    match s {
        Some(x) => same_str(x, expected),
        None => false,
    }
}

/// The URL of an input that is written as an attribute set between `start`
/// and `end`.
pub fn url_of_set(values: &Vec<Vec<Capture>>, start: usize, end: usize) -> (r: Option<Vec<char>>)
    ensures
        crate::text::opt_chars(r) == set_url(match_views(values@), start, end),
{
    let kind = read_attribute(values, start, end, "type");
    let owner = read_attribute(values, start, end, "owner");
    let repo = read_attribute(values, start, end, "repo");
    let url = read_attribute(values, start, end, "url");
    if url.is_some() {
        url
    } else if is_text(&kind, "github") {
        match (&owner, &repo) {
            (Some(o), Some(r)) => {
                let mut u = to_chars("github:");
                push_all(&mut u, o);
                push_str(&mut u, "/");
                push_all(&mut u, r);
                let ghost base = u@;
                match read_attribute(values, start, end, "ref") {
                    Some(x) => {
                        let mut t = to_chars("/");
                        push_all(&mut t, &x);
                        push_all(&mut u, &t);
                    },
                    None => {
                        assert(base + Seq::<char>::empty() =~= base);
                    },
                }
                Some(u)
            },
            _ => None,
        }
    } else if is_text(&kind, "git") {
        match read_attribute(values, start, end, "host") {
            Some(h) => {
                let mut u = to_chars("git+ssh://git@");
                push_all(&mut u, &h);
                push_str(&mut u, "/");
                push_all(&mut u, &text_or_empty(&owner));
                push_str(&mut u, "/");
                push_all(&mut u, &text_or_empty(&repo));
                Some(u)
            },
            None => None,
        }
    } else if is_text(&kind, "path") {
        match read_attribute(values, start, end, "path") {
            Some(p) => {
                let mut u = to_chars("path:");
                push_all(&mut u, &p);
                Some(u)
            },
            None => None,
        }
    } else {
        None
    }
}

/// The input that a match of the attribute-set query gives: the indices of
/// the capture of its name and of the capture of its set.
pub fn read_set_input(m: &Vec<Capture>) -> (r: Option<(usize, usize)>)
    ensures
        match r {
            Some((n, s)) => n < m.len() && s < m.len() && set_input(match_view(m@)) == Some(
                (m@[n as int]@, m@[s as int]@),
            ),
            None => set_input(match_view(m@)) is None,
        },
{
    if text_is(m, "inputs_key", "inputs") {
        match (find_capture(m, "input_name"), find_capture(m, "attr_set")) {
            (Some(n), Some(s)) => Some((n, s)),
            _ => None,
        }
    } else {
        None
    }
}

/// Adds the declarations that the matches of the attribute-set query give.
fn run_set_pass(
    path: &str,
    comments: &Vec<Capture>,
    values: &Vec<Vec<Capture>>,
    matches: &Vec<Vec<Capture>>,
    packages: &mut Vec<Package>,
)
    ensures
        package_views(final(packages)@) == set_pass(
            path@,
            match_view(comments@),
            match_views(values@),
            match_views(matches@),
            matches.len() as int,
            package_views(old(packages)@),
        ),
{
    let mut i: usize = 0;
    while i < matches.len()
        invariant
            i <= matches.len(),
            package_views(packages@) == set_pass(
                path@,
                match_view(comments@),
                match_views(values@),
                match_views(matches@),
                i as int,
                package_views(old(packages)@),
            ),
        decreases matches.len() - i,
    {
        let m = &matches[i];
        assert(match_views(matches@)[i as int] == match_view(m@));
        match read_set_input(m) {
            Some((n, s)) => {
                match url_of_set(values, m[s].start_byte, m[s].end_byte) {
                    Some(u) => {
                        add_input(path, comments, &m[n], from_chars(&u).as_str(), packages);
                    },
                    None => {},
                }
            },
            None => {},
        }
        i += 1;
    }
}

/// The key and the value that a key-value match binds, as indices of the
/// captures.
fn read_key_value(m: &Vec<Capture>) -> (r: Option<(usize, usize)>)
    ensures
        match r {
            Some((k, v)) => k < m.len() && v < m.len() && key_value(match_view(m@)) == Some(
                (m@[k as int]@.text, m@[v as int]@.text),
            ),
            None => key_value(match_view(m@)) is None,
        },
{
    match (find_capture(m, "key"), find_capture(m, "value")) {
        (Some(k), Some(v)) => Some((k, v)),
        _ => None,
    }
}

/// The value of the last match that binds `key`.
fn read_last_value(values: &Vec<Vec<Capture>>, key: &str) -> (r: Option<Vec<char>>)
    ensures
        crate::text::opt_chars(r) == last_value(match_views(values@), key@, values.len() as int),
{
    let mut count: usize = values.len();
    let ghost v = match_views(values@);
    while count > 0
        invariant
            count <= values.len(),
            v == match_views(values@),
            last_value(v, key@, values.len() as int) == last_value(v, key@, count as int),
        decreases count,
    {
        let m = &values[count - 1];
        assert(v[count - 1] == match_view(m@));
        match read_key_value(m) {
            Some((k, x)) => {
                if same_str(&to_chars(m[k].text.as_str()), key) {
                    return Some(to_chars(m[x].text.as_str()));
                }
            },
            None => {},
        }
        count -= 1;
    }
    None
}

/// The value of the first match that binds `key`.
fn read_first_value(values: &Vec<Vec<Capture>>, key: &str) -> (r: Option<Vec<char>>)
    ensures
        crate::text::opt_chars(r) == first_value(match_views(values@), key@, 0),
{
    let mut i: usize = 0;
    let ghost v = match_views(values@);
    while i < values.len()
        invariant
            i <= values.len(),
            v == match_views(values@),
            first_value(v, key@, 0) == first_value(v, key@, i as int),
        decreases values.len() - i,
    {
        let m = &values[i];
        assert(v[i as int] == match_view(m@));
        match read_key_value(m) {
            Some((k, x)) => {
                if same_str(&to_chars(m[k].text.as_str()), key) {
                    return Some(to_chars(m[x].text.as_str()));
                }
            },
            None => {},
        }
        i += 1;
    }
    None
}

/// The URL that the key-value matches bind to `url`.
fn read_fragment_url(values: &Vec<Vec<Capture>>) -> (r: Option<Vec<char>>)
    ensures
        crate::text::opt_chars(r) == fragment_url(match_views(values@), values.len() as int),
{
    let mut url: Option<Vec<char>> = None;
    let mut i: usize = 0;
    let ghost v = match_views(values@);
    while i < values.len()
        invariant
            i <= values.len(),
            v == match_views(values@),
            crate::text::opt_chars(url) == fragment_url(v, i as int),
        decreases values.len() - i,
    {
        let m = &values[i];
        assert(v[i as int] == match_view(m@));
        match read_key_value(m) {
            Some((k, x)) => {
                let value = to_chars(m[x].text.as_str());
                if same_str(&to_chars(m[k].text.as_str()), "url") && (url.is_none() || !starts_with(
                    &value,
                    ".",
                )) {
                    url = Some(value);
                }
            },
            None => {},
        }
        i += 1;
    }
    url
}

/// `s` without the double quotes at either end.
fn without_quotes(s: &Vec<char>) -> (r: Vec<char>)
    ensures
        r@ == strip_quotes(s@),
{
    let mut from: usize = 0;
    let mut to: usize = s.len();
    assert(s@.subrange(0, to as int) =~= s@);
    while from < to && s[from] == '"'
        invariant
            from <= to <= s.len(),
            strip_quotes(s@) == strip_quotes(s@.subrange(from as int, to as int)),
        decreases to - from,
    {
        assert(s@.subrange(from as int, to as int).drop_first() =~= s@.subrange(
            from + 1,
            to as int,
        ));
        from += 1;
    }
    while from < to && s[to - 1] == '"'
        invariant
            from <= to <= s.len(),
            from < to ==> s@[from as int] != '"',
            strip_quotes(s@) == strip_quotes(s@.subrange(from as int, to as int)),
        decreases to - from,
    {
        assert(s@.subrange(from as int, to as int).drop_last() =~= s@.subrange(
            from as int,
            to - 1,
        ));
        to -= 1;
    }
    slice(s, from, to)
}

/// The URL of the first match that binds `url` to a string expression.
fn read_expression_url(exprs: &Vec<Vec<Capture>>) -> (r: Option<Vec<char>>)
    ensures
        crate::text::opt_chars(r) == expression_url(match_views(exprs@), 0),
{
    let mut i: usize = 0;
    let ghost v = match_views(exprs@);
    while i < exprs.len()
        invariant
            i <= exprs.len(),
            v == match_views(exprs@),
            expression_url(v, 0) == expression_url(v, i as int),
        decreases exprs.len() - i,
    {
        let m = &exprs[i];
        assert(v[i as int] == match_view(m@));
        if text_is(m, "key", "url") {
            match find_capture(m, "url_expr") {
                Some(x) => {
                    return Some(without_quotes(&to_chars(m[x].text.as_str())));
                },
                None => {},
            }
        }
        i += 1;
    }
    None
}

/// The last segment of `path`.
pub fn name_of_file(path: &str) -> (r: Vec<char>)
    ensures
        r@ == file_name(path@),
{
    let parts = split_on(&to_chars(path), '/');
    let last = parts.len() - 1;
    assert(views(parts@).last() == parts@[last as int]@);
    copy(&parts[last])
}

/// Whether a file of this name is a Nix file.
pub fn is_nix_file(name: &Vec<char>) -> (r: bool)
    ensures
        r == is_nix_name(name@),
{
    proof {
        reveal_strlit(".nix");
    }
    ends_with(name, ".nix") && name.len() > 4
}

impl NixAstScanner {
    pub fn new() -> (r: Self) {
        NixAstScanner
    }

    /// The declarations of the inputs of a flake, given the matches of the
    /// five queries (see `flake_inputs`). No two of them have the same name.
    pub fn extract_flake_inputs(
        &self,
        path: &str,
        comments: &Vec<Vec<Capture>>,
        direct: &Vec<Vec<Capture>>,
        nested: &Vec<Vec<Capture>>,
        sets: &Vec<Vec<Capture>>,
        values: &Vec<Vec<Capture>>,
    ) -> (r: Vec<Package>)
        ensures
            package_views(r@) == flake_inputs(
                path@,
                match_views(comments@),
                match_views(direct@),
                match_views(nested@),
                match_views(sets@),
                match_views(values@),
            ),
            distinct_names(package_views(r@)),
    {
        let c = flatten(comments);
        let mut packages: Vec<Package> = Vec::new();
        assert(package_views(packages@) =~= Seq::<PackageView>::empty());
        run_url_pass(path, &c, direct, &mut packages);
        run_url_pass(path, &c, nested, &mut packages);
        run_set_pass(path, &c, values, sets, &mut packages);
        proof {
            lemma_flake_inputs_distinct(
                path@,
                match_views(comments@),
                match_views(direct@),
                match_views(nested@),
                match_views(sets@),
                match_views(values@),
            );
        }
        packages
    }

    /// The declarations of a package expression, given the matches of the
    /// three queries (see `package_info`).
    pub fn extract_package_info(
        &self,
        path: &str,
        values: &Vec<Vec<Capture>>,
        exprs: &Vec<Vec<Capture>>,
        lets: &Vec<Vec<Capture>>,
    ) -> (r: Vec<Package>)
        ensures
            package_views(r@) == package_info(
                path@,
                match_views(values@),
                match_views(exprs@),
                match_views(lets@),
            ),
    {
        let mut packages: Vec<Package> = Vec::new();
        let mut version = read_last_value(values, "version");
        if version.is_none() {
            version = read_first_value(lets, "version");
        }
        match version {
            Some(ver) => {
                let pname = read_last_value(values, "pname");
                let mut url = read_fragment_url(values);
                if url.is_none() {
                    url = read_expression_url(exprs);
                }
                let name = match &pname {
                    Some(n) => from_chars(n),
                    None => from_chars(&to_chars("package")),
                };
                let (source_type, identifier, link) = match &url {
                    Some(u) => {
                        let text = from_chars(u);
                        let (t, id) = self.parse_package_url(text.as_str(), name.as_str());
                        (t, id, Some(text))
                    },
                    None => (SourceType::Url, name, None),
                };
                let mut sources: Vec<SourceHint> = Vec::new();
                sources.push(SourceHint { source_type, identifier, url: link });
                let p = Package {
                    path: from_chars(&to_chars(path)),
                    file_type: FileType::Nix,
                    name: from_chars(&to_chars("package")),
                    current_version: from_chars(&ver),
                    sources,
                    update_strategy: UpdateStrategy::Stable,
                    annotations: Vec::new(),
                    metadata: Options::new(),
                };
                let ghost expected = package_declaration(
                    path@,
                    ver@,
                    crate::text::opt_chars(pname),
                    crate::text::opt_chars(url),
                );
                assert(p@.sources =~= expected.sources);
                assert(p@.annotations =~= expected.annotations);
                packages.push(p);
                assert(package_views(packages@) =~= seq![p@]);
            },
            None => {
                assert(package_views(packages@) =~= Seq::<PackageView>::empty());
            },
        }
        packages
    }

    /// The declarations of the Nix file at `path` with text `content`.
    pub fn scan_content(&self, path: &str, content: &str) -> (r: Result<Vec<Package>, Error>)
        ensures
            scan_view(r) == scanned(path@, content@),
    {
        let name = name_of_file(path);
        if same_str(&name, "flake.nix") {
            let comments = match run_query(content, "(comment) @comment") {
                Ok(m) => m,
                Err(e) => { return Err(e); },
            };
            let direct = match run_query(
                content,
                "(binding (attrpath (identifier) @inputs_key) (attrset_expression (binding_set (binding (attrpath (identifier) @input_name . (identifier) @key) (string_expression (string_fragment) @url)))))",
            ) {
                Ok(m) => m,
                Err(e) => { return Err(e); },
            };
            let nested = match run_query(
                content,
                "(binding (attrpath (identifier) @inputs_key) (attrset_expression (binding_set (binding (attrpath (identifier) @input_name) (attrset_expression (binding_set (binding (attrpath (identifier) @key) (string_expression (string_fragment) @url))))))))",
            ) {
                Ok(m) => m,
                Err(e) => { return Err(e); },
            };
            let sets = match run_query(
                content,
                "(binding (attrpath (identifier) @inputs_key) (attrset_expression (binding_set (binding (attrpath (identifier) @input_name) (attrset_expression (binding_set) @attr_set)))))",
            ) {
                Ok(m) => m,
                Err(e) => { return Err(e); },
            };
            let values = match run_query(
                content,
                "(binding (attrpath (identifier) @key) (string_expression (string_fragment) @value))",
            ) {
                Ok(m) => m,
                Err(e) => { return Err(e); },
            };
            Ok(self.extract_flake_inputs(path, &comments, &direct, &nested, &sets, &values))
        } else if is_nix_file(&name) {
            let values = match run_query(
                content,
                "(binding (attrpath (identifier) @key) (string_expression (string_fragment) @value))",
            ) {
                Ok(m) => m,
                Err(e) => { return Err(e); },
            };
            let exprs = match run_query(
                content,
                "(binding (attrpath (identifier) @key) (string_expression) @url_expr)",
            ) {
                Ok(m) => m,
                Err(e) => { return Err(e); },
            };
            let lets = match run_query(
                content,
                "(let_expression (binding_set (binding (attrpath (identifier) @key) (string_expression (string_fragment) @value))))",
            ) {
                Ok(m) => m,
                Err(e) => { return Err(e); },
            };
            Ok(self.extract_package_info(path, &values, &exprs, &lets))
        } else {
            let packages: Vec<Package> = Vec::new();
            assert(package_views(packages@) =~= Seq::<PackageView>::empty());
            Ok(packages)
        }
    }

    /// Where the input with URL `url` comes from, and under which name.
    pub fn parse_flake_url(&self, url: &str) -> (r: (SourceType, String))
        ensures
            (r.0, r.1@) == flake_source(url@),
    {
        let u = to_chars(url);
        let n = u.len();
        if starts_with(&u, "github:") {
            let prefix = to_chars("github:");
            assert(u@.skip(prefix@.len() as int) =~= u@.subrange(prefix@.len() as int, n as int));
            let parts = split_on(&slice(&u, prefix.len(), n), '/');
            if parts.len() >= 2 {
                assert(views(parts@)[0] == parts@[0]@);
                assert(views(parts@)[1] == parts@[1]@);
                let mut id = copy(&parts[0]);
                push_str(&mut id, "/");
                push_all(&mut id, &parts[1]);
                return (SourceType::GitHub, from_chars(&id));
            }
        } else if starts_with(&u, "git+") {
            return (SourceType::Git, from_chars(&u));
        } else if contains_str(&u, "github.com") {
            match captures("github\\.com[/:]([^/]+)/([^/?#.]+)", url) {
                Some(g) => {
                    if g.len() > 2 {
                        match (&g[1], &g[2]) {
                            (Some(owner), Some(repo)) => {
                                let mut id = to_chars(owner.as_str());
                                push_str(&mut id, "/");
                                push_all(&mut id, &without_git_suffix(&to_chars(repo.as_str())));
                                return (SourceType::GitHub, from_chars(&id));
                            },
                            _ => {},
                        }
                    }
                },
                None => {},
            }
        }
        (SourceType::Url, from_chars(&u))
    }

    /// Where the package fetched from `url` comes from, and under which
    /// name.
    pub fn parse_package_url(&self, url: &str, package_name: &str) -> (r: (SourceType, String))
        ensures
            (r.0, r.1@) == package_source(url@, package_name@),
    {
        let u = to_chars(url);
        if contains_str(&u, "registry.npmjs.org") {
            match group("registry\\.npmjs\\.org/(@[^/]+/[^/]+|[^/@]+)(?:/-/|$)", url, 1) {
                Some(found) => (SourceType::Npm, found),
                None => (SourceType::Npm, from_chars(&to_chars(package_name))),
            }
        } else if contains_str(&u, "github.com") {
            match group("github\\.com/([^/]+/[^/]+)", url, 1) {
                Some(found) => (SourceType::GitHub, found),
                None => (SourceType::GitHub, from_chars(&to_chars(package_name))),
            }
        } else if contains_str(&u, "pypi.org") {
            (SourceType::PyPi, from_chars(&to_chars(package_name)))
        } else {
            (SourceType::Url, from_chars(&u))
        }
    }

    /// The declaration of the flake input `name` with URL `url`.
    pub fn create_flake_input_package(
        &self,
        file_path: &str,
        name: &str,
        url: &str,
        annotations: Vec<Annotation>,
    ) -> (r: Package)
        ensures
            r@ == flake_input_package(file_path@, name@, url@, annotation_views(annotations@)),
    {
        let (source_type, identifier) = self.parse_flake_url(url);
        let u = to_chars(url);
        let current_version = from_chars(&version_of_url(&u));
        let mut full = to_chars("flake-input-");
        push_str(&mut full, name);
        let mut sources: Vec<SourceHint> = Vec::new();
        sources.push(SourceHint { source_type, identifier, url: Some(from_chars(&u)) });
        let mut metadata = Options::new();
        let known = starts_with(&u, "github:") || find_str(&u, "?ref=").is_some() || contains_str(
            &u,
            "github.com",
        ) || starts_with(&u, "git+");
        if !known {
            metadata.insert(from_chars(&to_chars("url")), from_chars(&u));
        }
        let r = Package {
            path: from_chars(&to_chars(file_path)),
            file_type: FileType::Nix,
            name: from_chars(&full),
            current_version,
            sources,
            update_strategy: UpdateStrategy::Stable,
            annotations,
            metadata,
        };
        assert(r@.sources =~= flake_input_package(
            file_path@,
            name@,
            url@,
            annotation_views(annotations@),
        ).sources);
        r
    }
}

} // verus!

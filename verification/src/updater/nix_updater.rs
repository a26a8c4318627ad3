//! Rewrites the version of one declaration of a Nix file, in place.

use vstd::prelude::*;
use crate::edit::{
    all_keep_text, edit_views, keeps_text, lemma_replaced_same, replace_spans, replaced, Edit,
    EditView,
};
use crate::scanner::nix_ast_scanner::{
    attribute, direct_query, nested_query, set_input, set_query, set_url, value_query,
};
use crate::scanner::nix_query::{
    capture_named, capture_text, find_capture, lemma_capture_named, lemma_query_placed, match_view,
    match_views, nix_query, placed, run_query, Capture, CaptureView,
};
use crate::scanner::nix_ast_scanner::{
    binding_annotations, flake_input_package, flake_inputs, flake_version, flat, named,
    scanned_flake, set_pass, url_input, url_pass,
};
use crate::types::PackageView;
use crate::text::{
    copy, find, find_str, from_chars, has_prefix, join, lemma_find_from, lemma_find_is,
    lemma_join_split, lemma_split_at_separator, lemma_split_concat, lemma_split_first,
    lemma_strip_prefix, lemma_split_len, lemma_split_none, lemma_split_pieces, occurs_at, push_all,
    push_str, same, same_str, slice, split, split_on, starts_with, strip_prefix, to_chars, views,
    without_prefix,
};
use crate::types::{Error, Package};
use crate::types::result_view;

verus! {

/// What follows the value of the `ref` parameter that begins at index `at`
/// of `url`: the rest of the query from its next `&` on, or nothing.
pub open spec fn query_tail(url: Seq<char>, at: int) -> Seq<char> {
    match find(url.skip(at), seq!['&']) {
        Some(k) => url.skip(at + k),
        None => Seq::empty(),
    }
}

/// The URL `url` rewritten in its own dialect to pin `version`. A `github:`
/// shorthand gets `version` as its third segment, in place of what followed
/// the repository. A URL with `?ref=` gets `version` in place of the value
/// of that parameter, and keeps the rest of its query. Any other URL stays
/// as it is.
pub open spec fn rewritten_url(url: Seq<char>, version: Seq<char>) -> Seq<char> {
    if has_prefix(url, "github:"@) {
        let parts = split(url, '/');
        if parts.len() >= 3 {
            parts[0] + "/"@ + parts[1] + "/"@ + version
        } else if parts.len() == 2 {
            url + "/"@ + version
        } else {
            url
        }
    } else {
        match find(url, "?ref="@) {
            Some(i) => url.take(i) + "?ref="@ + version + query_tail(url, i + "?ref="@.len()),
            None => url,
        }
    }
}

/// The URL `url` with `version` as the version that it pins: the URL
/// itself where it pins `version` already, and else the URL rewritten in
/// its own dialect.
pub open spec fn flake_url_update(url: Seq<char>, version: Seq<char>) -> Seq<char> {
    if flake_version(url) == version {
        url
    } else {
        rewritten_url(url, version)
    }
}

/// The capture of the URL that a match of one of the URL queries binds for
/// the input `name`: the match has to lie in `inputs` and bind `url`.
pub open spec fn url_target(m: Seq<CaptureView>, name: Seq<char>) -> Option<CaptureView> {
    if capture_text(m, "inputs_key"@) == Some("inputs"@) && capture_text(m, "key"@) == Some(
        "url"@,
    ) && capture_text(m, "input_name"@) == Some(name) {
        capture_named(m, "url"@)
    } else {
        None
    }
}

/// The capture of the value that a key-value match binds to `version`.
pub open spec fn version_target(m: Seq<CaptureView>) -> Option<CaptureView> {
    if capture_text(m, "key"@) == Some("version"@) {
        capture_named(m, "value"@)
    } else {
        None
    }
}

/// `edits` with `e` added, unless `e` covers the span of the last one.
pub open spec fn with_edit(edits: Seq<EditView>, e: EditView) -> Seq<EditView> {
    if edits.len() > 0 && edits.last().start == e.start && edits.last().end == e.end {
        edits
    } else {
        edits.push(e)
    }
}

/// The URL of the input `name` that the first `count` matches of a URL
/// query find first. It is the one from which the scanner reads the
/// declaration.
pub open spec fn first_url(matches: Seq<Seq<CaptureView>>, name: Seq<char>, count: int) -> Option<
    CaptureView,
>
    decreases count,
{
    if count <= 0 {
        None
    } else {
        match first_url(matches, name, count - 1) {
            Some(c) => Some(c),
            None => url_target(matches[count - 1], name),
        }
    }
}

/// The edit that the first `count` matches of a URL query give for the
/// input `name`: the URL found first is replaced by its update. No URL
/// found gives no edit.
pub open spec fn url_edits(
    matches: Seq<Seq<CaptureView>>,
    name: Seq<char>,
    version: Seq<char>,
    count: int,
) -> Seq<EditView> {
    match first_url(matches, name, count) {
        Some(c) => seq![
            EditView {
                start: c.start_byte as int,
                end: c.end_byte as int,
                text: flake_url_update(c.text, version),
            },
        ],
        None => Seq::empty(),
    }
}

/// The edits that the first `count` key-value matches give for the package
/// version: each value bound to `version` is replaced by `version`.
pub open spec fn version_edits(matches: Seq<Seq<CaptureView>>, version: Seq<char>, count: int)
    -> Seq<EditView>
    decreases count,
{
    if count <= 0 {
        Seq::empty()
    } else {
        let prev = version_edits(matches, version, count - 1);
        match version_target(matches[count - 1]) {
            Some(c) => with_edit(
                prev,
                EditView { start: c.start_byte as int, end: c.end_byte as int, text: version },
            ),
            None => prev,
        }
    }
}

/// The value that the last of the first `count` key-value matches binds to
/// `key` inside the bytes from `start` to `end`, as a capture.
pub open spec fn attribute_capture(
    values: Seq<Seq<CaptureView>>,
    start: usize,
    end: usize,
    key: Seq<char>,
    count: int,
) -> Option<CaptureView>
    decreases count,
{
    if count <= 0 {
        None
    } else {
        match (
            capture_named(values[count - 1], "key"@),
            capture_named(values[count - 1], "value"@),
        ) {
            (Some(k), Some(v)) => if k.text == key && start <= k.start_byte && k.end_byte <= end {
                Some(v)
            } else {
                attribute_capture(values, start, end, key, count - 1)
            },
            _ => attribute_capture(values, start, end, key, count - 1),
        }
    }
}

/// The literal that pins the version of an input written as an attribute
/// set between `start` and `end`: the value of `ref`, for an input of type
/// `github` without a `url`. Another input has none.
pub open spec fn ref_literal(values: Seq<Seq<CaptureView>>, start: usize, end: usize) -> Option<
    CaptureView,
> {
    let n = values.len() as int;
    if attribute(values, start, end, "url"@, n) is None && attribute(
        values,
        start,
        end,
        "type"@,
        n,
    ) == Some("github"@) {
        attribute_capture(values, start, end, "ref"@, n)
    } else {
        None
    }
}

/// What a match of the attribute-set query gives for the input `name`:
/// none where the match is no declaration of that input, and else the
/// literal that pins its version, where it has one.
pub open spec fn set_target(m: Seq<CaptureView>, values: Seq<Seq<CaptureView>>, name: Seq<char>)
    -> Option<Option<CaptureView>> {
    match set_input(m) {
        Some((n, s)) => if n.text == name && set_url(values, s.start_byte, s.end_byte) is Some {
            Some(ref_literal(values, s.start_byte, s.end_byte))
        } else {
            None
        },
        None => None,
    }
}

/// What the first `count` matches of the attribute-set query give for the
/// input `name`: what the first match that declares the input gives.
pub open spec fn first_set(
    sets: Seq<Seq<CaptureView>>,
    values: Seq<Seq<CaptureView>>,
    name: Seq<char>,
    count: int,
) -> Option<Option<CaptureView>>
    decreases count,
{
    if count <= 0 {
        None
    } else {
        match first_set(sets, values, name, count - 1) {
            Some(found) => Some(found),
            None => set_target(sets[count - 1], values, name),
        }
    }
}

/// The edits that the first `count` matches of the attribute-set query give
/// for the input `name`: none where no match declares the input; else the
/// `ref` literal of the input is replaced by `version`, and an input
/// without such a literal gives no edit.
pub open spec fn set_edits(
    sets: Seq<Seq<CaptureView>>,
    values: Seq<Seq<CaptureView>>,
    name: Seq<char>,
    version: Seq<char>,
    count: int,
) -> Option<Seq<EditView>> {
    match first_set(sets, values, name, count) {
        None => None,
        Some(None) => Some(Seq::empty()),
        Some(Some(c)) => Some(
            seq![EditView { start: c.start_byte as int, end: c.end_byte as int, text: version }],
        ),
    }
}

/// The flake `content` with `version` as the version of the input `name`,
/// where the input is written with a URL: in the form `name.url = "..."`
/// first and in the form `name = { url = "..."; }` next. None where neither
/// form finds the input.
pub open spec fn updated_by_urls(content: Seq<char>, name: Seq<char>, version: Seq<char>)
    -> Option<Result<Seq<char>, Error>> {
    match nix_query(content, direct_query()) {
        Err(e) => Some(Err(e)),
        Ok(direct) => if url_edits(direct, name, version, direct.len() as int).len() > 0 {
            Some(replaced(content, url_edits(direct, name, version, direct.len() as int)))
        } else {
            match nix_query(content, nested_query()) {
                Err(e) => Some(Err(e)),
                Ok(nested) => if url_edits(nested, name, version, nested.len() as int).len() > 0 {
                    Some(replaced(content, url_edits(nested, name, version, nested.len() as int)))
                } else {
                    None
                },
            }
        },
    }
}

/// The flake `content` with `version` as the version of the input `name`,
/// where the input is written as an attribute set with a `type`: the `ref`
/// literal is replaced, and an input that has none stays as it is. The
/// mutation fails where no attribute set declares the input.
pub open spec fn updated_by_set(content: Seq<char>, name: Seq<char>, version: Seq<char>)
    -> Result<Seq<char>, Error> {
    match nix_query(content, set_query()) {
        Err(e) => Err(e),
        Ok(sets) => match nix_query(content, value_query()) {
            Err(e) => Err(e),
            Ok(values) => match set_edits(sets, values, name, version, sets.len() as int) {
                Some(edits) => replaced(content, edits),
                None => Err(Error::DeclarationNotFound),
            },
        },
    }
}

/// The flake `content` with `version` as the version of the input `name`.
/// The input is looked for in the three forms in which the scanner reads
/// it, in the same order; where none finds it the mutation fails.
pub open spec fn updated_flake(content: Seq<char>, name: Seq<char>, version: Seq<char>) -> Result<
    Seq<char>,
    Error,
> {
    match updated_by_urls(content, name, version) {
        Some(r) => r,
        None => updated_by_set(content, name, version),
    }
}

/// The package expression `content` with `version` as its version; the
/// mutation fails where nothing binds `version` to a string.
pub open spec fn updated_package(content: Seq<char>, version: Seq<char>) -> Result<
    Seq<char>,
    Error,
> {
    match nix_query(content, value_query()) {
        Err(e) => Err(e),
        Ok(values) => if version_edits(values, version, values.len() as int).len() > 0 {
            replaced(content, version_edits(values, version, values.len() as int))
        } else {
            Err(Error::DeclarationNotFound)
        },
    }
}

/// The Nix file `content` with `version` as the version of the declaration
/// `name`: a flake input for `flake-input-<input>`, the package version for
/// `package`. A declaration of another name is not found.
pub open spec fn updated_content(content: Seq<char>, name: Seq<char>, version: Seq<char>)
    -> Result<Seq<char>, Error> {
    match strip_prefix(name, "flake-input-"@) {
        Some(input) => updated_flake(content, input, version),
        None => if name == "package"@ {
            updated_package(content, version)
        } else {
            Err(Error::DeclarationNotFound)
        },
    }
}

/// The mutator for Nix files.
pub struct NixUpdater;

/// The URL `url` rewritten in its own dialect to pin `version`.
fn rewrite_url(url: &Vec<char>, version: &Vec<char>) -> (r: Vec<char>)
    ensures
        r@ == rewritten_url(url@, version@),
{
    let n = url.len();
    if starts_with(url, "github:") {
        let parts = split_on(url, '/');
        if parts.len() >= 3 {
            assert(views(parts@)[0] == parts@[0]@);
            assert(views(parts@)[1] == parts@[1]@);
            let mut r = copy(&parts[0]);
            push_str(&mut r, "/");
            push_all(&mut r, &parts[1]);
            push_str(&mut r, "/");
            push_all(&mut r, version);
            r
        } else if parts.len() == 2 {
            let mut r = copy(url);
            push_str(&mut r, "/");
            push_all(&mut r, version);
            r
        } else {
            copy(url)
        }
    } else {
        match find_str(url, "?ref=") {
            Some(i) => {
                let marker = to_chars("?ref=");
                let at: usize = i + marker.len();
                assert(url@.skip(at as int) =~= url@.subrange(at as int, n as int));
                let rest = slice(url, at, n);
                let mut r = slice(url, 0, i);
                push_str(&mut r, "?ref=");
                push_all(&mut r, version);
                let ghost head = r@;
                match crate::text::find_char(&rest, '&') {
                    Some(k) => {
                        assert(url@.skip(at + k) =~= url@.subrange(at + k, n as int));
                        push_all(&mut r, &slice(url, at + k, n));
                    },
                    None => {
                        assert(head + Seq::<char>::empty() =~= head);
                    },
                }
                r
            },
            None => copy(url),
        }
    }
}

/// The URL `url` with `version` as the version that it pins.
pub fn updated_url(url: &Vec<char>, version: &Vec<char>) -> (r: Vec<char>)
    ensures
        r@ == flake_url_update(url@, version@),
{
    if same(&crate::scanner::nix_ast_scanner::version_of_url(url), version) {
        copy(url)
    } else {
        rewrite_url(url, version)
    }
}

/// Whether the last capture of `m` named `name` has the text `expected`.
fn text_is(m: &Vec<Capture>, name: &str, expected: &Vec<char>) -> (r: bool)
    ensures
        r == (capture_text(match_view(m@), name@) == Some(expected@)),
{
    match find_capture(m, name) {
        Some(i) => same(&to_chars(m[i].text.as_str()), expected),
        None => false,
    }
}

/// Adds `e` to `edits`, unless it covers the span of the last one.
fn add_edit(edits: &mut Vec<Edit>, e: Edit)
    ensures
        edit_views(final(edits)@) == with_edit(edit_views(old(edits)@), e@),
{
    let n = edits.len();
    let ghost before = edit_views(edits@);
    if n > 0 {
        assert(before.last() == edits@[n - 1]@);
    }
    if !(n > 0 && edits[n - 1].start == e.start && edits[n - 1].end == e.end) {
        edits.push(e);
        assert(edit_views(edits@) =~= before.push(e@));
    }
}

/// The edits that the matches of a URL query give for the input `name`.
pub fn edits_for_input(matches: &Vec<Vec<Capture>>, name: &Vec<char>, version: &Vec<char>) -> (r:
    Vec<Edit>)
    ensures
        edit_views(r@) == url_edits(match_views(matches@), name@, version@, matches.len() as int),
{
    let mut edits: Vec<Edit> = Vec::new();
    let inputs = to_chars("inputs");
    let url = to_chars("url");
    let mut i: usize = 0;
    assert(edit_views(edits@) =~= Seq::<EditView>::empty());
    while i < matches.len()
        invariant
            i <= matches.len(),
            inputs@ == "inputs"@,
            url@ == "url"@,
            edits.len() == 0,
            first_url(match_views(matches@), name@, i as int) is None,
        decreases matches.len() - i,
    {
        let m = &matches[i];
        assert(match_views(matches@)[i as int] == match_view(m@));
        if text_is(m, "inputs_key", &inputs) && text_is(m, "key", &url) && text_is(
            m,
            "input_name",
            name,
        ) {
            match find_capture(m, "url") {
                Some(u) => {
                    let c = &m[u];
                    let text = updated_url(&to_chars(c.text.as_str()), version);
                    let e = Edit { start: c.start_byte, end: c.end_byte, text };
                    edits.push(e);
                    proof {
                        assert(edit_views(edits@) =~= seq![e@]);
                        lemma_first_url_stays(
                            match_views(matches@),
                            name@,
                            i + 1,
                            matches.len() as int,
                        );
                    }
                    return edits;
                },
                None => {},
            }
        }
        i += 1;
    }
    assert(edit_views(edits@) =~= Seq::<EditView>::empty());
    edits
}

/// The URL found first stays the first when more matches are looked at.
proof fn lemma_first_url_stays(matches: Seq<Seq<CaptureView>>, name: Seq<char>, from: int, to: int)
    requires
        0 <= from <= to,
        first_url(matches, name, from) is Some,
    ensures
        first_url(matches, name, to) == first_url(matches, name, from),
    decreases to - from,
{
    if from < to {
        lemma_first_url_stays(matches, name, from, to - 1);
    }
}

/// What the first match gives stays when more matches are looked at.
proof fn lemma_first_set_stays(
    sets: Seq<Seq<CaptureView>>,
    values: Seq<Seq<CaptureView>>,
    name: Seq<char>,
    from: int,
    to: int,
)
    requires
        0 <= from <= to,
        first_set(sets, values, name, from) is Some,
    ensures
        first_set(sets, values, name, to) == first_set(sets, values, name, from),
    decreases to - from,
{
    if from < to {
        lemma_first_set_stays(sets, values, name, from, to - 1);
    }
}

/// The edits that the key-value matches give for the package version.
pub fn edits_for_version(matches: &Vec<Vec<Capture>>, version: &Vec<char>) -> (r: Vec<Edit>)
    ensures
        edit_views(r@) == version_edits(match_views(matches@), version@, matches.len() as int),
{
    let mut edits: Vec<Edit> = Vec::new();
    let key = to_chars("version");
    let mut i: usize = 0;
    assert(edit_views(edits@) =~= Seq::<EditView>::empty());
    while i < matches.len()
        invariant
            i <= matches.len(),
            key@ == "version"@,
            edit_views(edits@) == version_edits(match_views(matches@), version@, i as int),
        decreases matches.len() - i,
    {
        let m = &matches[i];
        assert(match_views(matches@)[i as int] == match_view(m@));
        if text_is(m, "key", &key) {
            match find_capture(m, "value") {
                Some(v) => {
                    let c = &m[v];
                    add_edit(
                        &mut edits,
                        Edit { start: c.start_byte, end: c.end_byte, text: copy(version) },
                    );
                },
                None => {},
            }
        }
        i += 1;
    }
    edits
}

/// The value that the last key-value match binds to `key` inside the bytes
/// from `start` to `end`, as the indices of the match and of the capture.
fn find_attribute(values: &Vec<Vec<Capture>>, start: usize, end: usize, key: &str) -> (r: Option<
    (usize, usize),
>)
    ensures
        match r {
            Some((i, j)) => i < values.len() && j < values@[i as int].len() && attribute_capture(
                match_views(values@),
                start,
                end,
                key@,
                values.len() as int,
            ) == Some(values@[i as int]@[j as int]@),
            None => attribute_capture(match_views(values@), start, end, key@, values.len() as int)
                is None,
        },
{
    let mut count: usize = values.len();
    let ghost v = match_views(values@);
    let wanted = to_chars(key);
    while count > 0
        invariant
            count <= values.len(),
            v == match_views(values@),
            wanted@ == key@,
            attribute_capture(v, start, end, key@, values.len() as int) == attribute_capture(
                v,
                start,
                end,
                key@,
                count as int,
            ),
        decreases count,
    {
        let m = &values[count - 1];
        assert(v[count - 1] == match_view(m@));
        match (find_capture(m, "key"), find_capture(m, "value")) {
            (Some(k), Some(x)) => {
                if same(&to_chars(m[k].text.as_str()), &wanted) && start <= m[k].start_byte
                    && m[k].end_byte <= end {
                    return Some((count - 1, x));
                }
            },
            _ => {},
        }
        count -= 1;
    }
    None
}

/// The edits that the matches of the attribute-set query give for the input
/// `name`.
pub fn edits_for_set(
    sets: &Vec<Vec<Capture>>,
    values: &Vec<Vec<Capture>>,
    name: &Vec<char>,
    version: &Vec<char>,
) -> (r: Option<Vec<Edit>>)
    ensures
        match r {
            Some(e) => set_edits(
                match_views(sets@),
                match_views(values@),
                name@,
                version@,
                sets.len() as int,
            ) == Some(edit_views(e@)),
            None => set_edits(
                match_views(sets@),
                match_views(values@),
                name@,
                version@,
                sets.len() as int,
            ) is None,
        },
{
    let mut i: usize = 0;
    while i < sets.len()
        invariant
            i <= sets.len(),
            first_set(match_views(sets@), match_views(values@), name@, i as int) is None,
        decreases sets.len() - i,
    {
        let m = &sets[i];
        assert(match_views(sets@)[i as int] == match_view(m@));
        match crate::scanner::nix_ast_scanner::read_set_input(m) {
            Some((n, s)) => {
                let start = m[s].start_byte;
                let end = m[s].end_byte;
                if same(&to_chars(m[n].text.as_str()), name)
                    && crate::scanner::nix_ast_scanner::url_of_set(values, start, end).is_some() {
                    let mut edits: Vec<Edit> = Vec::new();
                    assert(edit_views(edits@) =~= Seq::<EditView>::empty());
                    proof {
                        lemma_first_set_stays(
                            match_views(sets@),
                            match_views(values@),
                            name@,
                            i + 1,
                            sets.len() as int,
                        );
                    }
                    let url = crate::scanner::nix_ast_scanner::read_attribute(
                        values,
                        start,
                        end,
                        "url",
                    );
                    let kind = crate::scanner::nix_ast_scanner::read_attribute(
                        values,
                        start,
                        end,
                        "type",
                    );
                    let github = match &kind {
                        Some(k) => same_str(k, "github"),
                        None => false,
                    };
                    if url.is_none() && github {
                        match find_attribute(values, start, end, "ref") {
                            Some((a, b)) => {
                                let c = &values[a][b];
                                assert(match_views(values@)[a as int] == match_view(
                                    values@[a as int]@,
                                ));
                                let e = Edit {
                                    start: c.start_byte,
                                    end: c.end_byte,
                                    text: copy(version),
                                };
                                edits.push(e);
                                assert(edit_views(edits@) =~= seq![e@]);
                            },
                            None => {},
                        }
                    }
                    return Some(edits);
                }
            },
            None => {},
        }
        i += 1;
    }
    None
}

/// The text `content` with `edits` applied, as a string.
fn replace_in(content: &Vec<char>, edits: &Vec<Edit>) -> (r: Result<String, Error>)
    ensures
        result_view(r) == replaced(content@, edit_views(edits@)),
{
    match replace_spans(content, edits) {
        Ok(v) => Ok(from_chars(&v)),
        Err(e) => Err(e),
    }
}

impl NixUpdater {
    pub fn new() -> (r: Self) {
        NixUpdater
    }

    /// The URL `old_url` with `new_version` as the version that it pins.
    pub fn update_flake_url(&self, old_url: &str, new_version: &str) -> (r: Result<String, Error>)
        ensures
            result_view(r) == Ok::<Seq<char>, Error>(flake_url_update(old_url@, new_version@)),
    {
        Ok(from_chars(&updated_url(&to_chars(old_url), &to_chars(new_version))))
    }

    /// Rewrites the URL of the flake input `input_name` in `content`.
    pub fn update_flake_input(&self, content: &str, input_name: &str, new_version: &str) -> (r:
        Result<String, Error>)
        ensures
            result_view(r) == updated_flake(content@, input_name@, new_version@),
    {
        let text = to_chars(content);
        let name = to_chars(input_name);
        let version = to_chars(new_version);
        let direct = match run_query(
            content,
            "(binding (attrpath (identifier) @inputs_key) (attrset_expression (binding_set (binding (attrpath (identifier) @input_name . (identifier) @key) (string_expression (string_fragment) @url)))))",
        ) {
            Ok(m) => m,
            Err(e) => { return Err(e); },
        };
        let first = edits_for_input(&direct, &name, &version);
        if first.len() > 0 {
            return replace_in(&text, &first);
        }
        let nested = match run_query(
            content,
            "(binding (attrpath (identifier) @inputs_key) (attrset_expression (binding_set (binding (attrpath (identifier) @input_name) (attrset_expression (binding_set (binding (attrpath (identifier) @key) (string_expression (string_fragment) @url))))))))",
        ) {
            Ok(m) => m,
            Err(e) => { return Err(e); },
        };
        let second = edits_for_input(&nested, &name, &version);
        if second.len() > 0 {
            return replace_in(&text, &second);
        }
        let sets = match run_query(
            content,
            "(binding (attrpath (identifier) @inputs_key) (attrset_expression (binding_set (binding (attrpath (identifier) @input_name) (attrset_expression (binding_set) @attr_set)))))",
        ) {
            Ok(m) => m,
            Err(e) => { return Err(e); },
        };
        let values = match run_query(
            content,
            "(binding (attrpath (identifier) @key) (string_expression (string_fragment) @value))",
        ) {
            Ok(m) => m,
            Err(e) => { return Err(e); },
        };
        match edits_for_set(&sets, &values, &name, &version) {
            Some(edits) => replace_in(&text, &edits),
            None => Err(Error::DeclarationNotFound),
        }
    }

    /// Rewrites the version of the package expression `content`.
    pub fn update_package_version(&self, content: &str, new_version: &str) -> (r: Result<
        String,
        Error,
    >)
        ensures
            result_view(r) == updated_package(content@, new_version@),
    {
        let values = match run_query(
            content,
            "(binding (attrpath (identifier) @key) (string_expression (string_fragment) @value))",
        ) {
            Ok(m) => m,
            Err(e) => { return Err(e); },
        };
        let edits = edits_for_version(&values, &to_chars(new_version));
        if edits.len() > 0 {
            replace_in(&to_chars(content), &edits)
        } else {
            Err(Error::DeclarationNotFound)
        }
    }

    /// Rewrites the version of the declaration `package` in the text
    /// `content` of a Nix file.
    pub fn update_content(&self, content: &str, package: &Package, new_version: &str) -> (r:
        Result<String, Error>)
        ensures
            result_view(r) == updated_content(content@, package.name@, new_version@),
    {
        let name = to_chars(package.name.as_str());
        match without_prefix(&name, "flake-input-") {
            Some(input) => self.update_flake_input(
                content,
                from_chars(&input).as_str(),
                new_version,
            ),
            None => {
                if same_str(&name, "package") {
                    self.update_package_version(content, new_version)
                } else {
                    Err(Error::DeclarationNotFound)
                }
            },
        }
    }
}

/// The first segment of a `github:` shorthand with a slash in it begins
/// with `github:`.
proof fn lemma_github_first_segment(url: Seq<char>)
    requires
        has_prefix(url, "github:"@),
        split(url, '/').len() >= 2,
    ensures
        split(url, '/')[0].len() >= 7,
        split(url, '/')[0].take(7) == "github:"@,
{
    reveal_strlit("github:");
    let g = "github:"@;
    let first_part = split(url, '/')[0];
    lemma_split_first(url, '/');
    assert(url.subrange(0, 7) == g);
    if first_part.len() < 7 {
        let k = first_part.len() as int;
        assert(url.subrange(0, 7)[k] == url[k]);
        assert(g[k] != '/');
    }
    assert(first_part.take(7) =~= url.subrange(0, 7));
}

/// The version read off a rewritten shorthand is the version written.
proof fn lemma_github_rewritten(url: Seq<char>, version: Seq<char>)
    requires
        has_prefix(url, "github:"@),
        split(url, '/').len() >= 2,
    ensures
        flake_version(rewritten_url(url, version)) == version,
{
    reveal_strlit("github:");
    reveal_strlit("/");
    let g = "github:"@;
    let slash = seq!['/'];
    assert("/"@ =~= slash);
    let parts = split(url, '/');
    let first_part = parts[0];
    let second_part = parts[1];
    lemma_github_first_segment(url);
    lemma_split_pieces(url, '/');
    lemma_join_split(url, '/');
    let new = rewritten_url(url, version);
    if parts.len() == 2 {
        assert(parts.drop_last() =~= seq![first_part]);
        assert(join(seq![first_part], slash) == first_part);
        assert(join(parts, slash) == join(parts.drop_last(), slash) + slash + parts.last());
        assert(join(parts, slash) == first_part + slash + second_part);
    }
    assert(new =~= first_part + slash + second_part + slash + version);
    assert(new.subrange(0, 7) =~= first_part.take(7));
    assert(has_prefix(new, g));
    let first_rest = first_part.skip(7);
    let tail = second_part + slash + version;
    assert(new.skip(7) =~= first_rest + slash + tail);
    lemma_split_at_separator(first_rest, tail, '/');
    lemma_split_at_separator(second_part, version, '/');
    assert forall|i: int| 0 <= i < first_rest.len() implies first_rest[i] != '/' by {
        assert(first_rest[i] == parts[0][i + 7]);
    }
    assert forall|i: int| 0 <= i < second_part.len() implies second_part[i] != '/' by {
        assert(second_part[i] == parts[1][i]);
    }
    lemma_split_none(first_rest, '/');
    lemma_split_none(second_part, '/');
    let sv = split(version, '/');
    lemma_split_len(version, '/');
    let all = split(new.skip(7), '/');
    assert(all =~= seq![first_rest] + (seq![second_part] + sv));
    assert(all.len() > 2);
    assert(all.skip(2) =~= sv);
    lemma_join_split(version, '/');
}

/// Round trip for the shorthand: after `version` is written into a
/// `github:owner/repo` URL, with or without a ref, the version read off the
/// URL is `version`.
pub proof fn lemma_github_round_trip(url: Seq<char>, version: Seq<char>)
    requires
        has_prefix(url, "github:"@),
        split(url, '/').len() >= 2,
    ensures
        flake_version(flake_url_update(url, version)) == version,
{
    if flake_version(url) != version {
        lemma_github_rewritten(url, version);
    }
}

/// Same version: writing into a URL the version that is read off it
/// leaves the URL as it is.
pub proof fn lemma_url_same_version(url: Seq<char>)
    ensures
        flake_url_update(url, flake_version(url)) == url,
{
}

/// A URL that does not begin with `github:` still does not after its tail
/// from index `at` on is replaced by text that begins with `?`.
proof fn lemma_no_shorthand(url: Seq<char>, at: int, tail: Seq<char>)
    requires
        !has_prefix(url, "github:"@),
        0 <= at <= url.len(),
        tail.len() > 0,
        tail[0] == '?',
    ensures
        !has_prefix(url.take(at) + tail, "github:"@),
{
    reveal_strlit("github:");
    let g = "github:"@;
    let new = url.take(at) + tail;
    if has_prefix(new, g) {
        assert(new.subrange(0, 7) == g);
        if at >= 7 {
            assert(url.subrange(0, 7) =~= new.subrange(0, 7));
        } else {
            assert(new.subrange(0, 7)[at] == new[at]);
            assert(new[at] == '?');
            assert(g[at] != '?');
        }
    }
}

/// Round trip for a URL with `?ref=`: after `version` is written into it,
/// the version read off the URL is `version`, whatever else the query
/// holds. The version must hold no `&`.
pub proof fn lemma_ref_round_trip(url: Seq<char>, version: Seq<char>)
    requires
        !has_prefix(url, "github:"@),
        find(url, "?ref="@) is Some,
        forall|k: int| 0 <= k < version.len() ==> version[k] != '&',
    ensures
        flake_version(flake_url_update(url, version)) == version,
{
    if flake_version(url) != version {
        lemma_ref_rewritten(url, version);
    }
}

/// The version read off a rewritten URL with `?ref=` is the version
/// written.
proof fn lemma_ref_rewritten(url: Seq<char>, version: Seq<char>)
    requires
        !has_prefix(url, "github:"@),
        find(url, "?ref="@) is Some,
        forall|k: int| 0 <= k < version.len() ==> version[k] != '&',
    ensures
        flake_version(rewritten_url(url, version)) == version,
{
    reveal_strlit("?ref=");
    let r = "?ref="@;
    let i = find(url, r)->0;
    lemma_find_from(url, r, 0);
    let tail = query_tail(url, i + 5);
    let new = url.take(i) + r + version + tail;
    assert(rewritten_url(url, version) == new);
    assert(new.subrange(i, i + 5) =~= r);
    assert forall|j: int| 0 <= j < i implies !occurs_at(new, r, j) by {
        if occurs_at(new, r, j) {
            assert(url.subrange(j, j + 5) =~= new.subrange(j, j + 5)) by {
                assert forall|k: int| j <= k < j + 5 implies url[k] == new[k] by {
                    if k >= i {
                        assert(url.subrange(i, i + 5)[k - i] == url[k]);
                    }
                }
            }
            assert(occurs_at(url, r, j));
        }
    }
    lemma_find_is(new, r, i);
    lemma_no_shorthand(url, i, r + version + tail);
    assert(url.take(i) + (r + version + tail) =~= new);
    assert(new.skip(i + 5) =~= version + tail);
    lemma_split_none(version, '&');
    lemma_split_concat(version, tail, '&');
    lemma_split_first(tail, '&');
    let rest = url.skip(i + 5);
    lemma_find_from(rest, seq!['&'], 0);
    if find(rest, seq!['&']) is Some {
        let k = find(rest, seq!['&'])->0;
        assert(rest.subrange(k, k + 1)[0] == rest[k]);
        assert(tail[0] == rest[k]);
        assert(tail[0] == '&');
    }
    assert(split(tail, '&')[0].len() == 0);
    assert(version + split(tail, '&')[0] =~= version);
    assert(seq![version].drop_last() =~= Seq::<Seq<char>>::empty());
}

/// An edit that puts back the text of a capture that lies in `content`
/// replaces a span by the text that it holds.
proof fn lemma_capture_keeps_text(content: Seq<char>, c: CaptureView)
    requires
        placed(content, c),
    ensures
        keeps_text(
            content,
            EditView { start: c.start_byte as int, end: c.end_byte as int, text: c.text },
        ),
{
}

proof fn lemma_version_edits_keep(
    content: Seq<char>,
    values: Seq<Seq<CaptureView>>,
    version: Seq<char>,
    count: int,
)
    requires
        0 <= count <= values.len(),
        forall|i: int, j: int|
            0 <= i < values.len() && 0 <= j < values[i].len() ==> placed(
                content,
                #[trigger] values[i][j],
            ),
        forall|i: int|
            0 <= i < values.len() ==> (version_target(#[trigger] values[i]) matches Some(c)
                ==> c.text == version),
    ensures
        all_keep_text(content, version_edits(values, version, count)),
    decreases count,
{
    if count > 0 {
        lemma_version_edits_keep(content, values, version, count - 1);
        let prev = version_edits(values, version, count - 1);
        let m = values[count - 1];
        if let Some(c) = version_target(m) {
            lemma_capture_named(m, "value"@);
            let j = choose|j: int| 0 <= j < m.len() && m[j] == c;
            assert(placed(content, values[count - 1][j]));
            lemma_capture_keeps_text(content, c);
            let e = EditView { start: c.start_byte as int, end: c.end_byte as int, text: version };
            let now = with_edit(prev, e);
            assert forall|i: int| 0 <= i < now.len() implies keeps_text(
                content,
                #[trigger] now[i],
            ) by {
                if i < prev.len() {
                    assert(now[i] == prev[i]);
                }
            }
        }
    }
}

/// Same version for a package: where every string that the file binds to
/// `version` is `version` already, a mutation to `version` that succeeds
/// gives the file back, character for character.
pub proof fn lemma_package_same_version(content: Seq<char>, version: Seq<char>)
    requires
        nix_query(content, value_query()) matches Ok(values) && forall|i: int|
            0 <= i < values.len() ==> (version_target(#[trigger] values[i]) matches Some(c)
                ==> c.text == version),
    ensures
        updated_package(content, version) is Ok ==> updated_package(content, version) == Ok::<
            Seq<char>,
            Error,
        >(content),
{
    let values = nix_query(content, value_query())->Ok_0;
    lemma_query_placed(content, value_query());
    lemma_version_edits_keep(content, values, version, values.len() as int);
    lemma_replaced_same(content, version_edits(values, version, values.len() as int));
}

/// The URL found first is a capture of one of the matches.
proof fn lemma_first_url(matches: Seq<Seq<CaptureView>>, name: Seq<char>, count: int)
    requires
        0 <= count <= matches.len(),
    ensures
        first_url(matches, name, count) matches Some(c) ==> exists|i: int, j: int|
            0 <= i < matches.len() && 0 <= j < matches[i].len() && matches[i][j] == c,
    decreases count,
{
    if count > 0 {
        lemma_first_url(matches, name, count - 1);
        if first_url(matches, name, count - 1) is None {
            let m = matches[count - 1];
            if let Some(c) = url_target(m, name) {
                lemma_capture_named(m, "url"@);
                let j = choose|j: int| 0 <= j < m.len() && m[j] == c;
                assert(matches[count - 1][j] == c);
            }
        }
    }
}

proof fn lemma_url_edits_keep(
    content: Seq<char>,
    matches: Seq<Seq<CaptureView>>,
    name: Seq<char>,
    version: Seq<char>,
)
    requires
        forall|i: int, j: int|
            0 <= i < matches.len() && 0 <= j < matches[i].len() ==> placed(
                content,
                #[trigger] matches[i][j],
            ),
        first_url(matches, name, matches.len() as int) matches Some(c) ==> flake_version(c.text)
            == version,
    ensures
        all_keep_text(content, url_edits(matches, name, version, matches.len() as int)),
{
    lemma_first_url(matches, name, matches.len() as int);
    if let Some(c) = first_url(matches, name, matches.len() as int) {
        let (i, j) = choose|i: int, j: int|
            0 <= i < matches.len() && 0 <= j < matches[i].len() && matches[i][j] == c;
        assert(placed(content, matches[i][j]));
        lemma_capture_keeps_text(content, c);
        let e = EditView {
            start: c.start_byte as int,
            end: c.end_byte as int,
            text: flake_url_update(c.text, version),
        };
        assert(seq![e][0] == e);
    }
}

/// The URL that the query `query` finds first for the input `name` in
/// `content` pins `version`.
pub open spec fn url_pins(
    content: Seq<char>,
    query: Seq<char>,
    name: Seq<char>,
    version: Seq<char>,
) -> bool {
    nix_query(content, query) matches Ok(ms) ==> (first_url(
        ms,
        name,
        ms.len() as int,
    ) matches Some(c) ==> flake_version(c.text) == version)
}

/// The query `query` finds a URL for the input `name` in `content`.
pub open spec fn found_by(content: Seq<char>, query: Seq<char>, name: Seq<char>) -> bool {
    nix_query(content, query) matches Ok(ms) && first_url(ms, name, ms.len() as int) is Some
}

/// Same version for a flake input written with a URL: where `version` is
/// the version that the URL of the input pins, a mutation to `version`
/// gives the file back, character for character, whatever the form of the
/// URL.
pub proof fn lemma_flake_same_version(content: Seq<char>, name: Seq<char>, version: Seq<char>)
    requires
        url_pins(content, direct_query(), name, version),
        found_by(content, direct_query(), name) || url_pins(
            content,
            nested_query(),
            name,
            version,
        ),
    ensures
        updated_by_urls(content, name, version) matches Some(Ok(text)) ==> text == content,
{
    if let Ok(direct) = nix_query(content, direct_query()) {
        lemma_query_placed(content, direct_query());
        lemma_url_edits_keep(content, direct, name, version);
        lemma_replaced_same(content, url_edits(direct, name, version, direct.len() as int));
        if let Ok(nested) = nix_query(content, nested_query()) {
          if !found_by(content, direct_query(), name) {
            lemma_query_placed(content, nested_query());
            lemma_url_edits_keep(content, nested, name, version);
            lemma_replaced_same(content, url_edits(nested, name, version, nested.len() as int));
          }
        }
    }
}

/// What the scanner found is found again: a match from which the scanner
/// reads an input gives the mutator the URL of that input, and the name
/// that the scanner gives to the declaration stands for the input.
pub proof fn lemma_scanned_input_is_found(m: Seq<CaptureView>)
    ensures
        match url_input(m) {
            Some((n, u)) => url_target(m, n.text) == capture_named(m, "url"@) && capture_text(
                m,
                "url"@,
            ) == Some(u) && strip_prefix("flake-input-"@ + n.text, "flake-input-"@) == Some(
                n.text,
            ),
            None => true,
        },
{
    match url_input(m) {
        Some((n, u)) => {
            lemma_strip_prefix("flake-input-"@, n.text);
        },
        None => {},
    }
}

/// Same version for a flake input written as an attribute set: where the
/// `ref` literal of the input holds `version` already, a mutation to
/// `version` gives the file back, character for character; and so does any
/// mutation of an input that has no `ref` literal.
pub proof fn lemma_set_same_version(content: Seq<char>, name: Seq<char>, version: Seq<char>)
    requires
        nix_query(content, set_query()) matches Ok(sets) && nix_query(
            content,
            value_query(),
        ) matches Ok(values) && (first_set(sets, values, name, sets.len() as int) matches Some(
            Some(c),
        ) ==> c.text == version),
    ensures
        updated_by_set(content, name, version) matches Ok(text) ==> text == content,
{
    let sets = nix_query(content, set_query())->Ok_0;
    let values = nix_query(content, value_query())->Ok_0;
    lemma_query_placed(content, value_query());
    lemma_first_set(sets, values, name, sets.len() as int);
    if let Some(edits) = set_edits(sets, values, name, version, sets.len() as int) {
        if let Some(Some(c)) = first_set(sets, values, name, sets.len() as int) {
            let (i, j) = choose|i: int, j: int|
                0 <= i < values.len() && 0 <= j < values[i].len() && values[i][j] == c;
            assert(placed(content, values[i][j]));
            lemma_capture_keeps_text(content, c);
            assert(edits[0] == (EditView {
                start: c.start_byte as int,
                end: c.end_byte as int,
                text: version,
            }));
        }
        lemma_replaced_same(content, edits);
    }
}

/// The value that a key finds is a capture of one of the matches.
proof fn lemma_attribute_capture(
    values: Seq<Seq<CaptureView>>,
    start: usize,
    end: usize,
    key: Seq<char>,
    count: int,
)
    requires
        0 <= count <= values.len(),
    ensures
        attribute_capture(values, start, end, key, count) matches Some(c) ==> exists|
            i: int,
            j: int,
        | 0 <= i < values.len() && 0 <= j < values[i].len() && values[i][j] == c,
    decreases count,
{
    if count > 0 {
        lemma_attribute_capture(values, start, end, key, count - 1);
        let m = values[count - 1];
        lemma_capture_named(m, "value"@);
        if let Some(c) = attribute_capture(values, start, end, key, count) {
            if capture_named(m, "value"@) == Some(c) {
                let j = choose|j: int| 0 <= j < m.len() && m[j] == c;
                assert(values[count - 1][j] == c);
            }
        }
    }
}

/// The literal that the first match gives is a capture of one of the
/// key-value matches.
proof fn lemma_first_set(
    sets: Seq<Seq<CaptureView>>,
    values: Seq<Seq<CaptureView>>,
    name: Seq<char>,
    count: int,
)
    requires
        0 <= count <= sets.len(),
    ensures
        first_set(sets, values, name, count) matches Some(Some(c)) ==> exists|i: int, j: int|
            0 <= i < values.len() && 0 <= j < values[i].len() && values[i][j] == c,
    decreases count,
{
    if count > 0 {
        lemma_first_set(sets, values, name, count - 1);
        if first_set(sets, values, name, count - 1) is None {
            if let Some(Some(c)) = set_target(sets[count - 1], values, name) {
                let (n, s) = set_input(sets[count - 1])->0;
                lemma_attribute_capture(
                    values,
                    s.start_byte,
                    s.end_byte,
                    "ref"@,
                    values.len() as int,
                );
            }
        }
    }
}

/// One of `packages` has the name `name`, and each that has it pins
/// `version`.
pub open spec fn pinned(packages: Seq<PackageView>, name: Seq<char>, version: Seq<char>) -> bool {
    named(packages, name) && forall|i: int|
        0 <= i < packages.len() && (#[trigger] packages[i]).name == name
            ==> packages[i].current_version == version
}

proof fn lemma_pinned_push(
    packages: Seq<PackageView>,
    p: PackageView,
    name: Seq<char>,
    version: Seq<char>,
)
    requires
        pinned(packages, name, version),
        p.name != name,
    ensures
        pinned(packages.push(p), name, version),
{
    let q = packages.push(p);
    assert(q.drop_last() =~= packages);
    assert forall|i: int| 0 <= i < q.len() && (#[trigger] q[i]).name == name implies q[i].current_version
        == version by {
        if i < packages.len() {
            assert(q[i] == packages[i]);
        }
    }
}

proof fn lemma_url_pass_keeps(
    path: Seq<char>,
    comments: Seq<CaptureView>,
    matches: Seq<Seq<CaptureView>>,
    count: int,
    start: Seq<PackageView>,
    name: Seq<char>,
    version: Seq<char>,
)
    requires
        pinned(start, name, version),
    ensures
        pinned(url_pass(path, comments, matches, count, start), name, version),
    decreases count,
{
    if count > 0 {
        lemma_url_pass_keeps(path, comments, matches, count - 1, start, name, version);
        let prev = url_pass(path, comments, matches, count - 1, start);
        match url_input(matches[count - 1]) {
            Some((n, u)) => {
                if !named(prev, "flake-input-"@ + n.text) {
                    lemma_pinned_push(
                        prev,
                        flake_input_package(path, n.text, u, binding_annotations(comments, n.row)),
                        name,
                        version,
                    );
                }
            },
            None => {},
        }
    }
}

proof fn lemma_set_pass_keeps(
    path: Seq<char>,
    comments: Seq<CaptureView>,
    values: Seq<Seq<CaptureView>>,
    matches: Seq<Seq<CaptureView>>,
    count: int,
    start: Seq<PackageView>,
    name: Seq<char>,
    version: Seq<char>,
)
    requires
        pinned(start, name, version),
    ensures
        pinned(set_pass(path, comments, values, matches, count, start), name, version),
    decreases count,
{
    if count > 0 {
        lemma_set_pass_keeps(path, comments, values, matches, count - 1, start, name, version);
        let prev = set_pass(path, comments, values, matches, count - 1, start);
        match set_input(matches[count - 1]) {
            Some((n, s)) => match set_url(values, s.start_byte, s.end_byte) {
                Some(u) => {
                    if !named(prev, "flake-input-"@ + n.text) {
                        lemma_pinned_push(
                            prev,
                            flake_input_package(
                                path,
                                n.text,
                                u,
                                binding_annotations(comments, n.row),
                            ),
                            name,
                            version,
                        );
                    }
                },
                None => {},
            },
            None => {},
        }
    }
}

/// After a URL pass that began without the input, the input is declared
/// with the version of the URL found first, and is not declared where no
/// URL was found.
proof fn lemma_url_pass_declares(
    path: Seq<char>,
    comments: Seq<CaptureView>,
    matches: Seq<Seq<CaptureView>>,
    count: int,
    start: Seq<PackageView>,
    input: Seq<char>,
)
    requires
        !named(start, "flake-input-"@ + input),
    ensures
        match first_url(matches, input, count) {
            Some(c) => pinned(
                url_pass(path, comments, matches, count, start),
                "flake-input-"@ + input,
                flake_version(c.text),
            ),
            None => !named(url_pass(path, comments, matches, count, start), "flake-input-"@ + input),
        },
    decreases count,
{
    let full = "flake-input-"@ + input;
    if count > 0 {
        lemma_url_pass_declares(path, comments, matches, count - 1, start, input);
        let prev = url_pass(path, comments, matches, count - 1, start);
        let now = url_pass(path, comments, matches, count, start);
        match first_url(matches, input, count - 1) {
            Some(c) => {
                match url_input(matches[count - 1]) {
                    Some((n, u)) => {
                        if !named(prev, "flake-input-"@ + n.text) {
                            lemma_pinned_push(
                                prev,
                                flake_input_package(
                                    path,
                                    n.text,
                                    u,
                                    binding_annotations(comments, n.row),
                                ),
                                full,
                                flake_version(c.text),
                            );
                        }
                    },
                    None => {},
                }
            },
            None => {
                match url_input(matches[count - 1]) {
                    Some((n, u)) => {
                        lemma_strip_prefix("flake-input-"@, n.text);
                        lemma_strip_prefix("flake-input-"@, input);
                        let p = flake_input_package(
                            path,
                            n.text,
                            u,
                            binding_annotations(comments, n.row),
                        );
                        if n.text == input {
                            assert(now == prev.push(p));
                            assert(now.drop_last() =~= prev);
                            crate::scanner::nix_ast_scanner::lemma_not_named(prev, full);
                            assert forall|i: int|
                                0 <= i < now.len() && (#[trigger] now[i]).name == full implies now[i].current_version
                                == flake_version(u) by {
                                if i < prev.len() {
                                    assert(now[i] == prev[i]);
                                }
                            }
                        } else {
                            assert(p.name != full);
                            if !named(prev, p.name) {
                                assert(now.drop_last() =~= prev);
                            }
                        }
                    },
                    None => {},
                }
            },
        }
    }
}

/// The version of a scanned input is the version that the mutator reads:
/// a declaration of the input `input` that the scan of a flake gives pins
/// the version of the URL that the mutator finds first for that input.
pub proof fn lemma_scanned_version(
    path: Seq<char>,
    comments: Seq<Seq<CaptureView>>,
    direct: Seq<Seq<CaptureView>>,
    nested: Seq<Seq<CaptureView>>,
    sets: Seq<Seq<CaptureView>>,
    values: Seq<Seq<CaptureView>>,
    input: Seq<char>,
)
    ensures
        first_url(direct, input, direct.len() as int) matches Some(c) ==> pinned(
            flake_inputs(path, comments, direct, nested, sets, values),
            "flake-input-"@ + input,
            flake_version(c.text),
        ),
        first_url(direct, input, direct.len() as int) is None ==> (first_url(
            nested,
            input,
            nested.len() as int,
        ) matches Some(c) ==> pinned(
            flake_inputs(path, comments, direct, nested, sets, values),
            "flake-input-"@ + input,
            flake_version(c.text),
        )),
{
    let full = "flake-input-"@ + input;
    let c = flat(comments);
    let first = url_pass(path, c, direct, direct.len() as int, Seq::empty());
    let second = url_pass(path, c, nested, nested.len() as int, first);
    lemma_url_pass_declares(path, c, direct, direct.len() as int, Seq::empty(), input);
    match first_url(direct, input, direct.len() as int) {
        Some(u) => {
            lemma_url_pass_keeps(
                path,
                c,
                nested,
                nested.len() as int,
                first,
                full,
                flake_version(u.text),
            );
            lemma_set_pass_keeps(
                path,
                c,
                values,
                sets,
                sets.len() as int,
                second,
                full,
                flake_version(u.text),
            );
        },
        None => {
            lemma_url_pass_declares(path, c, nested, nested.len() as int, first, input);
            if let Some(u) = first_url(nested, input, nested.len() as int) {
                lemma_set_pass_keeps(
                    path,
                    c,
                    values,
                    sets,
                    sets.len() as int,
                    second,
                    full,
                    flake_version(u.text),
                );
            }
        },
    }
}

/// Same version after a scan: where the scan of a flake declares the input
/// `input` and the mutator finds it by its URL, a mutation to the version
/// of that declaration gives the file back, character for character.
pub proof fn lemma_scanned_flake_same_version(
    path: Seq<char>,
    content: Seq<char>,
    input: Seq<char>,
    index: int,
)
    requires
        scanned_flake(path, content) matches Ok(packages) && 0 <= index < packages.len()
            && packages[index].name == "flake-input-"@ + input,
    ensures
        updated_by_urls(
            content,
            input,
            scanned_flake(path, content)->Ok_0[index].current_version,
        ) matches Some(Ok(text)) ==> text == content,
{
    let packages = scanned_flake(path, content)->Ok_0;
    let version = packages[index].current_version;
    let comments = nix_query(content, crate::scanner::nix_ast_scanner::comment_query())->Ok_0;
    let direct = nix_query(content, direct_query())->Ok_0;
    let nested = nix_query(content, nested_query())->Ok_0;
    let sets = nix_query(content, set_query())->Ok_0;
    let values = nix_query(content, value_query())->Ok_0;
    lemma_scanned_version(path, comments, direct, nested, sets, values, input);
    lemma_flake_same_version(content, input, version);
}

} // verus!

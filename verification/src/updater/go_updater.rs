//! Rewrites the version of one `require` or `replace` line of a `go.mod`.

use vstd::prelude::*;
use crate::text::{
    copy, find, find_str, from_chars, has_prefix, is_space, is_whitespace, join, join_from,
    opt_chars, push_all, same, same_str, slice, split, split_on, starts_with, strip_prefix,
    to_chars, trim, trimmed, views, without_prefix,
};
use crate::types::{opt_view, result_view, Error, Package};

verus! {

/// The part of `line` before its `//` comment.
pub open spec fn code_part(line: Seq<char>) -> Seq<char> {
    match find(line, "//"@) {
        Some(i) => line.take(i),
        None => line,
    }
}

/// The first index at or after `from` at which `s` holds no white space, or
/// the length of `s`.
pub open spec fn word_start(s: Seq<char>, from: int) -> int
    decreases s.len() - from,
{
    if 0 <= from < s.len() && is_space(s[from]) {
        word_start(s, from + 1)
    } else {
        from
    }
}

/// The first index at or after `from` at which `s` holds white space, or
/// the length of `s`.
pub open spec fn word_end(s: Seq<char>, from: int) -> int
    decreases s.len() - from,
{
    if 0 <= from < s.len() && !is_space(s[from]) {
        word_end(s, from + 1)
    } else {
        from
    }
}

/// Where word number `k` of those that begin at or after `from` stands in
/// `s`: the index of its first character and the index after its last.
/// There is such a word where the first index is below the length of `s`.
pub open spec fn word_span(s: Seq<char>, k: nat, from: int) -> (int, int)
    decreases k,
{
    let a = word_start(s, from);
    let b = word_end(s, a);
    if k == 0 {
        (a, b)
    } else {
        word_span(s, (k - 1) as nat, b)
    }
}

/// Word number `k` of `s`, where `s` has that many words.
pub open spec fn word(s: Seq<char>, k: nat) -> Option<Seq<char>> {
    if word_span(s, k, 0).0 < s.len() {
        Some(s.subrange(word_span(s, k, 0).0, word_span(s, k, 0).1))
    } else {
        None
    }
}

/// How a version is written in a `go.mod`: with `v` before it, where it
/// does not begin with one.
pub open spec fn version_token(version: Seq<char>) -> Seq<char> {
    if has_prefix(version, "v"@) {
        version
    } else {
        "v"@ + version
    }
}

/// `line` with word number `k` of its code part replaced by the token of
/// `version`. Every other character of the line stays.
pub open spec fn with_token(line: Seq<char>, k: nat, version: Seq<char>) -> Seq<char> {
    line.take(word_span(code_part(line), k, 0).0) + version_token(version) + line.skip(
        word_span(code_part(line), k, 0).1,
    )
}

/// The `require` line `line` with `version` as the version of `module`, or
/// none where the line does not require `module`. The line names the module
/// as its first word and the version as its second, or, behind the word
/// `require`, as its second and third. Only the version is rewritten.
pub open spec fn require_line_update(line: Seq<char>, module: Seq<char>, version: Seq<char>)
    -> Option<Seq<char>> {
    let code = code_part(line);
    if word(code, 1) is Some && word(code, 0) == Some(module) {
        Some(with_token(line, 1, version))
    } else if word(code, 2) is Some && word(code, 0) == Some("require"@) && word(code, 1)
        == Some(module) {
        Some(with_token(line, 2, version))
    } else {
        None
    }
}

/// The `replace` line `line` with `version` as the version of the
/// replacement, or none where the line is no replacement of `module` with a
/// version: its words are `replace`, the module, its version where it has
/// one, `=>`, the replacement and the version of the replacement. Only
/// that last version is rewritten.
pub open spec fn replace_line_update(line: Seq<char>, module: Seq<char>, version: Seq<char>)
    -> Option<Seq<char>> {
    let code = code_part(line);
    if word(code, 0) == Some("replace"@) && word(code, 1) == Some(module) {
        if word(code, 2) == Some("=>"@) && word(code, 4) is Some {
            Some(with_token(line, 4, version))
        } else if word(code, 2) != Some("=>"@) && word(code, 3) == Some("=>"@) && word(code, 5)
            is Some {
            Some(with_token(line, 5, version))
        } else {
            None
        }
    } else {
        None
    }
}

/// The module that the declaration `name` requires: what follows `module-`
/// in the name, or the name itself where it begins with neither `module-`
/// nor `replace-`.
pub open spec fn required_module(name: Seq<char>) -> Option<Seq<char>> {
    if strip_prefix(name, "module-"@) is Some {
        strip_prefix(name, "module-"@)
    } else if strip_prefix(name, "replace-"@) is Some {
        None
    } else {
        Some(name)
    }
}

/// The rewritten form of one line of the file, or none where the line stays
/// as it is. `in_block` tells whether the line stands inside `require ( )`.
pub open spec fn line_update(line: Seq<char>, in_block: bool, name: Seq<char>, version: Seq<char>)
    -> Option<Seq<char>> {
    let t = trim(line);
    if t == "require ("@ || (in_block && t == ")"@) {
        None
    } else if in_block || has_prefix(t, "require "@) {
        match required_module(name) {
            Some(module) => require_line_update(line, module, version),
            None => None,
        }
    } else if has_prefix(t, "replace "@) {
        match strip_prefix(name, "replace-"@) {
            Some(module) => replace_line_update(line, module, version),
            None => None,
        }
    } else {
        None
    }
}

/// Whether the line after `line` stands inside `require ( )`.
pub open spec fn block_after(line: Seq<char>, in_block: bool) -> bool {
    let t = trim(line);
    if t == "require ("@ {
        true
    } else if in_block && t == ")"@ {
        false
    } else {
        in_block
    }
}

/// The outcome of rewriting some lines of a file.
pub struct Rewrite {
    /// The lines, rewritten where they name the declaration.
    pub lines: Seq<Seq<char>>,
    /// Whether the next line stands inside `require ( )`.
    pub in_block: bool,
    /// Whether some line named the declaration.
    pub found: bool,
}

/// The outcome of rewriting `lines` for the declaration `name`.
pub open spec fn rewrite(lines: Seq<Seq<char>>, name: Seq<char>, version: Seq<char>) -> Rewrite
    decreases lines.len(),
{
    if lines.len() == 0 {
        Rewrite { lines: Seq::empty(), in_block: false, found: false }
    } else {
        let prev = rewrite(lines.drop_last(), name, version);
        let line = lines.last();
        let update = line_update(line, prev.in_block, name, version);
        Rewrite {
            lines: prev.lines.push(
                match update {
                    Some(u) => u,
                    None => line,
                },
            ),
            in_block: block_after(line, prev.in_block),
            found: prev.found || update is Some,
        }
    }
}

/// The file `content` with `version` as the version of the declaration
/// `name`: what stands between the line feeds of the file, each piece
/// rewritten where it names the declaration, with the line feeds between
/// them as before. Where no line names it the mutation fails.
pub open spec fn updated_content(content: Seq<char>, name: Seq<char>, version: Seq<char>)
    -> Result<Seq<char>, Error> {
    let r = rewrite(split(content, '\n'), name, version);
    if r.found {
        Ok(join(r.lines, "\n"@))
    } else {
        Err(Error::DeclarationNotFound)
    }
}

/// The mutator for `go.mod`.
pub struct GoUpdater;

/// Where the word that begins at or after `from` stands in `s`.
fn scan_word(s: &Vec<char>, from: usize) -> (r: (usize, usize))
    requires
        from <= s.len(),
    ensures
        r.0 == word_start(s@, from as int),
        r.1 == word_end(s@, r.0 as int),
        from <= r.0 <= r.1 <= s.len(),
{
    let mut a: usize = from;
    while a < s.len() && is_whitespace(s[a])
        invariant
            from <= a <= s.len(),
            word_start(s@, from as int) == word_start(s@, a as int),
        decreases s.len() - a,
    {
        a += 1;
    }
    let mut b: usize = a;
    while b < s.len() && !is_whitespace(s[b])
        invariant
            a <= b <= s.len(),
            word_end(s@, a as int) == word_end(s@, b as int),
        decreases s.len() - b,
    {
        b += 1;
    }
    (a, b)
}

/// Where word number `k` stands in `s`.
fn nth_word(s: &Vec<char>, k: usize) -> (r: (usize, usize))
    ensures
        (r.0 as int, r.1 as int) == word_span(s@, k as nat, 0),
        r.0 <= r.1 <= s.len(),
{
    let mut from: usize = 0;
    let mut i: usize = 0;
    while i < k
        invariant
            i <= k,
            from <= s.len(),
            word_span(s@, k as nat, 0) == word_span(s@, (k - i) as nat, from as int),
        decreases k - i,
    {
        let (_, b) = scan_word(s, from);
        from = b;
        i += 1;
    }
    scan_word(s, from)
}

/// Whether word number `k` of `s` is `expected`.
fn word_is(s: &Vec<char>, k: usize, expected: &Vec<char>) -> (r: bool)
    ensures
        r == (word(s@, k as nat) == Some(expected@)),
{
    let (a, b) = nth_word(s, k);
    a < s.len() && same(&slice(s, a, b), expected)
}

/// Whether `s` has a word number `k`.
fn has_word(s: &Vec<char>, k: usize) -> (r: bool)
    ensures
        r == word(s@, k as nat) is Some,
{
    let (a, _) = nth_word(s, k);
    a < s.len()
}

/// How a version is written in a `go.mod`.
pub fn token_of(version: &Vec<char>) -> (r: Vec<char>)
    ensures
        r@ == version_token(version@),
{
    if starts_with(version, "v") {
        copy(version)
    } else {
        let mut r = to_chars("v");
        push_all(&mut r, version);
        r
    }
}

/// The part of `line` before its `//` comment.
fn code_of(line: &Vec<char>) -> (r: Vec<char>)
    ensures
        r@ == code_part(line@),
        r.len() <= line.len(),
{
    match find_str(line, "//") {
        Some(i) => slice(line, 0, i),
        None => copy(line),
    }
}

/// `line` with word number `k` of its code part replaced by the token of
/// `version`.
fn put_token(line: &Vec<char>, code: &Vec<char>, k: usize, version: &Vec<char>) -> (r: Vec<char>)
    requires
        code@ == code_part(line@),
        code.len() <= line.len(),
    ensures
        r@ == with_token(line@, k as nat, version@),
{
    let n = line.len();
    let (a, b) = nth_word(code, k);
    assert(line@.skip(b as int) =~= line@.subrange(b as int, n as int));
    let mut r = slice(line, 0, a);
    push_all(&mut r, &token_of(version));
    push_all(&mut r, &slice(line, b, n));
    r
}

fn require_update(line: &Vec<char>, module: &Vec<char>, version: &Vec<char>) -> (r: Option<
    Vec<char>,
>)
    ensures
        opt_chars(r) == require_line_update(line@, module@, version@),
{
    let code = code_of(line);
    let keyword = to_chars("require");
    if has_word(&code, 1) && word_is(&code, 0, module) {
        Some(put_token(line, &code, 1, version))
    } else if has_word(&code, 2) && word_is(&code, 0, &keyword) && word_is(&code, 1, module) {
        Some(put_token(line, &code, 2, version))
    } else {
        None
    }
}

fn replace_update(line: &Vec<char>, module: &Vec<char>, version: &Vec<char>) -> (r: Option<
    Vec<char>,
>)
    ensures
        opt_chars(r) == replace_line_update(line@, module@, version@),
{
    let code = code_of(line);
    let keyword = to_chars("replace");
    let arrow = to_chars("=>");
    if word_is(&code, 0, &keyword) && word_is(&code, 1, module) {
        if word_is(&code, 2, &arrow) {
            if has_word(&code, 4) {
                Some(put_token(line, &code, 4, version))
            } else {
                None
            }
        } else if word_is(&code, 3, &arrow) && has_word(&code, 5) {
            Some(put_token(line, &code, 5, version))
        } else {
            None
        }
    } else {
        None
    }
}

/// The module that the declaration `name` requires.
fn module_of(name: &Vec<char>) -> (r: Option<Vec<char>>)
    ensures
        opt_chars(r) == required_module(name@),
{
    match without_prefix(name, "module-") {
        Some(module) => Some(module),
        None => {
            if without_prefix(name, "replace-").is_some() {
                None
            } else {
                Some(copy(name))
            }
        },
    }
}

fn update_line(line: &Vec<char>, in_block: bool, name: &Vec<char>, version: &Vec<char>) -> (r:
    Option<Vec<char>>)
    ensures
        opt_chars(r) == line_update(line@, in_block, name@, version@),
{
    let t = trimmed(line);
    if same_str(&t, "require (") || (in_block && same_str(&t, ")")) {
        None
    } else if in_block || starts_with(&t, "require ") {
        match module_of(name) {
            Some(module) => require_update(line, &module, version),
            None => None,
        }
    } else if starts_with(&t, "replace ") {
        match without_prefix(name, "replace-") {
            Some(module) => replace_update(line, &module, version),
            None => None,
        }
    } else {
        None
    }
}

impl GoUpdater {
    pub fn new() -> (r: Self) {
        GoUpdater
    }

    /// Rewrites one `require` line for the declaration `package`, whose name
    /// is the module path, with or without `module-` before it.
    pub fn update_require_line(&self, line: &str, package: &Package, new_version: &str) -> (r:
        Option<String>)
        ensures
            opt_view(r) == match required_module(package.name@) {
                Some(module) => require_line_update(line@, module, new_version@),
                None => None,
            },
    {
        let name = to_chars(package.name.as_str());
        match module_of(&name) {
            Some(module) => {
                match require_update(&to_chars(line), &module, &to_chars(new_version)) {
                    Some(u) => Some(from_chars(&u)),
                    None => None,
                }
            },
            None => None,
        }
    }

    /// Rewrites one `replace` line for the declaration `package`, whose name
    /// is `replace-` followed by the path of the replaced module.
    pub fn update_replace_line(&self, line: &str, package: &Package, new_version: &str) -> (r:
        Option<String>)
        ensures
            opt_view(r) == match strip_prefix(package.name@, "replace-"@) {
                Some(module) => replace_line_update(line@, module, new_version@),
                None => None,
            },
    {
        let name = to_chars(package.name.as_str());
        match without_prefix(&name, "replace-") {
            Some(module) => {
                match replace_update(&to_chars(line), &module, &to_chars(new_version)) {
                    Some(u) => Some(from_chars(&u)),
                    None => None,
                }
            },
            None => None,
        }
    }

    /// Rewrites the version of the declaration `package` in the text
    /// `content` of a `go.mod`.
    pub fn update_content(&self, content: &str, package: &Package, new_version: &str) -> (r:
        Result<String, Error>)
        ensures
            result_view(r) == updated_content(content@, package.name@, new_version@),
    {
        let name = to_chars(package.name.as_str());
        let version = to_chars(new_version);
        let source = split_on(&to_chars(content), '\n');
        let mut out: Vec<Vec<char>> = Vec::new();
        let mut in_block = false;
        let mut found = false;
        let mut i: usize = 0;
        assert(views(source@).take(0) =~= Seq::<Seq<char>>::empty());
        assert(views(out@) =~= Seq::<Seq<char>>::empty());
        while i < source.len()
            invariant
                i <= source.len(),
                rewrite(views(source@).take(i as int), name@, version@) == (Rewrite {
                    lines: views(out@),
                    in_block,
                    found,
                }),
            decreases source.len() - i,
        {
            let line = &source[i];
            let ghost before = views(out@);
            proof {
                assert(views(source@).take(i + 1).drop_last() =~= views(source@).take(i as int));
                assert(views(source@).take(i + 1).last() == line@);
            }
            let update = update_line(line, in_block, &name, &version);
            let t = trimmed(line);
            let next_block = if same_str(&t, "require (") {
                true
            } else if in_block && same_str(&t, ")") {
                false
            } else {
                in_block
            };
            match update {
                Some(u) => {
                    found = true;
                    out.push(u);
                    assert(views(out@) =~= before.push(u@));
                },
                None => {
                    out.push(copy(line));
                    assert(views(out@) =~= before.push(line@));
                },
            }
            in_block = next_block;
            i += 1;
        }
        assert(views(source@).take(source.len() as int) =~= views(source@));
        if found {
            assert(views(out@).skip(0) =~= views(out@));
            Ok(from_chars(&join_from(&out, 0, "\n")))
        } else {
            Err(Error::DeclarationNotFound)
        }
    }
}

/// Whether the first `count` lines leave the next line inside
/// `require ( )`.
pub open spec fn in_block_after(lines: Seq<Seq<char>>, count: int) -> bool
    decreases count,
{
    if count <= 0 {
        false
    } else {
        block_after(lines[count - 1], in_block_after(lines, count - 1))
    }
}

/// The rewriting of the first `count` lines is the rewriting of the list
/// cut after them.
proof fn lemma_rewrite_take(
    lines: Seq<Seq<char>>,
    name: Seq<char>,
    version: Seq<char>,
    count: int,
)
    requires
        0 <= count <= lines.len(),
    ensures
        rewrite(lines.take(count), name, version).lines.len() == count,
        rewrite(lines.take(count), name, version).in_block == in_block_after(lines, count),
        count > 0 ==> rewrite(lines.take(count), name, version).lines.drop_last() == rewrite(
            lines.take(count - 1),
            name,
            version,
        ).lines,
    decreases count,
{
    if count > 0 {
        lemma_rewrite_take(lines, name, version, count - 1);
        assert(lines.take(count).drop_last() =~= lines.take(count - 1));
        assert(lines.take(count).last() == lines[count - 1]);
        let now = rewrite(lines.take(count), name, version).lines;
        let prev = rewrite(lines.take(count - 1), name, version).lines;
        assert(now.drop_last() =~= prev);
    } else {
        assert(lines.take(0) =~= Seq::<Seq<char>>::empty());
    }
}

/// Line for line: the rewritten file has as many lines as the file had; a
/// line that names the declaration is rewritten, and every other line is
/// copied through as it was.
pub proof fn lemma_other_lines_stay(
    lines: Seq<Seq<char>>,
    name: Seq<char>,
    version: Seq<char>,
    index: int,
)
    requires
        0 <= index < lines.len(),
    ensures
        rewrite(lines, name, version).lines.len() == lines.len(),
        rewrite(lines, name, version).lines[index] == match line_update(
            lines[index],
            in_block_after(lines, index),
            name,
            version,
        ) {
            Some(u) => u,
            None => lines[index],
        },
    decreases lines.len() - index,
{
    let n = lines.len() as int;
    assert(lines.take(n) =~= lines);
    lemma_rewrite_take(lines, name, version, n);
    lemma_rewrite_take(lines, name, version, index + 1);
    lemma_rewrite_take(lines, name, version, index);
    assert(lines.take(index + 1).drop_last() =~= lines.take(index));
    assert(lines.take(index + 1).last() == lines[index]);
    lemma_rewrite_prefix(lines, name, version, index + 1, n);
}

/// Rewriting more lines does not change what the lines before them were
/// rewritten to.
proof fn lemma_rewrite_prefix(
    lines: Seq<Seq<char>>,
    name: Seq<char>,
    version: Seq<char>,
    count: int,
    more: int,
)
    requires
        0 <= count <= more <= lines.len(),
    ensures
        rewrite(lines.take(more), name, version).lines.take(count) == rewrite(
            lines.take(count),
            name,
            version,
        ).lines,
    decreases more - count,
{
    lemma_rewrite_take(lines, name, version, more);
    lemma_rewrite_take(lines, name, version, count);
    let big = rewrite(lines.take(more), name, version).lines;
    if count == more {
        assert(big.take(count) =~= big);
    } else {
        lemma_rewrite_prefix(lines, name, version, count, more - 1);
        let smaller = rewrite(lines.take(more - 1), name, version).lines;
        assert(big.drop_last() == smaller);
        assert(big.take(count) =~= smaller.take(count));
    }
}

/// Only the version changes: a `require` line that is rewritten keeps
/// every character before its version and every character after it, and a
/// line whose version is written as the token of `version` already comes
/// back as it was.
pub proof fn lemma_only_the_version_changes(line: Seq<char>, k: nat, version: Seq<char>)
    requires
        word(code_part(line), k) is Some,
    ensures
        with_token(line, k, version).take(word_span(code_part(line), k, 0).0) == line.take(
            word_span(code_part(line), k, 0).0,
        ),
        with_token(line, k, version).skip(
            word_span(code_part(line), k, 0).0 + version_token(version).len(),
        ) == line.skip(word_span(code_part(line), k, 0).1),
        word(code_part(line), k) == Some(version_token(version)) ==> with_token(line, k, version)
            == line,
{
    let code = code_part(line);
    let a = word_span(code, k, 0).0;
    let b = word_span(code, k, 0).1;
    lemma_word_span(code, k, 0);
    assert(code.len() <= line.len()) by {
        crate::text::lemma_find_from(line, "//"@, 0);
    }
    let out = with_token(line, k, version);
    assert(out.take(a) =~= line.take(a));
    assert(out.skip(a + version_token(version).len()) =~= line.skip(b));
    if word(code, k) == Some(version_token(version)) {
        assert(code.subrange(a, b) =~= line.subrange(a, b)) by {
            crate::text::lemma_find_from(line, "//"@, 0);
        }
        assert(line.take(a) + line.subrange(a, b) + line.skip(b) =~= line);
    }
}

/// A word lies in the text: its span begins at or after `from` and ends at
/// or before the end of the text.
pub proof fn lemma_word_span(s: Seq<char>, k: nat, from: int)
    requires
        0 <= from <= s.len(),
    ensures
        from <= word_span(s, k, from).0 <= word_span(s, k, from).1 <= s.len(),
    decreases k,
{
    lemma_word_start(s, from);
    lemma_word_end(s, word_start(s, from));
    if k > 0 {
        lemma_word_span(s, (k - 1) as nat, word_end(s, word_start(s, from)));
    }
}

proof fn lemma_word_start(s: Seq<char>, from: int)
    requires
        0 <= from <= s.len(),
    ensures
        from <= word_start(s, from) <= s.len(),
    decreases s.len() - from,
{
    if from < s.len() && is_space(s[from]) {
        lemma_word_start(s, from + 1);
    }
}

proof fn lemma_word_end(s: Seq<char>, from: int)
    requires
        0 <= from <= s.len(),
    ensures
        from <= word_end(s, from) <= s.len(),
    decreases s.len() - from,
{
    if from < s.len() && !is_space(s[from]) {
        lemma_word_end(s, from + 1);
    }
}

/// The names that the scanner gives are read back: a module path stands
/// for itself, unless it begins with `module-` or `replace-`.
pub proof fn lemma_scanned_names_are_found(module: Seq<char>)
    requires
        !has_prefix(module, "module-"@),
        !has_prefix(module, "replace-"@),
    ensures
        required_module(module) == Some(module),
{
}

} // verus!

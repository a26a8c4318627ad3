//! Rewrites the version of one declaration of a `Cargo.toml`, in place.

use vstd::prelude::*;
use crate::edit::{
    all_keep_text, char_at_byte, char_index, edit_views, lemma_char_at_byte, keeps_text, lemma_replaced_same, lemma_spliced_one,
    replace_spans, replaced, Edit, EditView,
};
use crate::scanner::cargo_scanner::{
    keys_at, label_of_section, name_of_section, section_label, section_name, top_section,
    workspace_section,
};
use crate::scanner::toml_doc::{toml_lookup, TomlNode};
use crate::text::{
    extended, find_from, is_space, from_chars, lemma_not_prefix, lemma_strip_prefix, push_all, push_str, str_views,
    strip_prefix, text, to_chars, without_prefix,
};
use crate::types::{opt_view, result_view, Error, Package};
use crate::updater::toml_editing::{
    insert_item, item_kind, item_span, toml_inserted, toml_item_kind, toml_item_span, ItemKind,
};

verus! {

/// The section and the entry that the declaration `name` stands for: the
/// name is the label of a dependency section, a hyphen and the key of the
/// entry.
pub open spec fn dependency_target(name: Seq<char>) -> Option<(Seq<Seq<char>>, Seq<char>)> {
    if strip_prefix(name, "dependencies-"@) is Some {
        Some((seq!["dependencies"@], strip_prefix(name, "dependencies-"@)->0))
    } else if strip_prefix(name, "dev-"@) is Some {
        Some((seq!["dev-dependencies"@], strip_prefix(name, "dev-"@)->0))
    } else if strip_prefix(name, "build-"@) is Some {
        Some((seq!["build-dependencies"@], strip_prefix(name, "build-"@)->0))
    } else if strip_prefix(name, "workspace-dependency-"@) is Some {
        Some(
            (
                seq!["workspace"@, "dependencies"@],
                strip_prefix(name, "workspace-dependency-"@)->0,
            ),
        )
    } else {
        None
    }
}

/// What a rewritten document stands for; where none is made the declaration
/// was not found.
pub open spec fn written(text: Option<Seq<char>>) -> Result<Seq<char>, Error> {
    match text {
        Some(t) => Ok(t),
        None => Err(Error::DeclarationNotFound),
    }
}

/// The hexadecimal digit for `n`.
pub open spec fn hex_char(n: int) -> char {
    if n == 0 {
        '0'
    } else if n == 1 {
        '1'
    } else if n == 2 {
        '2'
    } else if n == 3 {
        '3'
    } else if n == 4 {
        '4'
    } else if n == 5 {
        '5'
    } else if n == 6 {
        '6'
    } else if n == 7 {
        '7'
    } else if n == 8 {
        '8'
    } else if n == 9 {
        '9'
    } else if n == 10 {
        'a'
    } else if n == 11 {
        'b'
    } else if n == 12 {
        'c'
    } else if n == 13 {
        'd'
    } else if n == 14 {
        'e'
    } else {
        'f'
    }
}

/// Whether `c` is a control character.
pub open spec fn is_control(c: char) -> bool {
    (c as u32) < 0x20 || (c as u32) == 0x7f
}

/// How a character is written inside a basic string of TOML: a quote and a
/// backslash behind a backslash, a control character by its number, any
/// other character as itself.
pub open spec fn escaped_char(c: char) -> Seq<char> {
    if c == '"' {
        seq!['\\', '"']
    } else if c == '\\' {
        seq!['\\', '\\']
    } else if is_control(c) {
        seq!['\\', 'u', '0', '0', hex_char((c as u32) as int / 16), hex_char((c as u32) as int % 16)]
    } else {
        seq![c]
    }
}

/// How a text is written inside a basic string of TOML.
pub open spec fn escaped(s: Seq<char>) -> Seq<char>
    decreases s.len(),
{
    if s.len() == 0 {
        Seq::empty()
    } else {
        escaped(s.drop_last()) + escaped_char(s.last())
    }
}

/// The basic string of TOML that holds `s`.
pub open spec fn quoted(s: Seq<char>) -> Seq<char> {
    seq!['"'] + escaped(s) + seq!['"']
}

/// Whether the bytes from `a` to `b` of `content` hold a literal string of
/// TOML on one line: they begin and end with a single quote, and not with
/// three.
pub open spec fn is_literal_string(content: Seq<char>, a: int, b: int) -> bool {
    char_at_byte(content, a) matches Some(i) && char_at_byte(content, b) matches Some(j) && i + 2
        <= j && content[i] == '\'' && content[j - 1] == '\'' && !(i + 6 <= j && content[i + 1]
        == '\'' && content[i + 2] == '\'')
}

/// Whether `s` can stand in a literal string of TOML as it is: it holds no
/// single quote and no control character.
pub open spec fn fits_literal(s: Seq<char>) -> bool {
    forall|k: int| 0 <= k < s.len() ==> s[k] != '\'' && !is_control(#[trigger] s[k])
}

/// The literal that is written for `version` in place of the one between
/// the bytes `a` and `b` of `content`: between single quotes where the old
/// one stood between single quotes and the version can stand there as it
/// is, and as a basic string otherwise.
pub open spec fn new_literal(content: Seq<char>, a: int, b: int, version: Seq<char>) -> Seq<char> {
    if is_literal_string(content, a, b) && fits_literal(version) {
        seq!['\''] + version + seq!['\'']
    } else {
        quoted(version)
    }
}

/// The document with the string literal at `path` written anew to hold
/// `version`. Every character outside the literal stays as it is: key,
/// spacing, comments and all other lines.
pub open spec fn literal_replaced(content: Seq<char>, path: Seq<Seq<char>>, version: Seq<char>)
    -> Result<Seq<char>, Error> {
    match toml_item_span(content, path) {
        Some((a, b)) => replaced(
            content,
            seq![
                EditView {
                    start: a as int,
                    end: b as int,
                    text: new_literal(content, a as int, b as int, version),
                },
            ],
        ),
        None => Err(Error::StructuralQueryError),
    }
}

/// The first index at or below `from` and not below `floor` before which
/// `s` holds no white space.
pub open spec fn back_over_spaces(s: Seq<char>, from: int, floor: int) -> int
    decreases from,
{
    if 0 <= floor < from <= s.len() && is_space(s[from - 1]) {
        back_over_spaces(s, from - 1, floor)
    } else {
        from
    }
}

/// The binding of `version` that is written into a table.
pub open spec fn version_binding(version: Seq<char>) -> Seq<char> {
    "version = "@ + quoted(version)
}

/// The text `content` with a binding of `version` put into the inline table
/// that stands between the characters `i` and `j`: behind the last entry
/// of the table and a comma, or alone into a table without entries. Every
/// other character stays.
pub open spec fn inline_inserted(content: Seq<char>, i: int, j: int, version: Seq<char>) -> Seq<
    char,
> {
    let at = back_over_spaces(content, j - 1, i + 1);
    content.take(at) + (if at == i + 1 {
        " "@
    } else {
        ", "@
    }) + version_binding(version) + (if at == j - 1 {
        " "@
    } else {
        Seq::empty()
    }) + content.skip(at)
}

/// The text `content` with a binding of `version` put on a line of its own
/// behind the line on which character `j` stands, with the line ending of
/// that line; behind the end of the text where no line feed follows.
/// Every other character stays.
pub open spec fn line_inserted(content: Seq<char>, j: int, version: Seq<char>) -> Seq<char> {
    match find_from(content, seq!['\n'], j) {
        Some(q) => content.take(q + 1) + version_binding(version) + (if q >= 1 && content[q - 1]
            == '\r' {
            "\r\n"@
        } else {
            "\n"@
        }) + content.skip(q + 1),
        None => content + "\n"@ + version_binding(version),
    }
}

/// The document with a binding of `version` put into the table at `path`,
/// which has none. A table that has a place of its own in the text gets
/// the binding there, and every other character stays; a table that has
/// none is left to the TOML editor.
pub open spec fn version_inserted(
    content: Seq<char>,
    path: Seq<Seq<char>>,
    inline: bool,
    version: Seq<char>,
) -> Result<Seq<char>, Error> {
    match toml_item_span(content, path) {
        Some((a, b)) => match (char_at_byte(content, a as int), char_at_byte(content, b as int)) {
            (Some(i), Some(j)) => if !(i <= j <= content.len()) {
                Err(Error::StructuralQueryError)
            } else if inline {
                if i + 2 <= j && content[i] == '{' && content[j - 1] == '}' {
                    Ok(inline_inserted(content, i, j, version))
                } else {
                    Err(Error::StructuralQueryError)
                }
            } else {
                Ok(line_inserted(content, j, version))
            },
            _ => Err(Error::StructuralQueryError),
        },
        None => written(toml_inserted(content, path, "version"@, version)),
    }
}

/// The document with `version` as the version of the entry at `path`. For a
/// bare string the literal is written anew; for a table the literal of its
/// `version` is, and a table without a `version` gets one. An entry that is
/// missing or holds no version of such a form is not found.
pub open spec fn updated_dependency(content: Seq<char>, path: Seq<Seq<char>>, version: Seq<char>)
    -> Result<Seq<char>, Error> {
    match toml_item_kind(content, path) {
        Some(ItemKind::Text) => literal_replaced(content, path, version),
        Some(ItemKind::Table) | Some(ItemKind::InlineTable) => match toml_item_kind(
            content,
            path.push("version"@),
        ) {
            Some(ItemKind::Text) => literal_replaced(content, path.push("version"@), version),
            Some(ItemKind::Missing) => version_inserted(
                content,
                path,
                toml_item_kind(content, path) == Some(ItemKind::InlineTable),
                version,
            ),
            _ => Err(Error::DeclarationNotFound),
        },
        _ => Err(Error::DeclarationNotFound),
    }
}

/// The document with `version` as the version of the package itself; the
/// package is not found where the document has no `package` table.
pub open spec fn updated_crate(content: Seq<char>, version: Seq<char>) -> Result<
    Seq<char>,
    Error,
> {
    match toml_item_kind(content, seq!["package"@]) {
        Some(ItemKind::Table) => updated_dependency(content, seq!["package"@], version),
        _ => Err(Error::DeclarationNotFound),
    }
}

/// What the name of an entry of section number `kind` of the target
/// `target` begins with.
pub open spec fn target_prefix(target: Seq<char>, kind: int) -> Seq<char> {
    "target."@ + target + "."@ + section_label(kind) + "-"@
}

/// The document with `version` as the version of the declaration `name` of
/// a target: the targets from number `i` on and, for target `i`, the
/// sections from number `kind` on are tried in their order, and the first
/// whose entry the name stands for and can be rewritten decides.
pub open spec fn updated_target(
    content: Seq<char>,
    name: Seq<char>,
    version: Seq<char>,
    targets: Seq<Seq<char>>,
    i: int,
    kind: int,
) -> Result<Seq<char>, Error>
    decreases targets.len() - i, 3 - kind,
{
    if i < 0 || i >= targets.len() || kind < 0 {
        Err(Error::DeclarationNotFound)
    } else if kind >= 3 {
        updated_target(content, name, version, targets, i + 1, 0)
    } else {
        match strip_prefix(name, target_prefix(targets[i], kind)) {
            Some(key) => match updated_dependency(
                content,
                seq!["target"@, targets[i], section_name(kind), key],
                version,
            ) {
                Ok(t) => Ok(t),
                Err(_) => updated_target(content, name, version, targets, i, kind + 1),
            },
            None => updated_target(content, name, version, targets, i, kind + 1),
        }
    }
}

/// The `Cargo.toml` `content` with `version` as the version of the
/// declaration `name`. A text that is no TOML document gives a parse error;
/// a name of no known form is not found.
pub open spec fn updated_content(content: Seq<char>, name: Seq<char>, version: Seq<char>)
    -> Result<Seq<char>, Error> {
    if toml_item_kind(content, Seq::empty()) is None {
        Err(Error::ParseError)
    } else {
        match dependency_target(name) {
            Some((section, key)) => updated_dependency(content, section.push(key), version),
            None => if strip_prefix(name, "crate-"@) is Some {
                updated_crate(content, version)
            } else {
                match keys_at(content, seq!["target"@]) {
                    Some(targets) => updated_target(content, name, version, targets, 0, 0),
                    None => Err(Error::DeclarationNotFound),
                }
            },
        }
    }
}

/// The mutator for `Cargo.toml`.
pub struct CargoUpdater;

/// What a rewritten document stands for.
fn finish(text: Option<String>) -> (r: Result<String, Error>)
    ensures
        result_view(r) == written(opt_view(text)),
{
    match text {
        Some(t) => Ok(t),
        None => Err(Error::DeclarationNotFound),
    }
}

/// The section and the entry that the declaration `name` stands for.
fn target_of(name: &Vec<char>) -> (r: Option<(Vec<String>, String)>)
    ensures
        match r {
            Some((section, key)) => dependency_target(name@) == Some((str_views(section@), key@)),
            None => dependency_target(name@) is None,
        },
{
    let mut section: Vec<String> = Vec::new();
    match without_prefix(name, "dependencies-") {
        Some(key) => {
            section.push(text("dependencies"));
            assert(str_views(section@) =~= seq!["dependencies"@]);
            return Some((section, from_chars(&key)));
        },
        None => {},
    }
    match without_prefix(name, "dev-") {
        Some(key) => {
            section.push(text("dev-dependencies"));
            assert(str_views(section@) =~= seq!["dev-dependencies"@]);
            return Some((section, from_chars(&key)));
        },
        None => {},
    }
    match without_prefix(name, "build-") {
        Some(key) => {
            section.push(text("build-dependencies"));
            assert(str_views(section@) =~= seq!["build-dependencies"@]);
            return Some((section, from_chars(&key)));
        },
        None => {},
    }
    match without_prefix(name, "workspace-dependency-") {
        Some(key) => {
            section.push(text("workspace"));
            section.push(text("dependencies"));
            assert(str_views(section@) =~= seq!["workspace"@, "dependencies"@]);
            Some((section, from_chars(&key)))
        },
        None => None,
    }
}

/// The hexadecimal digit for `n`.
fn hex_digit(n: u32) -> (r: char)
    requires
        n < 16,
    ensures
        r == hex_char(n as int),
{
    if n == 0 {
        '0'
    } else if n == 1 {
        '1'
    } else if n == 2 {
        '2'
    } else if n == 3 {
        '3'
    } else if n == 4 {
        '4'
    } else if n == 5 {
        '5'
    } else if n == 6 {
        '6'
    } else if n == 7 {
        '7'
    } else if n == 8 {
        '8'
    } else if n == 9 {
        '9'
    } else if n == 10 {
        'a'
    } else if n == 11 {
        'b'
    } else if n == 12 {
        'c'
    } else if n == 13 {
        'd'
    } else if n == 14 {
        'e'
    } else {
        'f'
    }
}

/// The basic string of TOML that holds `s`.
pub fn quote(s: &Vec<char>) -> (r: Vec<char>)
    ensures
        r@ == quoted(s@),
{
    let mut body: Vec<char> = Vec::new();
    let mut i: usize = 0;
    assert(s@.take(0) =~= Seq::<char>::empty());
    while i < s.len()
        invariant
            i <= s.len(),
            body@ == escaped(s@.take(i as int)),
        decreases s.len() - i,
    {
        assert(s@.take(i + 1).drop_last() =~= s@.take(i as int));
        let c = s[i];
        let n: u32 = c as u32;
        let ghost before = body@;
        if c == '"' {
            body.push('\\');
            body.push('"');
            assert(body@ =~= before + escaped_char(c));
        } else if c == '\\' {
            body.push('\\');
            body.push('\\');
            assert(body@ =~= before + escaped_char(c));
        } else if n < 0x20 || n == 0x7f {
            body.push('\\');
            body.push('u');
            body.push('0');
            body.push('0');
            body.push(hex_digit(n / 16));
            body.push(hex_digit(n % 16));
            assert(body@ =~= before + escaped_char(c));
        } else {
            body.push(c);
            assert(body@ =~= before + escaped_char(c));
        }
        i += 1;
    }
    assert(s@.take(s.len() as int) =~= s@);
    let mut r: Vec<char> = Vec::new();
    r.push('"');
    push_all(&mut r, &body);
    r.push('"');
    assert(r@ =~= quoted(s@));
    r
}

/// Whether `s` can stand in a literal string of TOML as it is.
fn can_stand_literally(s: &Vec<char>) -> (r: bool)
    ensures
        r == fits_literal(s@),
{
    let mut i: usize = 0;
    while i < s.len()
        invariant
            i <= s.len(),
            forall|k: int| 0 <= k < i ==> s@[k] != '\'' && !is_control(#[trigger] s@[k]),
        decreases s.len() - i,
    {
        let n: u32 = s[i] as u32;
        if s[i] == '\'' || n < 0x20 || n == 0x7f {
            return false;
        }
        i += 1;
    }
    true
}

/// The literal that is written for `version` in place of the one between
/// the bytes `a` and `b` of `content`.
pub fn write_literal(content: &Vec<char>, a: usize, b: usize, version: &Vec<char>) -> (r: Vec<
    char,
>)
    ensures
        r@ == new_literal(content@, a as int, b as int, version@),
{
    let single = match (char_index(content, a), char_index(content, b)) {
        (Some(i), Some(j)) => {
            proof {
                lemma_char_at_byte(content@, a as int, i as int);
                lemma_char_at_byte(content@, b as int, j as int);
            }
            i <= j && j - i >= 2 && content[i] == '\'' && content[j - 1] == '\'' && !(j - i >= 6
                && content[i + 1] == '\'' && content[i + 2] == '\'')
        },
        _ => false,
    };
    if single && can_stand_literally(version) {
        let mut r: Vec<char> = Vec::new();
        r.push('\'');
        push_all(&mut r, version);
        r.push('\'');
        assert(r@ =~= seq!['\''] + version@ + seq!['\'']);
        r
    } else {
        quote(version)
    }
}

impl CargoUpdater {
    pub fn new() -> (r: Self) {
        CargoUpdater
    }

    /// Writes the string literal at `path` anew to hold `new_version`, and
    /// leaves every other character of the document as it is.
    pub fn replace_literal(&self, content: &str, path: &Vec<String>, new_version: &str) -> (r:
        Result<String, Error>)
        ensures
            result_view(r) == literal_replaced(content@, str_views(path@), new_version@),
    {
        match item_span(content, path) {
            Some((a, b)) => {
                let mut edits: Vec<Edit> = Vec::new();
                let e = Edit {
                    start: a,
                    end: b,
                    text: write_literal(&to_chars(content), a, b, &to_chars(new_version)),
                };
                edits.push(e);
                assert(edit_views(edits@) =~= seq![e@]);
                match replace_spans(&to_chars(content), &edits) {
                    Ok(v) => Ok(from_chars(&v)),
                    Err(x) => Err(x),
                }
            },
            None => Err(Error::StructuralQueryError),
        }
    }

    /// Rewrites the version of the entry at `path` of the document
    /// `content`.
    pub fn update_dependency(&self, content: &str, path: &Vec<String>, new_version: &str) -> (r:
        Result<String, Error>)
        ensures
            result_view(r) == updated_dependency(content@, str_views(path@), new_version@),
    {
        match item_kind(content, path) {
            Some(ItemKind::Text) => self.replace_literal(content, path, new_version),
            Some(ItemKind::Table) | Some(ItemKind::InlineTable) => {
                let inner = extended(path, "version");
                match item_kind(content, &inner) {
                    Some(ItemKind::Text) => self.replace_literal(content, &inner, new_version),
                    Some(ItemKind::Missing) => {
                        let inline = match item_kind(content, path) {
                            Some(ItemKind::InlineTable) => true,
                            _ => false,
                        };
                        self.insert_version(content, path, inline, new_version)
                    },
                    _ => Err(Error::DeclarationNotFound),
                }
            },
            _ => Err(Error::DeclarationNotFound),
        }
    }

    /// Puts a binding of `new_version` into the table at `path`, which has
    /// none. `inline` tells whether the table is written inline.
    pub fn insert_version(&self, content: &str, path: &Vec<String>, inline: bool, new_version: &str)
        -> (r: Result<String, Error>)
        ensures
            result_view(r) == version_inserted(
                content@,
                str_views(path@),
                inline,
                new_version@,
            ),
    {
        match item_span(content, path) {
            Some((a, b)) => {
                let text = to_chars(content);
                let n = text.len();
                match (char_index(&text, a), char_index(&text, b)) {
                    (Some(i), Some(j)) => {
                        proof {
                            lemma_char_at_byte(text@, a as int, i as int);
                            lemma_char_at_byte(text@, b as int, j as int);
                        }
                        let mut binding = to_chars("version = ");
                        push_all(&mut binding, &quote(&to_chars(new_version)));
                        if i > j {
                            Err(Error::StructuralQueryError)
                        } else if inline {
                            if j - i >= 2 && text[i] == '{' && text[j - 1] == '}' {
                                let mut at: usize = j - 1;
                                while at > i + 1 && crate::text::is_whitespace(text[at - 1])
                                    invariant
                                        i + 1 <= at <= j - 1,
                                        j <= text.len(),
                                        back_over_spaces(text@, j - 1, i + 1) == back_over_spaces(
                                            text@,
                                            at as int,
                                            i + 1,
                                        ),
                                    decreases at,
                                {
                                    at -= 1;
                                }
                                assert(text@.skip(at as int) =~= text@.subrange(
                                    at as int,
                                    n as int,
                                ));
                                let mut out = crate::text::slice(&text, 0, at);
                                if at == i + 1 {
                                    push_str(&mut out, " ");
                                } else {
                                    push_str(&mut out, ", ");
                                }
                                push_all(&mut out, &binding);
                                let ghost head = out@;
                                if at == j - 1 {
                                    push_str(&mut out, " ");
                                } else {
                                    assert(head + Seq::<char>::empty() =~= head);
                                }
                                push_all(&mut out, &crate::text::slice(&text, at, n));
                                Ok(from_chars(&out))
                            } else {
                                Err(Error::StructuralQueryError)
                            }
                        } else {
                            let mut feed: Vec<char> = Vec::new();
                            feed.push('\n');
                            assert(feed@ =~= seq!['\n']);
                            match crate::text::find_in_from(&text, &feed, j) {
                                Some(q) => {
                                    assert(text@.skip(q + 1) =~= text@.subrange(q + 1, n as int));
                                    let mut out = crate::text::slice(&text, 0, q + 1);
                                    push_all(&mut out, &binding);
                                    if q >= 1 && text[q - 1] == '\r' {
                                        push_str(&mut out, "\r\n");
                                    } else {
                                        push_str(&mut out, "\n");
                                    }
                                    push_all(&mut out, &crate::text::slice(&text, q + 1, n));
                                    Ok(from_chars(&out))
                                },
                                None => {
                                    let mut out = crate::text::copy(&text);
                                    push_str(&mut out, "\n");
                                    push_all(&mut out, &binding);
                                    Ok(from_chars(&out))
                                },
                            }
                        }
                    },
                    _ => Err(Error::StructuralQueryError),
                }
            },
            None => finish(insert_item(content, path, "version", new_version)),
        }
    }

    /// Rewrites the version of the declaration `name` of a target, given
    /// the targets of the document.
    pub fn update_target(
        &self,
        content: &str,
        name: &str,
        new_version: &str,
        targets: &Vec<String>,
    ) -> (r: Result<String, Error>)
        ensures
            result_view(r) == updated_target(
                content@,
                name@,
                new_version@,
                str_views(targets@),
                0,
                0,
            ),
    {
        let full = to_chars(name);
        let ghost t = str_views(targets@);
        let mut i: usize = 0;
        while i < targets.len()
            invariant
                i <= targets.len(),
                t == str_views(targets@),
                full@ == name@,
                updated_target(content@, name@, new_version@, t, 0, 0) == updated_target(
                    content@,
                    name@,
                    new_version@,
                    t,
                    i as int,
                    0,
                ),
            decreases targets.len() - i,
        {
            let target = &targets[i];
            assert(t[i as int] == target@);
            let mut kind: usize = 0;
            while kind < 3
                invariant
                    kind <= 3,
                    i < targets.len(),
                    t == str_views(targets@),
                    t[i as int] == target@,
                    full@ == name@,
                    updated_target(content@, name@, new_version@, t, 0, 0) == updated_target(
                        content@,
                        name@,
                        new_version@,
                        t,
                        i as int,
                        kind as int,
                    ),
                decreases 3 - kind,
            {
                let mut prefix = to_chars("target.");
                push_str(&mut prefix, target.as_str());
                push_str(&mut prefix, ".");
                push_all(&mut prefix, &label_of_section(kind));
                push_str(&mut prefix, "-");
                match without_prefix(&full, from_chars(&prefix).as_str()) {
                    Some(key) => {
                        let mut path: Vec<String> = Vec::new();
                        path.push(text("target"));
                        path.push(text(target.as_str()));
                        path.push(name_of_section(kind));
                        path.push(from_chars(&key));
                        assert(str_views(path@) =~= seq![
                            "target"@,
                            target@,
                            section_name(kind as int),
                            key@,
                        ]);
                        match self.update_dependency(content, &path, new_version) {
                            Ok(done) => { return Ok(done); },
                            Err(_) => {},
                        }
                    },
                    None => {},
                }
                kind += 1;
            }
            i += 1;
        }
        Err(Error::DeclarationNotFound)
    }

    /// Rewrites the version of the declaration `package` in the text
    /// `content` of a `Cargo.toml`.
    pub fn update_content(&self, content: &str, package: &Package, new_version: &str) -> (r:
        Result<String, Error>)
        ensures
            result_view(r) == updated_content(content@, package.name@, new_version@),
    {
        let root: Vec<String> = Vec::new();
        assert(str_views(root@) =~= Seq::<Seq<char>>::empty());
        if item_kind(content, &root).is_none() {
            return Err(Error::ParseError);
        }
        let name = to_chars(package.name.as_str());
        match target_of(&name) {
            Some((section, key)) => {
                self.update_dependency(content, &extended(&section, key.as_str()), new_version)
            },
            None => {
                let mut path: Vec<String> = Vec::new();
                path.push(text("package"));
                assert(str_views(path@) =~= seq!["package"@]);
                if without_prefix(&name, "crate-").is_some() {
                    match item_kind(content, &path) {
                        Some(ItemKind::Table) => self.update_dependency(
                            content,
                            &path,
                            new_version,
                        ),
                        _ => Err(Error::DeclarationNotFound),
                    }
                } else {
                    let mut at: Vec<String> = Vec::new();
                    at.push(text("target"));
                    assert(str_views(at@) =~= seq!["target"@]);
                    match toml_lookup(content, &at) {
                        Some(TomlNode::Table(targets)) => self.update_target(
                            content,
                            package.name.as_str(),
                            new_version,
                            &targets,
                        ),
                        _ => Err(Error::DeclarationNotFound),
                    }
                }
            },
        }
    }
}

/// The names that the scanner gives are read back: the name of the entry
/// `key` of a dependency section at the top of the document, or of the
/// workspace, stands for that section and that entry.
pub proof fn lemma_scanned_names_are_found(kind: int, key: Seq<char>)
    requires
        0 <= kind <= 2,
    ensures
        dependency_target(top_section(kind).prefix + key) == Some(
            (top_section(kind).path, key),
        ),
        dependency_target(workspace_section().prefix + key) == Some(
            (workspace_section().path, key),
        ),
{
    reveal_strlit("dependencies");
    reveal_strlit("dev");
    reveal_strlit("build");
    reveal_strlit("-");
    reveal_strlit("dependencies-");
    reveal_strlit("dev-");
    reveal_strlit("build-");
    reveal_strlit("workspace-dependency-");
    let name = top_section(kind).prefix + key;
    if kind == 0 {
        assert("dependencies"@ + "-"@ =~= "dependencies-"@);
        lemma_strip_prefix("dependencies-"@, key);
    } else if kind == 1 {
        assert("dev"@ + "-"@ =~= "dev-"@);
        lemma_strip_prefix("dev-"@, key);
        assert(name[2] == 'v');
        lemma_not_prefix(name, "dependencies-"@, 2);
    } else {
        assert("build"@ + "-"@ =~= "build-"@);
        lemma_strip_prefix("build-"@, key);
        assert(name[0] == 'b');
        lemma_not_prefix(name, "dependencies-"@, 0);
        lemma_not_prefix(name, "dev-"@, 0);
    }
    let other = workspace_section().prefix + key;
    lemma_strip_prefix("workspace-dependency-"@, key);
    assert(other[0] == 'w');
    lemma_not_prefix(other, "dependencies-"@, 0);
    lemma_not_prefix(other, "dev-"@, 0);
    lemma_not_prefix(other, "build-"@, 0);
}

/// Nothing but the literal changes: where the literal at `path` is written
/// anew, the document is what stood before the literal, the new literal,
/// and what stood after it.
pub proof fn lemma_literal_alone_changes(
    content: Seq<char>,
    path: Seq<Seq<char>>,
    version: Seq<char>,
)
    ensures
        literal_replaced(content, path, version) matches Ok(out) ==> toml_item_span(
            content,
            path,
        ) matches Some((a, b)) && char_at_byte(content, a as int) matches Some(from)
            && char_at_byte(content, b as int) matches Some(to) && from <= to <= content.len()
            && out == content.take(from) + new_literal(content, a as int, b as int, version)
            + content.skip(to),
{
    if let Some((a, b)) = toml_item_span(content, path) {
        let e = EditView {
            start: a as int,
            end: b as int,
            text: new_literal(content, a as int, b as int, version),
        };
        let edits = seq![e];
        assert(edits.drop_last() =~= Seq::<EditView>::empty());
        assert(crate::edit::char_spans(content, edits, 0) == Some(Seq::<EditView>::empty()));
        if let Ok(out) = literal_replaced(content, path, version) {
            let spans = crate::edit::char_spans(content, edits, 1)->0;
            assert(edits[0] == e);
            assert(spans =~= seq![spans[0]]);
            assert(0 <= spans[0].start <= spans[0].end <= content.len());
            lemma_spliced_one(content, spans[0]);
        }
    }
}

/// Same version: where the literal at `path` reads as the literal that is
/// written for `version`, writing it anew gives the document back,
/// character for character.
pub proof fn lemma_same_literal(content: Seq<char>, path: Seq<Seq<char>>, version: Seq<char>)
    requires
        toml_item_span(content, path) matches Some((a, b)) && keeps_text(
            content,
            EditView {
                start: a as int,
                end: b as int,
                text: new_literal(content, a as int, b as int, version),
            },
        ),
    ensures
        literal_replaced(content, path, version) matches Ok(out) ==> out == content,
{
    if let Some((a, b)) = toml_item_span(content, path) {
        let e = EditView {
            start: a as int,
            end: b as int,
            text: new_literal(content, a as int, b as int, version),
        };
        assert(all_keep_text(content, seq![e]));
        lemma_replaced_same(content, seq![e]);
    }
}

/// The names that the scanner gives to the entries of a target are read
/// back: the name of the entry `key` of section number `kind` of the
/// target `target` begins with what the mutator looks for, and the rest
/// is the key.
pub proof fn lemma_target_names_are_found(target: Seq<char>, kind: int, key: Seq<char>)
    requires
        0 <= kind <= 2,
    ensures
        crate::scanner::cargo_scanner::target_section(target, kind).prefix == target_prefix(
            target,
            kind,
        ),
        strip_prefix(target_prefix(target, kind) + key, target_prefix(target, kind)) == Some(key),
{
    lemma_strip_prefix(target_prefix(target, kind), key);
}

} // verus!

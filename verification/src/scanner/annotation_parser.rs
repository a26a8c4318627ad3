//! Author directives in comments: `treeupdt: key=value, flag, ...`.

use vstd::prelude::*;
use crate::pattern::{group, regex_group};
use crate::text::{find, find_str, from_chars, slice, to_chars, trim, trimmed};
use crate::types::{Annotation, AnnotationView, Options};

verus! {

/// Where the reading of a directive list stands after some characters.
pub struct DirectiveState {
    /// The characters of the key read so far.
    pub key: Seq<char>,
    /// The characters of the value read so far.
    pub value: Seq<char>,
    /// An unquoted `=` has ended the key.
    pub in_value: bool,
    /// A quote is open.
    pub in_quotes: bool,
    /// The character that opened the quote.
    pub quote: char,
    /// The pairs completed so far.
    pub options: Map<Seq<char>, Seq<char>>,
}

/// The state before any character is read.
pub open spec fn initial_state() -> DirectiveState {
    DirectiveState {
        key: Seq::empty(),
        value: Seq::empty(),
        in_value: false,
        in_quotes: false,
        quote: ' ',
        options: Map::empty(),
    }
}

/// The pairs completed so far together with the pair being read, if it
/// counts: a key followed by `=` and a value binds the trimmed key to the
/// trimmed value, a key without `=` is a flag bound to `true`, and a key
/// followed by `=` and nothing is dropped.
pub open spec fn completed(st: DirectiveState) -> Map<Seq<char>, Seq<char>> {
    if st.key.len() > 0 && st.in_value && st.value.len() > 0 {
        st.options.insert(trim(st.key), trim(st.value))
    } else if st.key.len() > 0 && !st.in_value {
        st.options.insert(trim(st.key), "true"@)
    } else {
        st.options
    }
}

/// The state after one more character. A quote character opens a quote, or
/// closes the one that it opened; quoted text is taken literally. Outside
/// quotes the first `=` of a pair ends its key and a comma ends the pair.
pub open spec fn step(st: DirectiveState, c: char) -> DirectiveState {
    if (c == '"' || c == '\'') && !st.in_quotes {
        DirectiveState { in_quotes: true, quote: c, ..st }
    } else if (c == '"' || c == '\'') && c == st.quote {
        DirectiveState { in_quotes: false, ..st }
    } else if c == '=' && !st.in_quotes && !st.in_value {
        DirectiveState { in_value: true, ..st }
    } else if c == ',' && !st.in_quotes {
        DirectiveState {
            key: Seq::empty(),
            value: Seq::empty(),
            in_value: false,
            options: completed(st),
            ..st
        }
    } else if st.in_value {
        DirectiveState { value: st.value.push(c), ..st }
    } else {
        DirectiveState { key: st.key.push(c), ..st }
    }
}

/// The state after all of `s`.
pub open spec fn state_after(s: Seq<char>) -> DirectiveState
    decreases s.len(),
{
    if s.len() == 0 {
        initial_state()
    } else {
        step(state_after(s.drop_last()), s.last())
    }
}

/// The directives that the list `s` gives. An unterminated quote runs to the
/// end of `s`.
pub open spec fn options_of(s: Seq<char>) -> Map<Seq<char>, Seq<char>> {
    completed(state_after(s))
}

/// The annotation that the directive list `s` gives for a comment on line
/// `line`: none where no pair counts.
pub open spec fn options_annotation(s: Seq<char>, line: usize) -> Option<AnnotationView> {
    if options_of(s) == Map::<Seq<char>, Seq<char>>::empty() {
        None
    } else {
        Some(AnnotationView { line, options: options_of(s) })
    }
}

/// What an optional annotation stands for.
pub open spec fn opt_annotation_view(a: Option<Annotation>) -> Option<AnnotationView> {
    match a {
        Some(x) => Some(x@),
        None => None,
    }
}

/// Adds to `options` the pair being read, if it counts.
fn complete(options: &mut Options, key: &Vec<char>, value: &Vec<char>, in_value: bool)
    ensures
        final(options)@ == completed(
            DirectiveState {
                key: key@,
                value: value@,
                in_value,
                in_quotes: false,
                quote: ' ',
                options: old(options)@,
            },
        ),
{
    if key.len() > 0 {
        if in_value && value.len() > 0 {
            options.insert(from_chars(&trimmed(key)), from_chars(&trimmed(value)));
        } else if !in_value {
            options.insert(from_chars(&trimmed(key)), from_chars(&to_chars("true")));
        }
    }
}

/// Reads the directive list `text` of a comment on line `line_number`.
pub fn parse_options(text: &str, line_number: usize) -> (r: Option<Annotation>)
    ensures
        opt_annotation_view(r) == options_annotation(text@, line_number),
{
    let s = to_chars(text);
    let mut options = Options::new();
    let mut key: Vec<char> = Vec::new();
    let mut value: Vec<char> = Vec::new();
    let mut in_value = false;
    let mut in_quotes = false;
    let mut quote = ' ';
    let mut i: usize = 0;
    assert(s@.take(0) =~= Seq::<char>::empty());
    while i < s.len()
        invariant
            i <= s.len(),
            state_after(s@.take(i as int)) == (DirectiveState {
                key: key@,
                value: value@,
                in_value,
                in_quotes,
                quote,
                options: options@,
            }),
        decreases s.len() - i,
    {
        let c = s[i];
        proof {
            assert(s@.take(i + 1).drop_last() =~= s@.take(i as int));
            assert(s@.take(i + 1).last() == c);
        }
        if (c == '"' || c == '\'') && !in_quotes {
            in_quotes = true;
            quote = c;
        } else if (c == '"' || c == '\'') && c == quote {
            in_quotes = false;
        } else if c == '=' && !in_quotes && !in_value {
            in_value = true;
        } else if c == ',' && !in_quotes {
            complete(&mut options, &key, &value, in_value);
            key = Vec::new();
            value = Vec::new();
            in_value = false;
        } else if in_value {
            value.push(c);
        } else {
            key.push(c);
        }
        i += 1;
    }
    assert(s@.take(s.len() as int) =~= s@);
    complete(&mut options, &key, &value, in_value);
    if options.is_empty() {
        None
    } else {
        Some(Annotation { line: line_number, options })
    }
}

/// The regular expression that finds the directive list in a comment: the
/// marker, white space, and the rest of the line.
pub open spec fn marker_pattern() -> Seq<char> {
    "treeupdt:\\s*(.+)"@
}

/// The annotation that a comment on line `line` gives: the comment has to
/// hold the marker, and what follows it has to give at least one pair.
pub open spec fn annotation_of(comment: Seq<char>, line: usize) -> Option<AnnotationView> {
    match regex_group(marker_pattern(), comment, 1) {
        Some(text) => options_annotation(text, line),
        None => None,
    }
}

/// Reads the directives of the comment body `comment`, which stands on line
/// `line_number`.
pub fn parse_annotation(comment: &str, line_number: usize) -> (r: Option<Annotation>)
    ensures
        opt_annotation_view(r) == annotation_of(comment@, line_number),
{
    match group("treeupdt:\\s*(.+)", comment, 1) {
        Some(text) => parse_options(text.as_str(), line_number),
        None => None,
    }
}

/// What follows the first occurrence of `marker` in `line`.
pub open spec fn comment_after(line: Seq<char>, marker: Seq<char>) -> Option<Seq<char>> {
    match find(line, marker) {
        Some(i) => Some(line.skip(i + marker.len())),
        None => None,
    }
}

/// What stands between the first `/*` of `line` and its first `*/`, where the
/// second comes after the first.
pub open spec fn block_comment(line: Seq<char>) -> Option<Seq<char>> {
    match (find(line, "/*"@), find(line, "*/"@)) {
        (Some(i), Some(j)) => if i + 2 <= j {
            Some(line.subrange(i + 2, j))
        } else {
            None
        },
        _ => None,
    }
}

/// The annotation of an optional comment body.
pub open spec fn candidate_annotation(comment: Option<Seq<char>>, line: usize) -> Option<
    AnnotationView,
> {
    match comment {
        Some(c) => annotation_of(c, line),
        None => None,
    }
}

/// The annotation that a source line gives, which may hold code before the
/// comment. The comment openers are tried in a fixed order, `#`, `//`, `--`
/// and `/* */`, and the first that leads to an annotation decides.
pub open spec fn line_annotation(line: Seq<char>, number: usize) -> Option<AnnotationView> {
    let hash = candidate_annotation(comment_after(line, "#"@), number);
    let slashes = candidate_annotation(comment_after(line, "//"@), number);
    let dashes = candidate_annotation(comment_after(line, "--"@), number);
    let block = candidate_annotation(block_comment(line), number);
    if hash is Some {
        hash
    } else if slashes is Some {
        slashes
    } else if dashes is Some {
        dashes
    } else {
        block
    }
}

/// The annotation of what follows the first `marker` in `line`.
fn annotation_after(line: &Vec<char>, marker: &str, line_number: usize) -> (r: Option<Annotation>)
    ensures
        opt_annotation_view(r) == candidate_annotation(comment_after(line@, marker@), line_number),
{
    let m = to_chars(marker);
    match crate::text::find_in(line, &m) {
        Some(i) => {
            let n = line.len();
            proof {
                assert(line@.skip(i + m@.len()) =~= line@.subrange(
                    i + m@.len(),
                    line@.len() as int,
                ));
            }
            let comment = from_chars(&slice(line, i + m.len(), n));
            parse_annotation(comment.as_str(), line_number)
        },
        None => None,
    }
}

/// Reads the directives of a source line that may hold code and a comment.
pub fn extract_annotation_from_line(line: &str, line_number: usize) -> (r: Option<Annotation>)
    ensures
        opt_annotation_view(r) == line_annotation(line@, line_number),
{
    let l = to_chars(line);
    let hash = annotation_after(&l, "#", line_number);
    if hash.is_some() {
        return hash;
    }
    let slashes = annotation_after(&l, "//", line_number);
    if slashes.is_some() {
        return slashes;
    }
    let dashes = annotation_after(&l, "--", line_number);
    if dashes.is_some() {
        return dashes;
    }
    match (find_str(&l, "/*"), find_str(&l, "*/")) {
        (Some(i), Some(j)) => {
            if i <= j && j - i >= 2 {
                let comment = from_chars(&slice(&l, i + 2, j));
                parse_annotation(comment.as_str(), line_number)
            } else {
                None
            }
        },
        _ => None,
    }
}

} // verus!

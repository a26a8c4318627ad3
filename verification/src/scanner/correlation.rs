//! Which comment annotates which declaration, in the line-oriented formats.

use vstd::prelude::*;
use crate::scanner::annotation_parser::{
    extract_annotation_from_line, line_annotation, opt_annotation_view,
};
use crate::text::{from_chars, has_prefix, starts_with, trim, trimmed, views};
use crate::types::{annotation_views, Annotation, AnnotationView};

verus! {

/// Whether `line` holds a comment and nothing else. `//` opens a comment;
/// `#` does where `hash` says so.
pub open spec fn comment_only(line: Seq<char>, hash: bool) -> bool {
    has_prefix(trim(line), "//"@) || (hash && has_prefix(trim(line), "#"@))
}

/// The annotation that the line `offset` lines above line `index` gives to
/// it. The line has to be a comment and nothing else.
pub open spec fn annotation_above(lines: Seq<Seq<char>>, index: int, offset: int, hash: bool)
    -> Option<AnnotationView> {
    if index - offset >= 0 && comment_only(lines[index - offset], hash) {
        line_annotation(lines[index - offset], (index - offset + 1) as usize)
    } else {
        None
    }
}

/// The annotations of the declaration on line `index` (0-based) of `lines`:
/// at most one. A directive on the line itself wins. Otherwise the nearest of
/// the two lines above that is a comment with a directive gives it, and the
/// search ends at a line that is not a comment.
pub open spec fn correlated(lines: Seq<Seq<char>>, index: int, hash: bool) -> Seq<AnnotationView> {
    let inline = line_annotation(lines[index], (index + 1) as usize);
    let first = annotation_above(lines, index, 1, hash);
    let second = annotation_above(lines, index, 2, hash);
    if inline is Some {
        seq![inline->0]
    } else if first is Some {
        seq![first->0]
    } else if index >= 1 && comment_only(lines[index - 1], hash) && second is Some {
        seq![second->0]
    } else {
        Seq::empty()
    }
}

/// A directive on the line of the declaration is the only one attached,
/// whatever the lines above say.
pub proof fn lemma_inline_directive_wins(lines: Seq<Seq<char>>, index: int, hash: bool)
    requires
        0 <= index < lines.len(),
        line_annotation(lines[index], (index + 1) as usize) is Some,
    ensures
        correlated(lines, index, hash) == seq![
            line_annotation(lines[index], (index + 1) as usize)->0,
        ],
{
}

/// No more than one annotation is attached to a declaration.
pub proof fn lemma_at_most_one_annotation(lines: Seq<Seq<char>>, index: int, hash: bool)
    ensures
        correlated(lines, index, hash).len() <= 1,
{
}

/// The annotation that line `index - offset` gives to line `index`.
fn above(lines: &Vec<Vec<char>>, index: usize, offset: usize, hash: bool) -> (r: (
    bool,
    Option<Annotation>,
))
    requires
        index < lines.len(),
        1 <= offset <= 2,
    ensures
        r.0 == (index >= offset && comment_only(lines@[index - offset]@, hash)),
        opt_annotation_view(r.1) == annotation_above(
            views(lines@),
            index as int,
            offset as int,
            hash,
        ),
{
    if index < offset {
        return (false, None);
    }
    let at: usize = index - offset;
    let line = &lines[at];
    assert(views(lines@)[at as int] == line@);
    let t = trimmed(line);
    if starts_with(&t, "//") || (hash && starts_with(&t, "#")) {
        (true, extract_annotation_from_line(from_chars(line).as_str(), at + 1))
    } else {
        (false, None)
    }
}

/// The annotations of the declaration on line `index` (0-based) of `lines`.
pub fn correlate(lines: &Vec<Vec<char>>, index: usize, hash: bool) -> (r: Vec<Annotation>)
    requires
        index < lines.len(),
    ensures
        annotation_views(r@) == correlated(views(lines@), index as int, hash),
{
    let mut r: Vec<Annotation> = Vec::new();
    assert(views(lines@)[index as int] == lines@[index as int]@);
    let inline = extract_annotation_from_line(from_chars(&lines[index]).as_str(), index + 1);
    let found = match inline {
        Some(a) => Some(a),
        None => {
            let (comment, first) = above(lines, index, 1, hash);
            match first {
                Some(a) => Some(a),
                None => {
                    if comment {
                        above(lines, index, 2, hash).1
                    } else {
                        None
                    }
                },
            }
        },
    };
    match found {
        Some(a) => {
            r.push(a);
            assert(annotation_views(r@) =~= seq![a@]);
        },
        None => {
            assert(annotation_views(r@) =~= Seq::<AnnotationView>::empty());
        },
    }
    r
}

} // verus!

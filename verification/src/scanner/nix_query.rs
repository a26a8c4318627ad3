//! Structural queries on Nix source text, answered by `tree-sitter` with the
//! grammar of `tree-sitter-nix`.

use vstd::prelude::*;
use tree_sitter::{Language, Parser, Query, QueryCursor, StreamingIterator};
use crate::edit::{char_at_byte, char_index, lemma_char_at_byte};
use crate::text::{from_chars, same_str, slice, str_views, to_chars};
use crate::types::Error;

verus! {

/// One node that a query captured.
#[derive(Debug, Clone, PartialEq, Eq)]
pub struct Capture {
    /// The name that the query gives to the node.
    pub name: String,
    /// The source text of the node.
    pub text: String,
    /// The offset of the first byte of the node in the UTF-8 text.
    pub start_byte: usize,
    /// The offset of the byte after the last one of the node.
    pub end_byte: usize,
    /// The 0-based line on which the node begins.
    pub row: usize,
}

/// What a `Capture` stands for.
pub struct CaptureView {
    pub name: Seq<char>,
    pub text: Seq<char>,
    pub start_byte: usize,
    pub end_byte: usize,
    pub row: usize,
}

impl View for Capture {
    type V = CaptureView;

    open spec fn view(&self) -> CaptureView {
        CaptureView {
            name: self.name@,
            text: self.text@,
            start_byte: self.start_byte,
            end_byte: self.end_byte,
            row: self.row,
        }
    }
}

impl Capture {
    pub fn new(name: &str, text: &str, start_byte: usize, end_byte: usize, row: usize) -> (r:
        Capture)
        ensures
            r@ == (CaptureView { name: name@, text: text@, start_byte, end_byte, row }),
    {
        Capture {
            name: from_chars(&to_chars(name)),
            text: from_chars(&to_chars(text)),
            start_byte,
            end_byte,
            row,
        }
    }
}

/// What the captures of one match stand for.
pub open spec fn match_view(m: Seq<Capture>) -> Seq<CaptureView> {
    Seq::new(m.len(), |i: int| m[i]@)
}

/// What a list of matches stands for.
pub open spec fn match_views(v: Seq<Vec<Capture>>) -> Seq<Seq<CaptureView>> {
    Seq::new(v.len(), |i: int| match_view(v[i]@))
}

/// What the result of a query stands for.
pub open spec fn query_view(r: Result<Vec<Vec<Capture>>, Error>) -> Result<
    Seq<Seq<CaptureView>>,
    Error,
> {
    match r {
        Ok(v) => Ok(match_views(v@)),
        Err(e) => Err(e),
    }
}

/// Where a captured node lies, and which capture of the query it is.
#[derive(Debug, Clone, Copy, PartialEq, Eq, Structural)]
pub struct Span {
    /// The index of the capture among the capture names of the query.
    pub index: usize,
    pub start_byte: usize,
    pub end_byte: usize,
    pub row: usize,
}

/// What a list of lists of spans stands for.
pub open spec fn span_views(v: Seq<Vec<Span>>) -> Seq<Seq<Span>> {
    Seq::new(v.len(), |i: int| v[i]@)
}

/// What optional lists of lists of spans stand for.
pub open spec fn spans_view(r: Option<Vec<Vec<Span>>>) -> Option<Seq<Seq<Span>>> {
    match r {
        Some(v) => Some(span_views(v@)),
        None => None,
    }
}

/// What an optional list of strings stands for.
pub open spec fn names_view(r: Option<Vec<String>>) -> Option<Seq<Seq<char>>> {
    match r {
        Some(v) => Some(str_views(v@)),
        None => None,
    }
}

/// The matches of the tree-sitter query `query` in the syntax tree that the
/// Nix grammar gives for `content`, in the order in which the query cursor
/// reports them, each with the spans of its captures in the order of the
/// match; `None` where no tree is made or the query is refused.
pub uninterp spec fn nix_spans(content: Seq<char>, query: Seq<char>) -> Option<Seq<Seq<Span>>>;

/// The capture names of the tree-sitter query `query` under the Nix
/// grammar, in the order of their indices; `None` where the query is
/// refused.
pub uninterp spec fn nix_capture_names(query: Seq<char>) -> Option<Seq<Seq<char>>>;

/// Parses `content` with `tree_sitter::Parser::parse` under the grammar
/// `tree_sitter_nix::LANGUAGE`, compiles `query` with
/// `tree_sitter::Query::new` and walks `tree_sitter::QueryCursor::matches`
/// from the root. Claimed: the spans handed back are those that `nix_spans`
/// names; nothing is claimed about which nodes match or where they lie.
#[verifier::external_body]
pub(crate) fn query_spans(content: &str, query: &str) -> (r: Option<Vec<Vec<Span>>>)
    ensures
        spans_view(r) == nix_spans(content@, query@),
{
    let language = Language::new(tree_sitter_nix::LANGUAGE);
    let mut parser = Parser::new();
    parser.set_language(&language).ok()?;
    let tree = parser.parse(content, None)?;
    let q = Query::new(&language, query).ok()?;
    let mut cursor = QueryCursor::new();
    let mut found = cursor.matches(&q, tree.root_node(), content.as_bytes());
    let mut out = Vec::new();
    while let Some(m) = found.next() {
        out.push(m.captures().iter().map(|c| Span { index: c.index as usize, start_byte: c.node.start_byte(), end_byte: c.node.end_byte(), row: c.node.start_position().row }).collect());
    }
    Some(out)
}

/// Compiles `query` with `tree_sitter::Query::new` under the grammar
/// `tree_sitter_nix::LANGUAGE` and reads `Query::capture_names`. Claimed:
/// the names handed back are those that `nix_capture_names` names.
#[verifier::external_body]
pub(crate) fn capture_names(query: &str) -> (r: Option<Vec<String>>)
    ensures
        names_view(r) == nix_capture_names(query@),
{
    let language = Language::new(tree_sitter_nix::LANGUAGE);
    let q = Query::new(&language, query).ok()?;
    Some(q.capture_names().iter().map(|n| n.to_string()).collect())
}

/// The capture that `span` stands for in `content`: its name is the capture
/// name with the index of the span, its text what lies between the bytes of
/// the span. None where the index names no capture or the bytes do not
/// begin and end with a character of `content`.
pub open spec fn capture_at(content: Seq<char>, names: Seq<Seq<char>>, span: Span) -> Option<
    CaptureView,
> {
    match (char_at_byte(content, span.start_byte as int), char_at_byte(content, span.end_byte as int)) {
        (Some(a), Some(b)) => if span.index < names.len() && a <= b {
            Some(
                CaptureView {
                    name: names[span.index as int],
                    text: content.subrange(a, b),
                    start_byte: span.start_byte,
                    end_byte: span.end_byte,
                    row: span.row,
                },
            )
        } else {
            None
        },
        _ => None,
    }
}

/// The captures that the first `count` of `spans` stand for; none where
/// one of them stands for none.
pub open spec fn captures_at(
    content: Seq<char>,
    names: Seq<Seq<char>>,
    spans: Seq<Span>,
    count: int,
) -> Option<Seq<CaptureView>>
    decreases count,
{
    if count <= 0 {
        Some(Seq::empty())
    } else {
        match (
            captures_at(content, names, spans, count - 1),
            capture_at(content, names, spans[count - 1]),
        ) {
            (Some(prev), Some(c)) => Some(prev.push(c)),
            _ => None,
        }
    }
}

/// The matches that the first `count` of `all` stand for; none where a span
/// stands for no capture.
pub open spec fn matches_at(
    content: Seq<char>,
    names: Seq<Seq<char>>,
    all: Seq<Seq<Span>>,
    count: int,
) -> Option<Seq<Seq<CaptureView>>>
    decreases count,
{
    if count <= 0 {
        Some(Seq::empty())
    } else {
        match (
            matches_at(content, names, all, count - 1),
            captures_at(content, names, all[count - 1], all[count - 1].len() as int),
        ) {
            (Some(prev), Some(m)) => Some(prev.push(m)),
            _ => None,
        }
    }
}

/// The matches of the tree-sitter query `query` in the Nix text `content`,
/// each with its captures. A query that is refused, and spans that do not
/// fit the text, give `StructuralQueryError`; a text of which no tree is
/// made gives `ParseError`.
#[verifier::opaque]
pub open spec fn nix_query(content: Seq<char>, query: Seq<char>) -> Result<
    Seq<Seq<CaptureView>>,
    Error,
> {
    match nix_capture_names(query) {
        None => Err(Error::StructuralQueryError),
        Some(names) => match nix_spans(content, query) {
            None => Err(Error::ParseError),
            Some(all) => match matches_at(content, names, all, all.len() as int) {
                Some(m) => Ok(m),
                None => Err(Error::StructuralQueryError),
            },
        },
    }
}

/// Once a span stands for no capture, the list stands for none.
proof fn lemma_captures_none(
    content: Seq<char>,
    names: Seq<Seq<char>>,
    spans: Seq<Span>,
    from: int,
    to: int,
)
    requires
        0 <= from <= to,
        captures_at(content, names, spans, from) is None,
    ensures
        captures_at(content, names, spans, to) is None,
    decreases to - from,
{
    if from < to {
        lemma_captures_none(content, names, spans, from, to - 1);
    }
}

/// Once a match stands for none, the list stands for none.
proof fn lemma_matches_none(
    content: Seq<char>,
    names: Seq<Seq<char>>,
    all: Seq<Seq<Span>>,
    from: int,
    to: int,
)
    requires
        0 <= from <= to,
        matches_at(content, names, all, from) is None,
    ensures
        matches_at(content, names, all, to) is None,
    decreases to - from,
{
    if from < to {
        lemma_matches_none(content, names, all, from, to - 1);
    }
}

/// The capture that `span` stands for in `content`.
fn read_capture(content: &Vec<char>, names: &Vec<String>, span: &Span) -> (r: Option<Capture>)
    ensures
        match r {
            Some(c) => capture_at(content@, str_views(names@), *span) == Some(c@),
            None => capture_at(content@, str_views(names@), *span) is None,
        },
{
    match (char_index(content, span.start_byte), char_index(content, span.end_byte)) {
        (Some(a), Some(b)) => {
            proof {
                lemma_char_at_byte(content@, span.start_byte as int, a as int);
                lemma_char_at_byte(content@, span.end_byte as int, b as int);
            }
            if span.index < names.len() && a <= b {
                assert(str_views(names@)[span.index as int] == names@[span.index as int]@);
                Some(
                    Capture {
                        name: names[span.index].clone(),
                        text: from_chars(&slice(content, a, b)),
                        start_byte: span.start_byte,
                        end_byte: span.end_byte,
                        row: span.row,
                    },
                )
            } else {
                None
            }
        },
        _ => None,
    }
}

/// The captures that `spans` stand for.
fn read_captures(content: &Vec<char>, names: &Vec<String>, spans: &Vec<Span>) -> (r: Option<
    Vec<Capture>,
>)
    ensures
        match r {
            Some(m) => captures_at(content@, str_views(names@), spans@, spans.len() as int) == Some(
                match_view(m@),
            ),
            None => captures_at(content@, str_views(names@), spans@, spans.len() as int) is None,
        },
{
    let mut out: Vec<Capture> = Vec::new();
    let mut i: usize = 0;
    assert(match_view(out@) =~= Seq::<CaptureView>::empty());
    while i < spans.len()
        invariant
            i <= spans.len(),
            captures_at(content@, str_views(names@), spans@, i as int) == Some(match_view(out@)),
        decreases spans.len() - i,
    {
        match read_capture(content, names, &spans[i]) {
            Some(c) => {
                let ghost before = match_view(out@);
                out.push(c);
                assert(match_view(out@) =~= before.push(c@));
            },
            None => {
                proof {
                    lemma_captures_none(
                        content@,
                        str_views(names@),
                        spans@,
                        i + 1,
                        spans.len() as int,
                    );
                }
                return None;
            },
        }
        i += 1;
    }
    Some(out)
}

/// The matches of the tree-sitter query `query` in the Nix text `content`.
pub fn run_query(content: &str, query: &str) -> (r: Result<Vec<Vec<Capture>>, Error>)
    ensures
        query_view(r) == nix_query(content@, query@),
{
    reveal(nix_query);
    let names = match capture_names(query) {
        Some(n) => n,
        None => { return Err(Error::StructuralQueryError); },
    };
    let all = match query_spans(content, query) {
        Some(a) => a,
        None => { return Err(Error::ParseError); },
    };
    let text = to_chars(content);
    let mut out: Vec<Vec<Capture>> = Vec::new();
    let mut i: usize = 0;
    let ghost av = span_views(all@);
    assert(match_views(out@) =~= Seq::<Seq<CaptureView>>::empty());
    while i < all.len()
        invariant
            i <= all.len(),
            av == span_views(all@),
            text@ == content@,
            nix_capture_names(query@) == Some(str_views(names@)),
            nix_spans(content@, query@) == Some(av),
            matches_at(content@, str_views(names@), av, i as int) == Some(match_views(out@)),
        decreases all.len() - i,
    {
        assert(av[i as int] == all@[i as int]@);
        match read_captures(&text, &names, &all[i]) {
            Some(m) => {
                let ghost before = match_views(out@);
                out.push(m);
                assert(match_views(out@) =~= before.push(match_view(m@)));
            },
            None => {
                proof {
                    reveal(nix_query);
                    assert(matches_at(content@, str_views(names@), av, i + 1) is None);
                    lemma_matches_none(content@, str_views(names@), av, i + 1, all.len() as int);
                }
                return Err(Error::StructuralQueryError);
            },
        }
        i += 1;
    }
    proof {
        reveal(nix_query);
    }
    Ok(out)
}

/// The last capture of the match `m` that the query names `name`.
pub open spec fn capture_named(m: Seq<CaptureView>, name: Seq<char>) -> Option<CaptureView>
    decreases m.len(),
{
    if m.len() == 0 {
        None
    } else if m.last().name == name {
        Some(m.last())
    } else {
        capture_named(m.drop_last(), name)
    }
}

/// The text of the last capture of `m` that the query names `name`.
pub open spec fn capture_text(m: Seq<CaptureView>, name: Seq<char>) -> Option<Seq<char>> {
    match capture_named(m, name) {
        Some(c) => Some(c.text),
        None => None,
    }
}

/// The index of the last capture of `m` that the query names `name`.
pub fn find_capture(m: &Vec<Capture>, name: &str) -> (r: Option<usize>)
    ensures
        match r {
            Some(i) => i < m.len() && capture_named(match_view(m@), name@) == Some(m@[i as int]@),
            None => capture_named(match_view(m@), name@) is None,
        },
{
    let mut i: usize = m.len();
    let ghost v = match_view(m@);
    assert(v.take(i as int) =~= v);
    while i > 0
        invariant
            i <= m.len(),
            v == match_view(m@),
            capture_named(v, name@) == capture_named(v.take(i as int), name@),
        decreases i,
    {
        proof {
            assert(v.take(i as int).drop_last() =~= v.take(i - 1));
            assert(v.take(i as int).last() == m@[i - 1]@);
        }
        i -= 1;
        if same_str(&to_chars(m[i].name.as_str()), name) {
            return Some(i);
        }
    }
    None
}

/// The capture `c` lies in `content`: its bytes begin and end with a
/// character, and its text is what stands between them.
pub open spec fn placed(content: Seq<char>, c: CaptureView) -> bool {
    char_at_byte(content, c.start_byte as int) matches Some(a) && char_at_byte(
        content,
        c.end_byte as int,
    ) matches Some(b) && a <= b && c.text == content.subrange(a, b)
}

proof fn lemma_captures_at_placed(
    content: Seq<char>,
    names: Seq<Seq<char>>,
    spans: Seq<Span>,
    count: int,
)
    requires
        0 <= count,
    ensures
        captures_at(content, names, spans, count) matches Some(cs) ==> cs.len() == count
            && forall|j: int| 0 <= j < count ==> placed(content, #[trigger] cs[j]),
    decreases count,
{
    if count > 0 {
        lemma_captures_at_placed(content, names, spans, count - 1);
        if let Some(cs) = captures_at(content, names, spans, count) {
            let prev = captures_at(content, names, spans, count - 1)->0;
            assert forall|j: int| 0 <= j < count implies placed(content, #[trigger] cs[j]) by {
                if j < count - 1 {
                    assert(cs[j] == prev[j]);
                }
            }
        }
    }
}

proof fn lemma_matches_at_placed(
    content: Seq<char>,
    names: Seq<Seq<char>>,
    all: Seq<Seq<Span>>,
    count: int,
)
    requires
        0 <= count,
    ensures
        matches_at(content, names, all, count) matches Some(ms) ==> ms.len() == count
            && forall|i: int, j: int|
            0 <= i < count && 0 <= j < ms[i].len() ==> placed(content, #[trigger] ms[i][j]),
    decreases count,
{
    if count > 0 {
        lemma_matches_at_placed(content, names, all, count - 1);
        if let Some(ms) = matches_at(content, names, all, count) {
            let prev = matches_at(content, names, all, count - 1)->0;
            lemma_captures_at_placed(
                content,
                names,
                all[count - 1],
                all[count - 1].len() as int,
            );
            assert forall|i: int, j: int| 0 <= i < count && 0 <= j < ms[i].len() implies placed(
                content,
                #[trigger] ms[i][j],
            ) by {
                if i < count - 1 {
                    assert(ms[i] == prev[i]);
                }
            }
        }
    }
}

/// Every capture of every match of a query lies in the text that was
/// queried.
pub proof fn lemma_query_placed(content: Seq<char>, query: Seq<char>)
    ensures
        nix_query(content, query) matches Ok(ms) ==> forall|i: int, j: int|
            0 <= i < ms.len() && 0 <= j < ms[i].len() ==> placed(content, #[trigger] ms[i][j]),
{
    reveal(nix_query);
    match (nix_capture_names(query), nix_spans(content, query)) {
        (Some(names), Some(all)) => {
            lemma_matches_at_placed(content, names, all, all.len() as int);
        },
        _ => {},
    }
}

/// The capture that a name finds in a match is one of the match.
pub proof fn lemma_capture_named(m: Seq<CaptureView>, name: Seq<char>)
    ensures
        capture_named(m, name) matches Some(c) ==> exists|j: int| 0 <= j < m.len() && m[j] == c,
    decreases m.len(),
{
    if m.len() > 0 {
        if m.last().name == name {
            assert(m[m.len() - 1] == m.last());
        } else {
            lemma_capture_named(m.drop_last(), name);
            if let Some(c) = capture_named(m, name) {
                let j = choose|j: int| 0 <= j < m.drop_last().len() && m.drop_last()[j] == c;
                assert(m[j] == c);
            }
        }
    }
}

} // verus!

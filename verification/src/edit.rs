//! Localized edits: replacing spans of a text and leaving every other
//! character as it was.

use vstd::prelude::*;
use crate::text::{push_all, slice};

verus! {

/// The number of bytes that the UTF-8 encoding of `c` takes.
pub open spec fn utf8_width(c: char) -> nat {
    if (c as u32) < 0x80 {
        1
    } else if (c as u32) < 0x800 {
        2
    } else if (c as u32) < 0x10000 {
        3
    } else {
        4
    }
}

/// The number of bytes that the UTF-8 encoding of `s` takes.
pub open spec fn byte_len(s: Seq<char>) -> nat
    decreases s.len(),
{
    if s.len() == 0 {
        0
    } else {
        byte_len(s.drop_last()) + utf8_width(s.last())
    }
}

/// The byte offset of a character grows with its index.
pub proof fn lemma_byte_len_grows(s: Seq<char>, a: int, b: int)
    requires
        0 <= a <= b <= s.len(),
    ensures
        byte_len(s.take(a)) + (b - a) <= byte_len(s.take(b)),
    decreases b - a,
{
    if a < b {
        lemma_byte_len_grows(s, a, b - 1);
        assert(s.take(b).drop_last() =~= s.take(b - 1));
    }
}

/// The number of bytes that the UTF-8 encoding of `c` takes.
pub fn char_width(c: char) -> (w: usize)
    ensures
        w == utf8_width(c),
        1 <= w <= 4,
{
    let n: u32 = c as u32;
    if n < 0x80 {
        1
    } else if n < 0x800 {
        2
    } else if n < 0x10000 {
        3
    } else {
        4
    }
}

/// The index of the character of `s` whose UTF-8 encoding begins at byte
/// `byte` of the encoding of `s`; the length of `s` for the byte just past
/// the end. None where `byte` falls inside a character or past the end.
pub fn char_index(s: &Vec<char>, byte: usize) -> (r: Option<usize>)
    ensures
        match r {
            Some(i) => i <= s.len() && byte_len(s@.take(i as int)) == byte,
            None => forall|i: int| 0 <= i <= s.len() ==> byte_len(s@.take(i)) != byte,
        },
{
    let mut i: usize = 0;
    let mut at: usize = 0;
    assert(s@.take(0) =~= Seq::<char>::empty());
    while i < s.len() && at < byte
        invariant
            i <= s.len(),
            at <= byte,
            at == byte_len(s@.take(i as int)),
        decreases s.len() - i,
    {
        let w = char_width(s[i]);
        proof {
            assert(s@.take(i + 1).drop_last() =~= s@.take(i as int));
        }
        if byte - at < w {
            proof {
                assert forall|k: int| 0 <= k <= s.len() implies byte_len(s@.take(k)) != byte by {
                    if k <= i {
                        lemma_byte_len_grows(s@, k, i as int);
                    } else {
                        lemma_byte_len_grows(s@, i + 1, k);
                    }
                }
            }
            return None;
        }
        at += w;
        i += 1;
    }
    if at == byte {
        Some(i)
    } else {
        proof {
            assert forall|k: int| 0 <= k <= s.len() implies byte_len(s@.take(k)) != byte by {
                lemma_byte_len_grows(s@, k, i as int);
            }
        }
        None
    }
}

/// The replacement of the characters from `start` up to, not including,
/// `end` by `text`.
pub struct Edit {
    pub start: usize,
    pub end: usize,
    pub text: Vec<char>,
}

/// What an `Edit` stands for.
pub struct EditView {
    pub start: int,
    pub end: int,
    pub text: Seq<char>,
}

impl View for Edit {
    type V = EditView;

    open spec fn view(&self) -> EditView {
        EditView { start: self.start as int, end: self.end as int, text: self.text@ }
    }
}

/// What a list of edits stands for.
pub open spec fn edit_views(v: Seq<Edit>) -> Seq<EditView> {
    Seq::new(v.len(), |i: int| v[i]@)
}

/// The spans of `edits` lie in a text of `len` characters, in ascending
/// order and without overlap.
pub open spec fn ordered(edits: Seq<EditView>, len: int) -> bool {
    &&& forall|i: int| 0 <= i < edits.len() ==> 0 <= (#[trigger] edits[i]).start <= edits[i].end <= len
    &&& forall|i: int, j: int|
        0 <= i < j < edits.len() ==> (#[trigger] edits[i]).end <= (#[trigger] edits[j]).start
}

/// The text `content` from index `from` on, with each span of `edits`
/// replaced by its text. Every character outside the spans stays.
pub open spec fn spliced(content: Seq<char>, edits: Seq<EditView>, from: int) -> Seq<char>
    decreases edits.len(),
{
    if edits.len() == 0 {
        content.skip(from)
    } else {
        content.subrange(from, edits[0].start) + edits[0].text + spliced(
            content,
            edits.drop_first(),
            edits[0].end,
        )
    }
}

/// One edit leaves what stands before its span and what stands after it:
/// the text is the part before the span, the replacement, and the part
/// after the span.
pub proof fn lemma_spliced_one(content: Seq<char>, e: EditView)
    requires
        0 <= e.start <= e.end <= content.len(),
    ensures
        spliced(content, seq![e], 0) == content.take(e.start) + e.text + content.skip(e.end),
{
    let rest = seq![e].drop_first();
    assert(rest =~= Seq::<EditView>::empty());
    assert(spliced(content, rest, e.end) == content.skip(e.end));
    assert(content.subrange(0, e.start) =~= content.take(e.start));
}

/// Replacing spans by the text that they hold changes nothing.
pub proof fn lemma_spliced_same(content: Seq<char>, edits: Seq<EditView>, from: int)
    requires
        ordered(edits, content.len() as int),
        0 <= from <= content.len(),
        edits.len() > 0 ==> from <= edits[0].start,
        forall|i: int|
            0 <= i < edits.len() ==> (#[trigger] edits[i]).text == content.subrange(
                edits[i].start,
                edits[i].end,
            ),
    ensures
        spliced(content, edits, from) == content.skip(from),
    decreases edits.len(),
{
    if edits.len() > 0 {
        let rest = edits.drop_first();
        assert forall|i: int| 0 <= i < rest.len() implies 0 <= (#[trigger] rest[i]).start
            <= rest[i].end <= content.len() && rest[i].text == content.subrange(
            rest[i].start,
            rest[i].end,
        ) by {
            assert(rest[i] == edits[i + 1]);
        }
        assert forall|i: int, j: int| 0 <= i < j < rest.len() implies (#[trigger] rest[i]).end <= (
        #[trigger] rest[j]).start by {
            assert(rest[i] == edits[i + 1]);
            assert(rest[j] == edits[j + 1]);
        }
        if rest.len() > 0 {
            assert(rest[0] == edits[1]);
        }
        lemma_spliced_same(content, rest, edits[0].end);
        assert(content.subrange(from, edits[0].start) + edits[0].text + content.skip(
            edits[0].end,
        ) =~= content.skip(from));
    }
}

/// Whether the spans of `edits` lie in a text of `len` characters, in
/// ascending order and without overlap.
pub fn check_ordered(edits: &Vec<Edit>, len: usize) -> (r: bool)
    ensures
        r == ordered(edit_views(edits@), len as int),
{
    let mut i: usize = 0;
    let mut floor: usize = 0;
    while i < edits.len()
        invariant
            i <= edits.len(),
            floor <= len,
            i == 0 ==> floor == 0,
            i > 0 ==> floor == edit_views(edits@)[i - 1].end,
            forall|k: int|
                0 <= k < i ==> 0 <= (#[trigger] edit_views(edits@)[k]).start <= edit_views(
                    edits@,
                )[k].end <= floor,
            forall|k: int, j: int|
                0 <= k < j < i ==> (#[trigger] edit_views(edits@)[k]).end <= (#[trigger] edit_views(
                    edits@,
                )[j]).start,
        decreases edits.len() - i,
    {
        let e = &edits[i];
        assert(edit_views(edits@)[i as int] == e@);
        if !(floor <= e.start && e.start <= e.end && e.end <= len) {
            proof {
                let v = edit_views(edits@);
                if ordered(v, len as int) {
                    assert(0 <= v[i as int].start <= v[i as int].end <= len);
                    if i > 0 {
                        assert(v[i - 1].end <= v[i as int].start);
                    }
                    assert(false);
                }
            }
            return false;
        }
        floor = e.end;
        i += 1;
    }
    true
}

/// Applies `edits` to `content`, from the highest span down to the lowest,
/// so that no replacement moves a span that is still to be replaced.
pub fn apply_edits(content: &Vec<char>, edits: &Vec<Edit>) -> (r: Vec<char>)
    requires
        ordered(edit_views(edits@), content.len() as int),
    ensures
        r@ == spliced(content@, edit_views(edits@), 0),
{
    let n = content.len();
    let mut tail: Vec<char> = Vec::new();
    let mut bound: usize = n;
    let mut k: usize = edits.len();
    let ghost v = edit_views(edits@);
    assert(v.skip(k as int) =~= Seq::<EditView>::empty());
    assert(content@.skip(n as int) =~= Seq::<char>::empty());
    // `tail` holds the rewritten text from the start of the lowest span
    // replaced so far.
    while k > 0
        invariant
            k <= edits.len(),
            n == content.len(),
            v == edit_views(edits@),
            ordered(v, n as int),
            bound <= n,
            k < edits.len() ==> bound == v[k as int].start,
            k == edits.len() ==> bound == n,
            content@.subrange(bound as int, bound as int) + tail@ == tail@,
            k < edits.len() ==> tail@ == v[k as int].text + spliced(
                content@,
                v.skip(k + 1),
                v[k as int].end,
            ),
            k == edits.len() ==> tail@ == Seq::<char>::empty(),
        decreases k,
    {
        k -= 1;
        let e = &edits[k];
        assert(v[k as int] == e@);
        proof {
            if k + 1 < edits.len() {
                assert(v[k as int].end <= v[k + 1].start);
                assert(v.skip(k + 1).drop_first() =~= v.skip(k + 2));
                assert(v.skip(k + 1)[0] == v[k + 1]);
            } else {
                assert(v.skip(k + 1) =~= Seq::<EditView>::empty());
                assert(content@.subrange(e.end as int, n as int) =~= content@.skip(e.end as int));
            }
        }
        let mut next: Vec<char> = Vec::new();
        push_all(&mut next, &e.text);
        push_all(&mut next, &slice(content, e.end, bound));
        push_all(&mut next, &tail);
        assert(next@ =~= e.text@ + spliced(content@, v.skip(k + 1), e.end as int));
        tail = next;
        bound = e.start;
    }
    let mut r = slice(content, 0, bound);
    push_all(&mut r, &tail);
    proof {
        if edits.len() > 0 {
            assert(v.skip(1) =~= v.drop_first());
        } else {
            assert(content@.subrange(0, n as int) =~= content@.skip(0));
        }
    }
    r
}

/// The index of the character of `s` whose UTF-8 encoding begins at byte
/// `byte`, where a character begins there or `s` ends there.
pub open spec fn char_at_byte(s: Seq<char>, byte: int) -> Option<int> {
    if exists|i: int| 0 <= i <= s.len() && byte_len(s.take(i)) == byte {
        Some(choose|i: int| 0 <= i <= s.len() && byte_len(s.take(i)) == byte)
    } else {
        None
    }
}

/// No two characters begin at the same byte.
pub proof fn lemma_char_at_byte(s: Seq<char>, byte: int, i: int)
    requires
        0 <= i <= s.len(),
        byte_len(s.take(i)) == byte,
    ensures
        char_at_byte(s, byte) == Some(i),
{
    let j = choose|j: int| 0 <= j <= s.len() && byte_len(s.take(j)) == byte;
    if j < i {
        lemma_byte_len_grows(s, j, i);
    } else if i < j {
        lemma_byte_len_grows(s, i, j);
    }
}

/// The span of characters that the span of bytes of `e` covers in `s`.
pub open spec fn char_span(s: Seq<char>, e: EditView) -> Option<EditView> {
    match (char_at_byte(s, e.start), char_at_byte(s, e.end)) {
        (Some(a), Some(b)) => Some(EditView { start: a, end: b, text: e.text }),
        _ => None,
    }
}

/// The first `count` of `edits`, each with the span of characters that its
/// span of bytes covers in `s`; none where a span does not begin and end
/// with a character.
pub open spec fn char_spans(s: Seq<char>, edits: Seq<EditView>, count: int) -> Option<
    Seq<EditView>,
>
    decreases count,
{
    if count <= 0 {
        Some(Seq::empty())
    } else {
        match (char_spans(s, edits, count - 1), char_span(s, edits[count - 1])) {
            (Some(prev), Some(e)) => Some(prev.push(e)),
            _ => None,
        }
    }
}

/// The text `content` with the spans of bytes of `edits` replaced. The
/// edits have to begin and end with a character of `content`, and lie in it
/// in ascending order without overlap: else the structure that gave them
/// does not belong to this text.
pub open spec fn replaced(content: Seq<char>, edits: Seq<EditView>) -> Result<
    Seq<char>,
    crate::types::Error,
> {
    match char_spans(content, edits, edits.len() as int) {
        Some(spans) => if ordered(spans, content.len() as int) {
            Ok(spliced(content, spans, 0))
        } else {
            Err(crate::types::Error::StructuralQueryError)
        },
        None => Err(crate::types::Error::StructuralQueryError),
    }
}

/// The text `content` with the spans of bytes of `edits` replaced.
pub fn replace_spans(content: &Vec<char>, edits: &Vec<Edit>) -> (r: Result<
    Vec<char>,
    crate::types::Error,
>)
    ensures
        match r {
            Ok(v) => replaced(content@, edit_views(edits@)) == Ok::<
                Seq<char>,
                crate::types::Error,
            >(v@),
            Err(e) => replaced(content@, edit_views(edits@)) == Err::<
                Seq<char>,
                crate::types::Error,
            >(e),
        },
{
    let mut spans: Vec<Edit> = Vec::new();
    let ghost ev = edit_views(edits@);
    let mut i: usize = 0;
    assert(edit_views(spans@) =~= Seq::<EditView>::empty());
    while i < edits.len()
        invariant
            i <= edits.len(),
            ev == edit_views(edits@),
            char_spans(content@, ev, i as int) == Some(edit_views(spans@)),
        decreases edits.len() - i,
    {
        let e = &edits[i];
        assert(ev[i as int] == e@);
        match (char_index(content, e.start), char_index(content, e.end)) {
            (Some(a), Some(b)) => {
                proof {
                    lemma_char_at_byte(content@, e.start as int, a as int);
                    lemma_char_at_byte(content@, e.end as int, b as int);
                }
                let ghost before = edit_views(spans@);
                let span = Edit { start: a, end: b, text: crate::text::copy(&e.text) };
                spans.push(span);
                assert(edit_views(spans@) =~= before.push(span@));
            },
            _ => {
                proof {
                    assert(char_span(content@, ev[i as int]) is None);
                    lemma_char_spans_none(content@, ev, i + 1, edits.len() as int);
                }
                return Err(crate::types::Error::StructuralQueryError);
            },
        }
        i += 1;
    }
    if check_ordered(&spans, content.len()) {
        Ok(apply_edits(content, &spans))
    } else {
        Err(crate::types::Error::StructuralQueryError)
    }
}

/// Once a span fails, the whole list does.
proof fn lemma_char_spans_none(s: Seq<char>, edits: Seq<EditView>, from: int, to: int)
    requires
        0 <= from <= to,
        char_spans(s, edits, from) is None,
    ensures
        char_spans(s, edits, to) is None,
    decreases to - from,
{
    if from < to {
        lemma_char_spans_none(s, edits, from, to - 1);
    }
}

/// The edit `e` replaces a span of `content` by the text that the span
/// holds.
pub open spec fn keeps_text(content: Seq<char>, e: EditView) -> bool {
    char_span(content, e) matches Some(span) && 0 <= span.start <= span.end <= content.len()
        && span.text == content.subrange(span.start, span.end)
}

/// Each of `edits` replaces a span of `content` by the text that the span
/// holds.
pub open spec fn all_keep_text(content: Seq<char>, edits: Seq<EditView>) -> bool {
    forall|i: int| 0 <= i < edits.len() ==> keeps_text(content, #[trigger] edits[i])
}

proof fn lemma_char_spans_keep(content: Seq<char>, edits: Seq<EditView>, count: int)
    requires
        all_keep_text(content, edits),
        0 <= count <= edits.len(),
    ensures
        char_spans(content, edits, count) is Some,
        char_spans(content, edits, count)->0.len() == count,
        forall|i: int|
            0 <= i < count ==> (#[trigger] char_spans(content, edits, count)->0[i]).text
                == content.subrange(
                char_spans(content, edits, count)->0[i].start,
                char_spans(content, edits, count)->0[i].end,
            ),
    decreases count,
{
    if count > 0 {
        lemma_char_spans_keep(content, edits, count - 1);
        assert(keeps_text(content, edits[count - 1]));
        let prev = char_spans(content, edits, count - 1)->0;
        let now = char_spans(content, edits, count)->0;
        assert forall|i: int| 0 <= i < count implies (#[trigger] now[i]).text == content.subrange(
            now[i].start,
            now[i].end,
        ) by {
            if i < count - 1 {
                assert(now[i] == prev[i]);
            }
        }
    }
}

/// Same text: edits that replace each span by the text that it holds leave
/// the content as it is, character for character.
pub proof fn lemma_replaced_same(content: Seq<char>, edits: Seq<EditView>)
    requires
        all_keep_text(content, edits),
    ensures
        replaced(content, edits) is Ok ==> replaced(content, edits) == Ok::<
            Seq<char>,
            crate::types::Error,
        >(content),
{
    lemma_char_spans_keep(content, edits, edits.len() as int);
    let spans = char_spans(content, edits, edits.len() as int)->0;
    if ordered(spans, content.len() as int) {
        if spans.len() > 0 {
            assert(0 <= spans[0].start);
        }
        lemma_spliced_same(content, spans, 0);
        assert(content.skip(0) =~= content);
    }
}

} // verus!

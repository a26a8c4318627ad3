//! Character-sequence utilities shared by the scanners and the mutators.
//!
//! Every function works on `Vec<char>` and is specified over `Seq<char>`.

use vstd::prelude::*;
use vstd::std_specs::iter::IteratorSpec;

verus! {

broadcast use vstd::string::group_string_axioms;

/// `String::push` appends one character.
pub assume_specification[ String::push ](s: &mut String, c: char)
    ensures
        final(s)@ == old(s)@.push(c),
;

/// The characters of `s`, in order.
pub fn to_chars(s: &str) -> (v: Vec<char>)
    ensures
        v@ == s@,
{
    let mut v: Vec<char> = Vec::new();
    for c in it: s.chars()
        invariant
            it.seq() == s@,
            v@ == s@.take(it.index() as int),
    {
        v.push(c);
        assert(s@.take(it.index() + 1) == s@.take(it.index() as int).push(s@[it.index() as int]));
    }
    assert(s@.take(s@.len() as int) == s@);
    v
}

/// The string made of the characters of `v`, in order.
pub fn from_chars(v: &Vec<char>) -> (s: String)
    ensures
        s@ == v@,
{
    let mut s = String::new();
    let mut i: usize = 0;
    while i < v.len()
        invariant
            i <= v.len(),
            s@ == v@.take(i as int),
        decreases v.len() - i,
    {
        s.push(v[i]);
        assert(v@.take(i + 1) == v@.take(i as int).push(v@[i as int]));
        i += 1;
    }
    assert(v@.take(v@.len() as int) == v@);
    s
}


/// Whether `a` and `b` hold the same characters.
pub fn same(a: &Vec<char>, b: &Vec<char>) -> (r: bool)
    ensures
        r == (a@ == b@),
{
    if a.len() != b.len() {
        return false;
    }
    let mut i: usize = 0;
    while i < a.len()
        invariant
            i <= a.len(),
            a.len() == b.len(),
            forall|k: int| 0 <= k < i ==> a@[k] == b@[k],
        decreases a.len() - i,
    {
        if a[i] != b[i] {
            return false;
        }
        i += 1;
    }
    assert(a@ =~= b@);
    true
}

/// Whether the string `s` holds exactly the characters of `v`.
pub fn same_str(v: &Vec<char>, s: &str) -> (r: bool)
    ensures
        r == (v@ == s@),
{
    let t = to_chars(s);
    same(v, &t)
}

/// The characters of `s` from index `from` up to, not including, `to`.
pub fn slice(s: &Vec<char>, from: usize, to: usize) -> (r: Vec<char>)
    requires
        from <= to <= s.len(),
    ensures
        r@ == s@.subrange(from as int, to as int),
{
    let mut r: Vec<char> = Vec::new();
    let mut i: usize = from;
    while i < to
        invariant
            from <= i <= to <= s.len(),
            r@ == s@.subrange(from as int, i as int),
        decreases to - i,
    {
        r.push(s[i]);
        assert(s@.subrange(from as int, i + 1) == s@.subrange(from as int, i as int).push(
            s@[i as int],
        ));
        i += 1;
    }
    r
}

/// Appends the characters of `tail` to `head`.
pub fn push_all(head: &mut Vec<char>, tail: &Vec<char>)
    ensures
        final(head)@ == old(head)@ + tail@,
{
    let mut i: usize = 0;
    while i < tail.len()
        invariant
            i <= tail.len(),
            head@ == old(head)@ + tail@.take(i as int),
        decreases tail.len() - i,
    {
        head.push(tail[i]);
        assert(tail@.take(i + 1) == tail@.take(i as int).push(tail@[i as int]));
        assert(old(head)@ + tail@.take(i + 1) == (old(head)@ + tail@.take(i as int)).push(
            tail@[i as int],
        ));
        i += 1;
    }
    assert(tail@.take(tail@.len() as int) == tail@);
}

/// Appends the characters of the string `tail` to `head`.
pub fn push_str(head: &mut Vec<char>, tail: &str)
    ensures
        final(head)@ == old(head)@ + tail@,
{
    let t = to_chars(tail);
    push_all(head, &t);
}

/// `pat` stands in `s` at index `i`.
pub open spec fn occurs_at(s: Seq<char>, pat: Seq<char>, i: int) -> bool {
    0 <= i && i + pat.len() <= s.len() && s.subrange(i, i + pat.len()) == pat
}

/// `s` begins with `pat`.
pub open spec fn has_prefix(s: Seq<char>, pat: Seq<char>) -> bool {
    occurs_at(s, pat, 0)
}

/// `s` ends with `pat`.
pub open spec fn has_suffix(s: Seq<char>, pat: Seq<char>) -> bool {
    occurs_at(s, pat, s.len() - pat.len())
}

/// The least index at or after `from` at which `pat` stands in `s`.
pub open spec fn find_from(s: Seq<char>, pat: Seq<char>, from: int) -> Option<int>
    decreases s.len() - from + 1,
{
    if from < 0 || from + pat.len() > s.len() {
        None
    } else if occurs_at(s, pat, from) {
        Some(from)
    } else {
        find_from(s, pat, from + 1)
    }
}

/// The least index at which `pat` stands in `s`.
pub open spec fn find(s: Seq<char>, pat: Seq<char>) -> Option<int> {
    find_from(s, pat, 0)
}

/// `pat` stands somewhere in `s`.
pub open spec fn contains(s: Seq<char>, pat: Seq<char>) -> bool {
    find(s, pat) is Some
}

/// `find_from` returns the first occurrence at or after `from`, and `None`
/// only where there is none.
pub proof fn lemma_find_from(s: Seq<char>, pat: Seq<char>, from: int)
    requires
        0 <= from,
    ensures
        match find_from(s, pat, from) {
            Some(i) => from <= i && occurs_at(s, pat, i) && forall|j: int|
                from <= j < i ==> !occurs_at(s, pat, j),
            None => forall|j: int| from <= j ==> !occurs_at(s, pat, j),
        },
    decreases s.len() - from + 1,
{
    if from + pat.len() > s.len() {
    } else if occurs_at(s, pat, from) {
    } else {
        lemma_find_from(s, pat, from + 1);
    }
}

/// Any occurrence of `pat` at or after `from` makes `find_from` succeed with
/// an index no later than it.
pub proof fn lemma_find_from_some(s: Seq<char>, pat: Seq<char>, from: int, at: int)
    requires
        0 <= from <= at,
        occurs_at(s, pat, at),
    ensures
        find_from(s, pat, from) is Some,
        find_from(s, pat, from)->0 <= at,
{
    lemma_find_from(s, pat, from);
}

/// Whether `pat` stands in `s` at index `i`.
pub fn matches_at(s: &Vec<char>, pat: &Vec<char>, i: usize) -> (r: bool)
    ensures
        r == occurs_at(s@, pat@, i as int),
{
    if pat.len() > s.len() || i > s.len() - pat.len() {
        return false;
    }
    let mut k: usize = 0;
    while k < pat.len()
        invariant
            k <= pat.len(),
            i + pat.len() <= s.len(),
            forall|j: int| 0 <= j < k ==> s@[i + j] == pat@[j],
        decreases pat.len() - k,
    {
        if s[i + k] != pat[k] {
            assert(s@.subrange(i as int, i + pat.len())[k as int] != pat@[k as int]);
            return false;
        }
        k += 1;
    }
    assert(s@.subrange(i as int, i + pat.len()) =~= pat@);
    true
}

/// The least index at or after `from` at which `pat` stands in `s`.
pub fn find_in_from(s: &Vec<char>, pat: &Vec<char>, from: usize) -> (r: Option<usize>)
    ensures
        r is Some == find_from(s@, pat@, from as int) is Some,
        r matches Some(i) ==> find_from(s@, pat@, from as int) == Some(i as int) && occurs_at(
            s@,
            pat@,
            i as int,
        ),
{
    if pat.len() > s.len() || from > s.len() - pat.len() {
        return None;
    }
    let last: usize = s.len() - pat.len();
    let mut i: usize = from;
    loop
        invariant
            from <= i <= last,
            last == s.len() - pat.len(),
            find_from(s@, pat@, from as int) == find_from(s@, pat@, i as int),
        decreases last - i,
    {
        if matches_at(s, pat, i) {
            return Some(i);
        }
        if i == last {
            assert(find_from(s@, pat@, i + 1) is None);
            return None;
        }
        i += 1;
    }
}

/// The least index at which `pat` stands in `s`.
pub fn find_in(s: &Vec<char>, pat: &Vec<char>) -> (r: Option<usize>)
    ensures
        r is Some == find(s@, pat@) is Some,
        r matches Some(i) ==> find(s@, pat@) == Some(i as int) && occurs_at(s@, pat@, i as int),
{
    find_in_from(s, pat, 0)
}

/// The least index at which the string `pat` stands in `s`.
pub fn find_str(s: &Vec<char>, pat: &str) -> (r: Option<usize>)
    ensures
        r is Some == find(s@, pat@) is Some,
        r matches Some(i) ==> find(s@, pat@) == Some(i as int) && occurs_at(s@, pat@, i as int),
{
    let p = to_chars(pat);
    find_in_from(s, &p, 0)
}

/// Whether the string `pat` stands somewhere in `s`.
pub fn contains_str(s: &Vec<char>, pat: &str) -> (r: bool)
    ensures
        r == contains(s@, pat@),
{
    find_str(s, pat).is_some()
}

/// Whether `s` begins with the string `pat`.
pub fn starts_with(s: &Vec<char>, pat: &str) -> (r: bool)
    ensures
        r == has_prefix(s@, pat@),
{
    let p = to_chars(pat);
    matches_at(s, &p, 0)
}

/// Whether `s` ends with the string `pat`.
pub fn ends_with(s: &Vec<char>, pat: &str) -> (r: bool)
    ensures
        r == has_suffix(s@, pat@),
{
    let p = to_chars(pat);
    if p.len() > s.len() {
        return false;
    }
    matches_at(s, &p, s.len() - p.len())
}

/// The characters that Unicode gives the property `White_Space`.
pub open spec fn is_space(c: char) -> bool {
    let n = c as u32;
    (0x09 <= n && n <= 0x0D) || n == 0x20 || n == 0x85 || n == 0xA0 || n == 0x1680 || (0x2000
        <= n && n <= 0x200A) || n == 0x2028 || n == 0x2029 || n == 0x202F || n == 0x205F || n
        == 0x3000
}

/// Whether `c` is white space.
pub fn is_whitespace(c: char) -> (r: bool)
    ensures
        r == is_space(c),
{
    let n: u32 = c as u32;
    (0x09 <= n && n <= 0x0D) || n == 0x20 || n == 0x85 || n == 0xA0 || n == 0x1680 || (0x2000
        <= n && n <= 0x200A) || n == 0x2028 || n == 0x2029 || n == 0x202F || n == 0x205F || n
        == 0x3000
}

/// The number of white-space characters that `s` begins with.
pub open spec fn leading_spaces(s: Seq<char>) -> nat
    decreases s.len(),
{
    if s.len() > 0 && is_space(s[0]) {
        1 + leading_spaces(s.drop_first())
    } else {
        0
    }
}

/// The number of white-space characters that `s` ends with.
pub open spec fn trailing_spaces(s: Seq<char>) -> nat
    decreases s.len(),
{
    if s.len() > 0 && is_space(s.last()) {
        1 + trailing_spaces(s.drop_last())
    } else {
        0
    }
}

/// `s` without the white space that it begins with.
pub open spec fn trim_start(s: Seq<char>) -> Seq<char> {
    s.skip(leading_spaces(s) as int)
}

/// `s` without the white space that it ends with.
pub open spec fn trim_end(s: Seq<char>) -> Seq<char> {
    s.take(s.len() - trailing_spaces(s))
}

/// `s` without the white space at either end.
pub open spec fn trim(s: Seq<char>) -> Seq<char> {
    trim_end(trim_start(s))
}

pub proof fn lemma_leading_spaces(s: Seq<char>)
    ensures
        leading_spaces(s) <= s.len(),
        forall|k: int| 0 <= k < leading_spaces(s) ==> is_space(s[k]),
        leading_spaces(s) < s.len() ==> !is_space(s[leading_spaces(s) as int]),
    decreases s.len(),
{
    if s.len() > 0 && is_space(s[0]) {
        let t = s.drop_first();
        lemma_leading_spaces(t);
        assert forall|k: int| 0 <= k < leading_spaces(s) implies is_space(s[k]) by {
            if k > 0 {
                assert(s[k] == t[k - 1]);
            }
        }
        if leading_spaces(s) < s.len() {
            assert(s[leading_spaces(s) as int] == t[leading_spaces(t) as int]);
        }
    }
}

pub proof fn lemma_trailing_spaces(s: Seq<char>)
    ensures
        trailing_spaces(s) <= s.len(),
        forall|k: int| s.len() - trailing_spaces(s) <= k < s.len() ==> is_space(s[k]),
        trailing_spaces(s) < s.len() ==> !is_space(s[s.len() - trailing_spaces(s) - 1]),
    decreases s.len(),
{
    if s.len() > 0 && is_space(s.last()) {
        let t = s.drop_last();
        lemma_trailing_spaces(t);
        assert forall|k: int| s.len() - trailing_spaces(s) <= k < s.len() implies is_space(
            s[k],
        ) by {
            if k < s.len() - 1 {
                assert(s[k] == t[k]);
            }
        }
        if trailing_spaces(s) < s.len() {
            assert(s[s.len() - trailing_spaces(s) - 1] == t[t.len() - trailing_spaces(t) - 1]);
        }
    }
}

/// A run of white space that is followed by something else, or by the end,
/// is the run that `leading_spaces` counts.
pub proof fn lemma_leading_spaces_is(s: Seq<char>, n: int)
    requires
        0 <= n <= s.len(),
        forall|k: int| 0 <= k < n ==> is_space(s[k]),
        n < s.len() ==> !is_space(s[n]),
    ensures
        leading_spaces(s) == n,
    decreases s.len(),
{
    if n > 0 {
        let t = s.drop_first();
        assert forall|k: int| 0 <= k < n - 1 implies is_space(t[k]) by {
            assert(t[k] == s[k + 1]);
        }
        lemma_leading_spaces_is(t, n - 1);
    }
}

pub proof fn lemma_trailing_spaces_is(s: Seq<char>, n: int)
    requires
        0 <= n <= s.len(),
        forall|k: int| s.len() - n <= k < s.len() ==> is_space(s[k]),
        n < s.len() ==> !is_space(s[s.len() - n - 1]),
    ensures
        trailing_spaces(s) == n,
    decreases s.len(),
{
    if n > 0 {
        let t = s.drop_last();
        assert forall|k: int| t.len() - (n - 1) <= k < t.len() implies is_space(t[k]) by {
            assert(t[k] == s[k]);
        }
        lemma_trailing_spaces_is(t, n - 1);
    }
}

/// The number of white-space characters that `s` begins with.
pub fn count_leading_spaces(s: &Vec<char>) -> (n: usize)
    ensures
        n == leading_spaces(s@),
        n <= s.len(),
{
    let mut i: usize = 0;
    while i < s.len() && is_whitespace(s[i])
        invariant
            i <= s.len(),
            forall|k: int| 0 <= k < i ==> is_space(s@[k]),
        decreases s.len() - i,
    {
        i += 1;
    }
    proof {
        lemma_leading_spaces_is(s@, i as int);
    }
    i
}

/// `s` without the white space at either end.
pub fn trimmed(s: &Vec<char>) -> (r: Vec<char>)
    ensures
        r@ == trim(s@),
{
    let start = count_leading_spaces(s);
    let mut end: usize = s.len();
    while end > start && is_whitespace(s[end - 1])
        invariant
            start <= end <= s.len(),
            forall|k: int| end <= k < s.len() ==> is_space(s@[k]),
        decreases end,
    {
        end -= 1;
    }
    proof {
        let t = s@.skip(start as int);
        lemma_leading_spaces(s@);
        assert forall|k: int| t.len() - (s.len() - end) <= k < t.len() implies is_space(
            t[k],
        ) by {
            assert(t[k] == s@[k + start]);
        }
        if end > start {
            assert(t[t.len() - (s.len() - end) - 1] == s@[end - 1]);
        }
        lemma_trailing_spaces_is(t, s.len() - end);
        assert(t.take(t.len() - (s.len() - end)) =~= s@.subrange(start as int, end as int));
    }
    slice(s, start, end)
}

/// `s` without the white space that it ends with.
pub fn trimmed_end(s: &Vec<char>) -> (r: Vec<char>)
    ensures
        r@ == trim_end(s@),
{
    let mut end: usize = s.len();
    while end > 0 && is_whitespace(s[end - 1])
        invariant
            end <= s.len(),
            forall|k: int| end <= k < s.len() ==> is_space(s@[k]),
        decreases end,
    {
        end -= 1;
    }
    proof {
        lemma_trailing_spaces_is(s@, s.len() - end);
        assert(s@.take(end as int) =~= s@.subrange(0, end as int));
    }
    slice(s, 0, end)
}

/// The character sequences that the elements of `v` stand for.
pub open spec fn views(v: Seq<Vec<char>>) -> Seq<Seq<char>> {
    Seq::new(v.len(), |i: int| v[i]@)
}

/// The character sequences that the strings of `v` stand for.
pub open spec fn str_views(v: Seq<String>) -> Seq<Seq<char>> {
    Seq::new(v.len(), |i: int| v[i]@)
}

/// The least index at which the character `c` stands in `s`.
pub fn find_char(s: &Vec<char>, c: char) -> (r: Option<usize>)
    ensures
        r is Some == find(s@, seq![c]) is Some,
        r matches Some(i) ==> find(s@, seq![c]) == Some(i as int) && i < s.len() && s@[i as int]
            == c,
{
    let mut p: Vec<char> = Vec::new();
    p.push(c);
    assert(p@ =~= seq![c]);
    let r = find_in_from(s, &p, 0);
    proof {
        if let Some(i) = r {
            assert(s@.subrange(i as int, i + 1)[0] == c);
        }
    }
    r
}

/// The pieces of `s` between occurrences of `sep`. There is always at least
/// one piece; `n` separators give `n + 1` pieces, empty ones included.
pub open spec fn split(s: Seq<char>, sep: char) -> Seq<Seq<char>>
    decreases s.len(),
{
    if s.len() == 0 {
        seq![Seq::<char>::empty()]
    } else {
        let prev = split(s.drop_last(), sep);
        if s.last() == sep {
            prev.push(Seq::<char>::empty())
        } else {
            prev.drop_last().push(prev.last().push(s.last()))
        }
    }
}

pub proof fn lemma_split_len(s: Seq<char>, sep: char)
    ensures
        split(s, sep).len() >= 1,
    decreases s.len(),
{
    if s.len() > 0 {
        lemma_split_len(s.drop_last(), sep);
    }
}

/// The pieces of `s` between occurrences of `sep`.
pub fn split_on(s: &Vec<char>, sep: char) -> (r: Vec<Vec<char>>)
    ensures
        views(r@) == split(s@, sep),
        r.len() >= 1,
{
    let mut parts: Vec<Vec<char>> = Vec::new();
    let mut cur: Vec<char> = Vec::new();
    let mut i: usize = 0;
    assert(s@.take(0) =~= Seq::<char>::empty());
    assert(views(parts@).push(cur@) =~= seq![Seq::<char>::empty()]);
    while i < s.len()
        invariant
            i <= s.len(),
            views(parts@).push(cur@) == split(s@.take(i as int), sep),
        decreases s.len() - i,
    {
        let c = s[i];
        let ghost before = views(parts@).push(cur@);
        proof {
            assert(s@.take(i + 1).drop_last() =~= s@.take(i as int));
            assert(s@.take(i + 1).last() == c);
            assert(before.drop_last() =~= views(parts@));
            assert(before.last() == cur@);
        }
        if c == sep {
            let ghost old_parts = parts@;
            parts.push(cur);
            cur = Vec::new();
            assert(views(parts@) =~= before);
        } else {
            cur.push(c);
        }
        i += 1;
    }
    assert(s@.take(s.len() as int) =~= s@);
    let ghost before = views(parts@).push(cur@);
    parts.push(cur);
    assert(views(parts@) =~= before);
    parts
}

/// The elements of `parts` with `sep` between each two neighbours.
pub open spec fn join(parts: Seq<Seq<char>>, sep: Seq<char>) -> Seq<char>
    decreases parts.len(),
{
    if parts.len() == 0 {
        Seq::<char>::empty()
    } else if parts.len() == 1 {
        parts[0]
    } else {
        join(parts.drop_last(), sep) + sep + parts.last()
    }
}

/// The elements of `parts` from index `from` on, with `sep` between each two
/// neighbours.
pub fn join_from(parts: &Vec<Vec<char>>, from: usize, sep: &str) -> (r: Vec<char>)
    requires
        from <= parts.len(),
    ensures
        r@ == join(views(parts@).skip(from as int), sep@),
{
    let mut r: Vec<char> = Vec::new();
    let mut i: usize = from;
    assert(views(parts@).subrange(from as int, from as int) =~= Seq::<Seq<char>>::empty());
    while i < parts.len()
        invariant
            from <= i <= parts.len(),
            r@ == join(views(parts@).subrange(from as int, i as int), sep@),
        decreases parts.len() - i,
    {
        proof {
            let next = views(parts@).subrange(from as int, i + 1);
            assert(next.drop_last() =~= views(parts@).subrange(from as int, i as int));
            assert(next.last() == parts@[i as int]@);
            if i == from {
                assert(r@ + parts@[i as int]@ =~= parts@[i as int]@);
            }
        }
        if i > from {
            push_str(&mut r, sep);
        }
        push_all(&mut r, &parts[i]);
        i += 1;
    }
    assert(views(parts@).subrange(from as int, parts.len() as int) =~= views(parts@).skip(
        from as int,
    ));
    r
}

/// `p` without one carriage return at its end, if it has one.
pub open spec fn strip_cr(p: Seq<char>) -> Seq<char> {
    if p.len() > 0 && p.last() == '\r' {
        p.drop_last()
    } else {
        p
    }
}

/// The lines of `s`. A line ends at a line feed; a carriage return just
/// before that line feed belongs to the line ending. What follows the last
/// line feed is a line too unless it is empty.
pub open spec fn lines(s: Seq<char>) -> Seq<Seq<char>> {
    let pieces = split(s, '\n');
    let body = Seq::new((pieces.len() - 1) as nat, |i: int| strip_cr(pieces[i]));
    if pieces.last().len() == 0 {
        body
    } else {
        body.push(pieces.last())
    }
}

/// The lines of `s`.
pub fn lines_of(s: &Vec<char>) -> (r: Vec<Vec<char>>)
    ensures
        views(r@) == lines(s@),
{
    let pieces = split_on(s, '\n');
    let mut r: Vec<Vec<char>> = Vec::new();
    let mut i: usize = 0;
    let ghost ps = split(s@, '\n');
    while i + 1 < pieces.len()
        invariant
            i + 1 <= pieces.len(),
            views(pieces@) == ps,
            views(r@) == Seq::new(i as nat, |k: int| strip_cr(ps[k])),
        decreases pieces.len() - i,
    {
        let p = &pieces[i];
        let n = p.len();
        let ghost before = views(r@);
        assert(ps[i as int] == p@);
        let line = if n > 0 && p[n - 1] == '\r' {
            slice(p, 0, n - 1)
        } else {
            slice(p, 0, n)
        };
        assert(line@ =~= strip_cr(p@));
        r.push(line);
        assert(views(r@) =~= before.push(line@));
        assert(views(r@) =~= Seq::new((i + 1) as nat, |k: int| strip_cr(ps[k])));
        i += 1;
    }
    let last = &pieces[pieces.len() - 1];
    assert(ps.last() == last@);
    if last.len() > 0 {
        let ghost before = views(r@);
        let l = slice(last, 0, last.len());
        assert(l@ =~= last@);
        r.push(l);
        assert(views(r@) =~= before.push(last@));
    }
    r
}

/// The maximal runs of characters of `s` that are not white space.
pub open spec fn words(s: Seq<char>) -> Seq<Seq<char>>
    decreases s.len(),
{
    if s.len() == 0 {
        Seq::<Seq<char>>::empty()
    } else {
        let prev = words(s.drop_last());
        if is_space(s.last()) {
            prev
        } else if s.len() >= 2 && !is_space(s[s.len() - 2]) && prev.len() > 0 {
            prev.drop_last().push(prev.last().push(s.last()))
        } else {
            prev.push(seq![s.last()])
        }
    }
}

/// The maximal runs of characters of `s` that are not white space.
pub fn words_of(s: &Vec<char>) -> (r: Vec<Vec<char>>)
    ensures
        views(r@) == words(s@),
{
    let mut parts: Vec<Vec<char>> = Vec::new();
    let mut cur: Vec<char> = Vec::new();
    let mut i: usize = 0;
    assert(s@.take(0) =~= Seq::<char>::empty());
    assert(views(parts@) =~= Seq::<Seq<char>>::empty());
    while i < s.len()
        invariant
            i <= s.len(),
            i > 0 && !is_space(s@[i - 1]) ==> cur@.len() > 0 && views(parts@).push(cur@) == words(
                s@.take(i as int),
            ),
            !(i > 0 && !is_space(s@[i - 1])) ==> cur@.len() == 0 && views(parts@) == words(
                s@.take(i as int),
            ),
        decreases s.len() - i,
    {
        let c = s[i];
        let ghost in_word = i > 0 && !is_space(s@[i - 1]);
        let ghost done = views(parts@);
        proof {
            let t = s@.take(i + 1);
            assert(t.drop_last() =~= s@.take(i as int));
            assert(t.last() == c);
            if i > 0 {
                assert(t[t.len() - 2] == s@[i - 1]);
            }
            if in_word {
                assert(done.push(cur@).drop_last() =~= done);
            }
        }
        if is_whitespace(c) {
            if cur.len() > 0 {
                parts.push(cur);
                cur = Vec::new();
                assert(views(parts@) =~= words(s@.take(i + 1)));
            }
        } else {
            cur.push(c);
            proof {
                if !in_word {
                    assert(cur@ =~= seq![c]);
                }
            }
        }
        i += 1;
    }
    assert(s@.take(s.len() as int) =~= s@);
    if cur.len() > 0 {
        let ghost before = views(parts@).push(cur@);
        parts.push(cur);
        assert(views(parts@) =~= before);
    }
    parts
}

/// `s` without the prefix `p`, where it has that prefix.
pub open spec fn strip_prefix(s: Seq<char>, p: Seq<char>) -> Option<Seq<char>> {
    if has_prefix(s, p) {
        Some(s.skip(p.len() as int))
    } else {
        None
    }
}

/// What an optional character vector stands for.
pub open spec fn opt_chars(v: Option<Vec<char>>) -> Option<Seq<char>> {
    match v {
        Some(x) => Some(x@),
        None => None,
    }
}

/// `s` without the prefix `p`, where it has that prefix.
pub fn without_prefix(s: &Vec<char>, p: &str) -> (r: Option<Vec<char>>)
    ensures
        opt_chars(r) == strip_prefix(s@, p@),
{
    let pc = to_chars(p);
    if matches_at(s, &pc, 0) {
        let n = s.len();
        assert(s@.skip(pc@.len() as int) =~= s@.subrange(pc@.len() as int, n as int));
        Some(slice(s, pc.len(), n))
    } else {
        None
    }
}

/// A copy of `s`.
pub fn copy(s: &Vec<char>) -> (r: Vec<char>)
    ensures
        r@ == s@,
{
    let n = s.len();
    assert(s@.subrange(0, n as int) =~= s@);
    slice(s, 0, n)
}

/// An owned string with the characters of `s`.
pub fn text(s: &str) -> (r: String)
    ensures
        r@ == s@,
{
    from_chars(&to_chars(s))
}

/// The characters of each string of `v`.
pub fn chars_of_all(v: &Vec<String>) -> (r: Vec<Vec<char>>)
    ensures
        views(r@) == str_views(v@),
{
    let mut r: Vec<Vec<char>> = Vec::new();
    let mut i: usize = 0;
    while i < v.len()
        invariant
            i <= v.len(),
            r.len() == i,
            forall|k: int| 0 <= k < i ==> r@[k]@ == v@[k]@,
        decreases v.len() - i,
    {
        r.push(to_chars(v[i].as_str()));
        i += 1;
    }
    assert(views(r@) =~= str_views(v@));
    r
}

/// Whether one of the strings of `v` is `s`.
pub fn has_string(v: &Vec<String>, s: &str) -> (r: bool)
    ensures
        r == str_views(v@).contains(s@),
{
    let mut i: usize = 0;
    while i < v.len()
        invariant
            i <= v.len(),
            forall|k: int| 0 <= k < i ==> str_views(v@)[k] != s@,
        decreases v.len() - i,
    {
        assert(str_views(v@)[i as int] == v@[i as int]@);
        if same_str(&to_chars(v[i].as_str()), s) {
            return true;
        }
        i += 1;
    }
    false
}

/// The strings of `v` followed by `last`.
pub fn extended(v: &Vec<String>, last: &str) -> (r: Vec<String>)
    ensures
        str_views(r@) == str_views(v@).push(last@),
{
    let mut r: Vec<String> = Vec::new();
    let mut i: usize = 0;
    while i < v.len()
        invariant
            i <= v.len(),
            r.len() == i,
            forall|k: int| 0 <= k < i ==> r@[k]@ == v@[k]@,
        decreases v.len() - i,
    {
        r.push(text(v[i].as_str()));
        i += 1;
    }
    r.push(text(last));
    assert(str_views(r@) =~= str_views(v@).push(last@));
    r
}

/// A text without the separator is one piece.
pub proof fn lemma_split_none(s: Seq<char>, sep: char)
    requires
        forall|i: int| 0 <= i < s.len() ==> s[i] != sep,
    ensures
        split(s, sep) == seq![s],
    decreases s.len(),
{
    if s.len() == 0 {
        assert(s =~= Seq::<char>::empty());
    } else {
        let t = s.drop_last();
        assert forall|i: int| 0 <= i < t.len() implies t[i] != sep by {
            assert(t[i] == s[i]);
        }
        lemma_split_none(t, sep);
        assert(t.push(s.last()) =~= s);
        assert(seq![t].drop_last().push(seq![t].last().push(s.last())) =~= seq![s]);
    }
}

/// The pieces of a text in two parts: the last piece of the first part and
/// the first piece of the second are one piece.
pub proof fn lemma_split_concat(a: Seq<char>, b: Seq<char>, sep: char)
    ensures
        split(a + b, sep) == split(a, sep).drop_last() + seq![
            split(a, sep).last() + split(b, sep)[0],
        ] + split(b, sep).skip(1),
    decreases b.len(),
{
    let pa = split(a, sep);
    lemma_split_len(a, sep);
    lemma_split_len(b, sep);
    if b.len() == 0 {
        assert(a + b =~= a);
        assert(pa.last() + Seq::<char>::empty() =~= pa.last());
        assert(split(b, sep).skip(1) =~= Seq::<Seq<char>>::empty());
        assert(pa.drop_last() + seq![pa.last()] + Seq::<Seq<char>>::empty() =~= pa);
    } else {
        let b1 = b.drop_last();
        let x = b.last();
        let pb1 = split(b1, sep);
        lemma_split_concat(a, b1, sep);
        lemma_split_len(b1, sep);
        assert((a + b).drop_last() =~= a + b1);
        assert((a + b).last() == x);
        let pieces = split(a + b1, sep);
        assert(pieces == pa.drop_last() + seq![pa.last() + pb1[0]] + pb1.skip(1));
        if x == sep {
            assert(split(a + b, sep) == pieces.push(Seq::<char>::empty()));
            assert(split(b, sep) == pb1.push(Seq::<char>::empty()));
            assert(split(b, sep)[0] == pb1[0]);
            assert(split(b, sep).skip(1) =~= pb1.skip(1).push(Seq::<char>::empty()));
            assert(pieces.push(Seq::<char>::empty()) =~= pa.drop_last() + seq![pa.last() + pb1[0]]
                + pb1.skip(1).push(Seq::<char>::empty()));
        } else {
            assert(split(a + b, sep) == pieces.drop_last().push(pieces.last().push(x)));
            assert(split(b, sep) == pb1.drop_last().push(pb1.last().push(x)));
            if pb1.len() == 1 {
                assert(pb1.skip(1) =~= Seq::<Seq<char>>::empty());
                assert(pieces =~= pa.drop_last() + seq![pa.last() + pb1[0]]);
                assert(pieces.last() == pa.last() + pb1[0]);
                assert(pieces.drop_last() =~= pa.drop_last());
                assert(split(b, sep) =~= seq![pb1[0].push(x)]);
                assert((pa.last() + pb1[0]).push(x) =~= pa.last() + pb1[0].push(x));
                assert(split(b, sep).skip(1) =~= Seq::<Seq<char>>::empty());
                assert(pieces.drop_last().push(pieces.last().push(x)) =~= pa.drop_last() + seq![
                    pa.last() + split(b, sep)[0],
                ] + split(b, sep).skip(1));
            } else {
                assert(pieces.last() == pb1.last());
                assert(split(b, sep)[0] == pb1[0]);
                assert(split(b, sep).skip(1) =~= pb1.skip(1).drop_last().push(
                    pb1.last().push(x),
                ));
                assert(pieces.drop_last() =~= pa.drop_last() + seq![pa.last() + pb1[0]]
                    + pb1.skip(1).drop_last());
                assert(pieces.drop_last().push(pieces.last().push(x)) =~= pa.drop_last() + seq![
                    pa.last() + split(b, sep)[0],
                ] + split(b, sep).skip(1));
            }
        }
    }
}

/// The pieces of two texts with a separator between them are the pieces of
/// the one followed by the pieces of the other.
pub proof fn lemma_split_at_separator(a: Seq<char>, b: Seq<char>, sep: char)
    ensures
        split(a + seq![sep] + b, sep) == split(a, sep) + split(b, sep),
{
    let head = a + seq![sep];
    lemma_split_len(a, sep);
    lemma_split_len(b, sep);
    assert(head.drop_last() =~= a);
    assert(head.last() == sep);
    assert(split(head, sep) == split(a, sep).push(Seq::<char>::empty()));
    lemma_split_concat(head, b, sep);
    assert(split(head, sep).drop_last() =~= split(a, sep));
    assert(Seq::<char>::empty() + split(b, sep)[0] =~= split(b, sep)[0]);
    assert(split(a, sep) + seq![split(b, sep)[0]] + split(b, sep).skip(1) =~= split(a, sep)
        + split(b, sep));
}

/// Joining the pieces of a text with the separator gives the text back.
pub proof fn lemma_join_split(s: Seq<char>, sep: char)
    ensures
        join(split(s, sep), seq![sep]) == s,
    decreases s.len(),
{
    if s.len() == 0 {
        assert(s =~= Seq::<char>::empty());
    } else {
        let t = s.drop_last();
        let prev = split(t, sep);
        lemma_join_split(t, sep);
        lemma_split_len(t, sep);
        assert(t.push(s.last()) =~= s);
        if s.last() == sep {
            let now = prev.push(Seq::<char>::empty());
            assert(now.drop_last() =~= prev);
            assert(join(now, seq![sep]) == join(prev, seq![sep]) + seq![sep] + Seq::<char>::empty());
            assert(t + seq![sep] + Seq::<char>::empty() =~= s);
        } else {
            let grown = prev.last().push(s.last());
            let now = prev.drop_last().push(grown);
            if prev.len() == 1 {
                assert(join(prev, seq![sep]) == prev[0]);
                assert(now =~= seq![grown]);
                assert(join(now, seq![sep]) == grown);
            } else {
                assert(now.drop_last() =~= prev.drop_last());
                assert(join(now, seq![sep]) == join(prev.drop_last(), seq![sep]) + seq![sep]
                    + grown);
                assert(join(prev, seq![sep]) == join(prev.drop_last(), seq![sep]) + seq![sep]
                    + prev.last());
                assert(join(prev.drop_last(), seq![sep]) + seq![sep] + grown =~= (join(
                    prev.drop_last(),
                    seq![sep],
                ) + seq![sep] + prev.last()).push(s.last()));
            }
        }
    }
}

/// The first piece of a text is where the text begins: it ends at the first
/// separator, or with the text where there is none.
pub proof fn lemma_split_first(s: Seq<char>, sep: char)
    ensures
        split(s, sep).len() >= 1,
        split(s, sep)[0].len() <= s.len(),
        s.take(split(s, sep)[0].len() as int) == split(s, sep)[0],
        forall|i: int| 0 <= i < split(s, sep)[0].len() ==> s[i] != sep,
        split(s, sep).len() == 1 ==> split(s, sep)[0] == s,
        split(s, sep).len() > 1 ==> split(s, sep)[0].len() < s.len() && s[split(
            s,
            sep,
        )[0].len() as int] == sep,
    decreases s.len(),
{
    lemma_split_len(s, sep);
    if s.len() == 0 {
        assert(s.take(0) =~= Seq::<char>::empty());
    } else {
        let t = s.drop_last();
        let prev = split(t, sep);
        lemma_split_first(t, sep);
        let f = prev[0];
        if s.last() == sep {
            assert(split(s, sep)[0] == f);
            assert(s.take(f.len() as int) =~= t.take(f.len() as int));
            assert forall|i: int| 0 <= i < f.len() implies s[i] != sep by {
                assert(s[i] == t[i]);
            }
            if prev.len() == 1 {
                assert(f.len() == t.len());
            } else {
                assert(s[f.len() as int] == t[f.len() as int]);
            }
        } else if prev.len() == 1 {
            assert(f == t);
            assert(split(s, sep) =~= seq![t.push(s.last())]);
            assert(t.push(s.last()) =~= s);
            assert(s.take(s.len() as int) =~= s);
        } else {
            assert(split(s, sep)[0] == f);
            assert(s.take(f.len() as int) =~= t.take(f.len() as int));
            assert forall|i: int| 0 <= i < f.len() implies s[i] != sep by {
                assert(s[i] == t[i]);
            }
            assert(s[f.len() as int] == t[f.len() as int]);
        }
    }
}

/// No piece holds the separator.
pub proof fn lemma_split_pieces(s: Seq<char>, sep: char)
    ensures
        forall|i: int, j: int|
            0 <= i < split(s, sep).len() && 0 <= j < split(s, sep)[i].len() ==> split(
                s,
                sep,
            )[i][j] != sep,
    decreases s.len(),
{
    if s.len() > 0 {
        let t = s.drop_last();
        let prev = split(t, sep);
        lemma_split_pieces(t, sep);
        lemma_split_len(t, sep);
        let now = split(s, sep);
        assert forall|i: int, j: int| 0 <= i < now.len() && 0 <= j < now[i].len() implies now[i][j]
            != sep by {
            if s.last() == sep {
                if i < prev.len() {
                    assert(now[i] == prev[i]);
                }
            } else {
                if i < prev.len() - 1 {
                    assert(now[i] == prev[i]);
                } else {
                    if j < prev.last().len() {
                        assert(now[i][j] == prev[i][j]);
                    }
                }
            }
        }
    }
}

/// Where `pat` stands at `at` and nowhere before, `find` gives `at`.
pub proof fn lemma_find_is(s: Seq<char>, pat: Seq<char>, at: int)
    requires
        occurs_at(s, pat, at),
        forall|j: int| 0 <= j < at ==> !occurs_at(s, pat, j),
    ensures
        find(s, pat) == Some(at),
{
    lemma_find_from(s, pat, 0);
    lemma_find_from_some(s, pat, 0, at);
}

/// A text that is made of a prefix and a rest has that prefix, and is the
/// rest without it.
pub proof fn lemma_strip_prefix(p: Seq<char>, rest: Seq<char>)
    ensures
        strip_prefix(p + rest, p) == Some(rest),
{
    assert((p + rest).subrange(0, p.len() as int) =~= p);
    assert((p + rest).skip(p.len() as int) =~= rest);
}

/// A text does not have a prefix that differs from it in some character.
pub proof fn lemma_not_prefix(s: Seq<char>, p: Seq<char>, at: int)
    requires
        0 <= at < p.len(),
        at < s.len() ==> s[at] != p[at],
    ensures
        !has_prefix(s, p),
{
    if has_prefix(s, p) {
        assert(s.subrange(0, p.len() as int)[at] == s[at]);
    }
}

} // verus!

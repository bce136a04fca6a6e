//! Character-level helpers shared by the parsers: conversion between strings
//! and character vectors, whitespace trimming and line splitting.

use vstd::prelude::*;
use vstd::string::*;

verus! {

/// `String::push` appends exactly one character.
pub assume_specification[ String::push ](s: &mut String, c: char)
    ensures
        final(s)@ == old(s)@.push(c),
;

/// The characters of `s`, in order.
pub fn chars_of(s: &str) -> (v: Vec<char>)
    ensures
        v@ == s@,
{
    let mut v: Vec<char> = Vec::new();
    let chars = s.chars();
    for c in it: chars
        invariant
            it.seq() == s@,
            v@ == it.seq().take(it.index() as int),
    {
        v.push(c);
        assert(it.seq().take(it.index() + 1) =~= it.seq().take(it.index() as int).push(c));
    }
    assert(v@ =~= s@);
    v
}

/// The string made of `v[from..to]`.
pub fn string_of(v: &Vec<char>, from: usize, to: usize) -> (s: String)
    requires
        from <= to <= v.len(),
    ensures
        s@ == v@.subrange(from as int, to as int),
{
    let mut s = String::new();
    let mut i: usize = from;
    while i < to
        invariant
            from <= i <= to <= v.len(),
            s@ == v@.subrange(from as int, i as int),
        decreases to - i,
    {
        s.push(v[i]);
        i = i + 1;
        assert(v@.subrange(from as int, i as int) =~= v@.subrange(from as int, i - 1).push(
            v@[i - 1],
        ));
    }
    s
}

/// A copy of `v[from..to]`.
pub fn sub_vec(v: &Vec<char>, from: usize, to: usize) -> (r: Vec<char>)
    requires
        from <= to <= v.len(),
    ensures
        r@ == v@.subrange(from as int, to as int),
{
    let mut r: Vec<char> = Vec::new();
    let mut i: usize = from;
    while i < to
        invariant
            from <= i <= to <= v.len(),
            r@ == v@.subrange(from as int, i as int),
        decreases to - i,
    {
        r.push(v[i]);
        i = i + 1;
        assert(v@.subrange(from as int, i as int) =~= v@.subrange(from as int, i - 1).push(
            v@[i - 1],
        ));
    }
    r
}

/// Appends the characters of `v` to `s`.
pub fn push_chars(s: &mut String, v: &Vec<char>)
    ensures
        final(s)@ == old(s)@ + v@,
{
    let mut i: usize = 0;
    while i < v.len()
        invariant
            i <= v.len(),
            s@ == old(s)@ + v@.take(i as int),
        decreases v.len() - i,
    {
        s.push(v[i]);
        i = i + 1;
        assert(old(s)@ + v@.take(i as int) =~= (old(s)@ + v@.take(i - 1)).push(v@[i - 1]));
    }
    assert(v@.take(v.len() as int) =~= v@);
}

/// Decides whether two texts hold the same characters.
pub fn same_text(a: &str, b: &str) -> (r: bool)
    ensures
        r == (a@ == b@),
{
    let x = chars_of(a);
    let y = chars_of(b);
    if x.len() != y.len() {
        return false;
    }
    let mut i: usize = 0;
    while i < x.len()
        invariant
            i <= x.len(),
            x.len() == y.len(),
            x@ == a@,
            y@ == b@,
            forall|k: int| 0 <= k < i ==> x@[k] == y@[k],
        decreases x.len() - i,
    {
        if x[i] != y[i] {
            return false;
        }
        i = i + 1;
    }
    assert(x@ =~= y@);
    true
}

/// The code points that carry the Unicode `White_Space` property.
pub open spec fn is_space(c: char) -> bool {
    ||| ('\u{0009}' <= c && c <= '\u{000D}')
    ||| c == '\u{0020}'
    ||| c == '\u{0085}'
    ||| c == '\u{00A0}'
    ||| c == '\u{1680}'
    ||| ('\u{2000}' <= c && c <= '\u{200A}')
    ||| c == '\u{2028}'
    ||| c == '\u{2029}'
    ||| c == '\u{202F}'
    ||| c == '\u{205F}'
    ||| c == '\u{3000}'
}

/// Decides whether `c` is a whitespace character.
pub fn space(c: char) -> (r: bool)
    ensures
        r == is_space(c),
{
    ('\u{0009}' <= c && c <= '\u{000D}') || c == '\u{0020}' || c == '\u{0085}' || c == '\u{00A0}'
        || c == '\u{1680}' || ('\u{2000}' <= c && c <= '\u{200A}') || c == '\u{2028}' || c
        == '\u{2029}' || c == '\u{202F}' || c == '\u{205F}' || c == '\u{3000}'
}

/// Index of the first character at or after `from` that is not whitespace,
/// or the length of `s` when there is none.
pub open spec fn skip_spaces(s: Seq<char>, from: int) -> int
    decreases s.len() - from,
{
    if 0 <= from < s.len() && is_space(s[from]) {
        skip_spaces(s, from + 1)
    } else {
        from
    }
}

/// Index just past the last character of `s[low..to]` that is not
/// whitespace, or `low` when that range is all whitespace.
pub open spec fn drop_spaces(s: Seq<char>, low: int, to: int) -> int
    decreases to - low,
{
    if low < to <= s.len() && is_space(s[to - 1]) {
        drop_spaces(s, low, to - 1)
    } else {
        to
    }
}

/// `s` without its leading and trailing whitespace.
pub open spec fn trimmed(s: Seq<char>) -> Seq<char> {
    let a = skip_spaces(s, 0);
    let b = drop_spaces(s, a, s.len() as int);
    s.subrange(a, b)
}

/// `skip_spaces` stays inside the text, passes whitespace only, and stops
/// at a character that is none.
pub proof fn lemma_skip_spaces_bounds(s: Seq<char>, from: int)
    requires
        0 <= from <= s.len(),
    ensures
        from <= skip_spaces(s, from) <= s.len(),
        forall|i: int| from <= i < skip_spaces(s, from) ==> is_space(s[i]),
        skip_spaces(s, from) < s.len() ==> !is_space(s[skip_spaces(s, from)]),
    decreases s.len() - from,
{
    if from < s.len() && is_space(s[from]) {
        lemma_skip_spaces_bounds(s, from + 1);
    }
}

/// `drop_spaces` stays inside its range, passes whitespace only, and stops
/// behind a character that is none.
pub proof fn lemma_drop_spaces_bounds(s: Seq<char>, low: int, to: int)
    requires
        0 <= low <= to <= s.len(),
    ensures
        low <= drop_spaces(s, low, to) <= to,
        forall|i: int| drop_spaces(s, low, to) <= i < to ==> is_space(s[i]),
        low < drop_spaces(s, low, to) ==> !is_space(s[drop_spaces(s, low, to) - 1]),
    decreases to - low,
{
    if low < to && is_space(s[to - 1]) {
        lemma_drop_spaces_bounds(s, low, to - 1);
    }
}

/// Trimming takes whitespace away and nothing else, and leaves none at
/// either end: the trimmed text is a stretch `[a, b)` of the text, all
/// before `a` and all from `b` on is whitespace, and where the stretch is
/// not empty it begins and ends with a character that is no whitespace.
pub proof fn lemma_trimmed(s: Seq<char>)
    ensures
        ({
            let a = skip_spaces(s, 0);
            let b = drop_spaces(s, a, s.len() as int);
            &&& 0 <= a <= b <= s.len()
            &&& trimmed(s) == s.subrange(a, b)
            &&& forall|i: int| 0 <= i < a ==> is_space(s[i])
            &&& forall|i: int| b <= i < s.len() ==> is_space(s[i])
            &&& a < b ==> !is_space(trimmed(s)[0]) && !is_space(trimmed(s).last())
        }),
{
    lemma_skip_spaces_bounds(s, 0);
    let a = skip_spaces(s, 0);
    lemma_drop_spaces_bounds(s, a, s.len() as int);
}

/// The bounds `(a, b)` of `v` without its surrounding whitespace.
pub fn trim_bounds(v: &Vec<char>) -> (r: (usize, usize))
    ensures
        r.0 <= r.1 <= v.len(),
        r.0 == skip_spaces(v@, 0),
        r.1 == drop_spaces(v@, r.0 as int, v.len() as int),
        v@.subrange(r.0 as int, r.1 as int) == trimmed(v@),
{
    let mut a: usize = 0;
    while a < v.len() && space(v[a])
        invariant
            a <= v.len(),
            skip_spaces(v@, 0) == skip_spaces(v@, a as int),
        decreases v.len() - a,
    {
        a = a + 1;
    }
    let mut b: usize = v.len();
    while a < b && space(v[b - 1])
        invariant
            a <= b <= v.len(),
            drop_spaces(v@, a as int, v.len() as int) == drop_spaces(v@, a as int, b as int),
        decreases b - a,
    {
        b = b - 1;
    }
    (a, b)
}

/// Index of the first line feed at or after `from`, or the length of `s`
/// when the rest of `s` holds none.
pub open spec fn line_end(s: Seq<char>, from: int) -> int
    decreases s.len() - from,
{
    if 0 <= from < s.len() && s[from] != '\n' {
        line_end(s, from + 1)
    } else {
        from
    }
}

/// `line_end` stays inside the text, passes no line feed, and stops at one
/// or at the end of the text.
pub proof fn lemma_line_end_bounds(s: Seq<char>, from: int)
    requires
        0 <= from <= s.len(),
    ensures
        from <= line_end(s, from) <= s.len(),
        forall|i: int| from <= i < line_end(s, from) ==> s[i] != '\n',
        line_end(s, from) < s.len() ==> s[line_end(s, from)] == '\n',
    decreases s.len() - from,
{
    if from < s.len() && s[from] != '\n' {
        lemma_line_end_bounds(s, from + 1);
    }
}

/// The line held in `s[from..end]`: a line that a line feed terminated
/// loses one carriage return in front of that line feed.
pub open spec fn line_text(s: Seq<char>, from: int, end: int) -> Seq<char> {
    if end < s.len() && from < end && s[end - 1] == '\r' {
        s.subrange(from, end - 1)
    } else {
        s.subrange(from, end)
    }
}

/// The lines of `s` from index `from` on. Lines end at a line feed or at a
/// carriage return followed by a line feed; the end of the text ends the
/// last line, and a final line ending opens no further line.
pub open spec fn lines_from(s: Seq<char>, from: int) -> Seq<Seq<char>>
    decreases s.len() - from,
{
    if 0 <= from < s.len() {
        let end = line_end(s, from);
        if from <= end < s.len() {
            seq![line_text(s, from, end)] + lines_from(s, end + 1)
        } else {
            seq![line_text(s, from, end)]
        }
    } else {
        Seq::empty()
    }
}

/// The lines of `s`.
pub open spec fn lines_of(s: Seq<char>) -> Seq<Seq<char>> {
    lines_from(s, 0)
}

/// The text that `lines` make when each is followed by a line feed.
pub open spec fn join_lines(lines: Seq<Seq<char>>) -> Seq<char>
    decreases lines.len(),
{
    if lines.len() == 0 {
        Seq::empty()
    } else {
        join_lines(lines.drop_last()) + lines.last() + seq!['\n']
    }
}

/// The bounds of the line that starts at `from`: where its text ends and
/// where the next line starts.
pub fn next_line(v: &Vec<char>, from: usize) -> (r: (usize, usize))
    requires
        from < v.len(),
    ensures
        from <= r.0 <= r.1 <= v.len(),
        from < r.1,
        v@.subrange(from as int, r.0 as int) == line_text(
            v@,
            from as int,
            line_end(v@, from as int),
        ),
        lines_from(v@, from as int) == seq![v@.subrange(from as int, r.0 as int)] + lines_from(
            v@,
            r.1 as int,
        ),
{
    let mut end: usize = from;
    while end < v.len() && v[end] != '\n'
        invariant
            from <= end <= v.len(),
            line_end(v@, from as int) == line_end(v@, end as int),
        decreases v.len() - end,
    {
        end = end + 1;
    }
    proof {
        lemma_line_end_bounds(v@, from as int);
    }
    if end < v.len() {
        let stop = if from < end && v[end - 1] == '\r' {
            end - 1
        } else {
            end
        };
        (stop, end + 1)
    } else {
        proof {
            assert(lines_from(v@, end as int) =~= Seq::<Seq<char>>::empty());
            assert(lines_from(v@, from as int) =~= seq![v@.subrange(from as int, end as int)]
                + lines_from(v@, end as int));
        }
        (end, end)
    }
}

/// The views of a list of character vectors.
pub open spec fn char_views(lines: Seq<Vec<char>>) -> Seq<Seq<char>> {
    lines.map_values(|l: Vec<char>| l@)
}

/// The lines of `text`, each as a vector of characters.
pub fn split_lines(text: &str) -> (r: Vec<Vec<char>>)
    ensures
        char_views(r@) == lines_of(text@),
{
    let v = chars_of(text);
    let mut out: Vec<Vec<char>> = Vec::new();
    let mut pos: usize = 0;
    assert(char_views(out@) + lines_from(v@, 0) =~= lines_of(v@));
    while pos < v.len()
        invariant
            pos <= v.len(),
            v@ == text@,
            lines_of(v@) == char_views(out@) + lines_from(v@, pos as int),
        decreases v.len() - pos,
    {
        let (stop, next) = next_line(&v, pos);
        let line = sub_vec(&v, pos, stop);
        let ghost before = char_views(out@);
        out.push(line);
        proof {
            assert(char_views(out@) =~= before + seq![v@.subrange(pos as int, stop as int)]);
            assert(before + (seq![v@.subrange(pos as int, stop as int)] + lines_from(
                v@,
                next as int,
            )) =~= char_views(out@) + lines_from(v@, next as int));
        }
        pos = next;
    }
    proof {
        assert(lines_from(v@, pos as int) =~= Seq::<Seq<char>>::empty());
        assert(char_views(out@) + Seq::<Seq<char>>::empty() =~= char_views(out@));
    }
    out
}

/// Joining lines and splitting the result again gives the lines back, as
/// long as no line holds a line feed or ends in a carriage return.
pub proof fn lemma_lines_of_join(lines: Seq<Seq<char>>)
    requires
        forall|k: int| 0 <= k < lines.len() ==> is_plain_line(#[trigger] lines[k]),
    ensures
        lines_of(join_lines(lines)) == lines,
{
    lemma_lines_from_join(Seq::empty(), lines);
    assert(Seq::<char>::empty() + join_lines(lines) =~= join_lines(lines));
}

/// A line that survives joining and splitting unchanged: it holds no line
/// feed and does not end in a carriage return.
pub open spec fn is_plain_line(line: Seq<char>) -> bool {
    &&& forall|i: int| 0 <= i < line.len() ==> line[i] != '\n'
    &&& (line.len() > 0 ==> line.last() != '\r')
}

proof fn lemma_line_end_of_plain(prefix: Seq<char>, line: Seq<char>, rest: Seq<char>)
    requires
        forall|i: int| 0 <= i < line.len() ==> line[i] != '\n',
    ensures
        line_end(prefix + line + seq!['\n'] + rest, prefix.len() as int) == prefix.len()
            + line.len(),
    decreases line.len(),
{
    let s = prefix + line + seq!['\n'] + rest;
    if line.len() == 0 {
        assert(s[prefix.len() as int] == '\n');
    } else {
        assert(s[prefix.len() as int] == line[0]);
        let grown = prefix.push(line[0]);
        let l2 = line.drop_first();
        assert(grown + l2 + seq!['\n'] + rest =~= s);
        assert forall|i: int| 0 <= i < l2.len() implies l2[i] != '\n' by {
            assert(l2[i] == line[i + 1]);
        }
        lemma_line_end_of_plain(grown, l2, rest);
    }
}

proof fn lemma_lines_from_join(prefix: Seq<char>, lines: Seq<Seq<char>>)
    requires
        forall|k: int| 0 <= k < lines.len() ==> is_plain_line(#[trigger] lines[k]),
    ensures
        lines_from(prefix + join_lines(lines), prefix.len() as int) == lines,
    decreases lines.len(),
{
    lemma_join_lines_front(lines);
    if lines.len() == 0 {
        assert(prefix + join_lines(lines) =~= prefix);
        assert(lines_from(prefix, prefix.len() as int) =~= lines);
    } else {
        let first = lines[0];
        let rest = lines.drop_first();
        let tail = join_lines(rest);
        let s = prefix + join_lines(lines);
        assert(is_plain_line(first));
        assert(s =~= prefix + first + seq!['\n'] + tail);
        lemma_line_end_of_plain(prefix, first, tail);
        let end = prefix.len() + first.len();
        assert(line_end(s, prefix.len() as int) == end);
        assert(s[end as int] == '\n');
        if first.len() > 0 {
            assert(s[end - 1] == first.last());
        }
        assert(line_text(s, prefix.len() as int, end as int) =~= first);
        let grown = prefix + first + seq!['\n'];
        assert(s =~= grown + tail);
        assert forall|k: int| 0 <= k < rest.len() implies is_plain_line(#[trigger] rest[k]) by {
            assert(rest[k] == lines[k + 1]);
        }
        lemma_lines_from_join(grown, rest);
        assert(grown.len() == end + 1);
        assert(lines_from(s, prefix.len() as int) =~= seq![first] + rest);
        assert(seq![first] + rest =~= lines);
    }
}

/// `join_lines` read from the front: the first line, a line feed, and the
/// other lines joined.
pub proof fn lemma_join_lines_front(lines: Seq<Seq<char>>)
    ensures
        lines.len() > 0 ==> join_lines(lines) == lines[0] + seq!['\n'] + join_lines(
            lines.drop_first(),
        ),
    decreases lines.len(),
{
    if lines.len() == 1 {
        assert(lines.drop_last().len() == 0);
        assert(lines.drop_first().len() == 0);
        assert(join_lines(lines.drop_last()) =~= Seq::<char>::empty());
        assert(join_lines(lines.drop_first()) =~= Seq::<char>::empty());
        assert(lines.last() == lines[0]);
        assert(join_lines(lines) == join_lines(lines.drop_last()) + lines.last() + seq!['\n']);
        assert(join_lines(lines) =~= lines[0] + seq!['\n']);
        assert(lines[0] + seq!['\n'] + join_lines(lines.drop_first()) =~= lines[0] + seq!['\n']);
    } else if lines.len() > 1 {
        let front = lines.drop_last();
        lemma_join_lines_front(front);
        assert(front.drop_first() =~= lines.drop_first().drop_last());
        assert(front[0] == lines[0]);
        assert(lines.drop_first().last() == lines.last());
        assert(join_lines(lines.drop_first()) == join_lines(lines.drop_first().drop_last())
            + lines.last() + seq!['\n']);
        assert(join_lines(lines) =~= lines[0] + seq!['\n'] + join_lines(lines.drop_first()));
    }
}

} // verus!

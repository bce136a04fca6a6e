//! The record of who owns a secret and which permission bits it has. An
//! export keeps one beside each encrypted file, so that an import can give
//! the restored file the owner and the mode of its source. The record is
//! one line of three decimal numbers: user, group, permission bits.

use crate::effects::FileMeta;
use crate::text::chars_of;
use vstd::prelude::*;
use vstd::string::*;

verus! {

/// The extension of the file that records owner and mode of a secret.
pub open spec fn meta_extension() -> Seq<char> {
    "meta"@
}

/// True when `c` is a decimal digit.
pub open spec fn is_digit(c: char) -> bool {
    '0' <= c && c <= '9'
}

/// The value of a decimal digit.
pub open spec fn digit_value(c: char) -> nat {
    if c == '1' {
        1
    } else if c == '2' {
        2
    } else if c == '3' {
        3
    } else if c == '4' {
        4
    } else if c == '5' {
        5
    } else if c == '6' {
        6
    } else if c == '7' {
        7
    } else if c == '8' {
        8
    } else if c == '9' {
        9
    } else {
        0
    }
}

/// The digit that writes a value below ten.
pub open spec fn digit_char(d: nat) -> char {
    if d == 1 {
        '1'
    } else if d == 2 {
        '2'
    } else if d == 3 {
        '3'
    } else if d == 4 {
        '4'
    } else if d == 5 {
        '5'
    } else if d == 6 {
        '6'
    } else if d == 7 {
        '7'
    } else if d == 8 {
        '8'
    } else if d == 9 {
        '9'
    } else {
        '0'
    }
}

/// Every character is a decimal digit.
pub open spec fn all_digits(digits: Seq<char>) -> bool {
    forall|i: int| 0 <= i < digits.len() ==> is_digit(#[trigger] digits[i])
}

/// The number that a row of decimal digits writes.
pub open spec fn value_of(digits: Seq<char>) -> nat
    decreases digits.len(),
{
    if digits.len() == 0 {
        0
    } else {
        10 * value_of(digits.drop_last()) + digit_value(digits.last())
    }
}

/// The number that a text writes: the text must be a row of at least one
/// decimal digit, and the number must fit 32 bits.
pub open spec fn number_in(digits: Seq<char>) -> Option<u32> {
    if digits.len() > 0 && all_digits(digits) && value_of(digits) <= u32::MAX {
        Some(value_of(digits) as u32)
    } else {
        None
    }
}

/// The decimal digits that write `n`, without leading zeros.
pub open spec fn decimal(n: nat) -> Seq<char>
    decreases n,
{
    if n < 10 {
        seq![digit_char(n)]
    } else {
        decimal(n / 10).push(digit_char(n % 10))
    }
}

/// What `decimal` writes is a row of digits that writes the number back.
pub proof fn lemma_decimal(n: nat)
    ensures
        decimal(n).len() > 0,
        all_digits(decimal(n)),
        value_of(decimal(n)) == n,
    decreases n,
{
    if n < 10 {
        let d = decimal(n);
        assert(d.drop_last() =~= Seq::<char>::empty());
        assert(value_of(d.drop_last()) == 0);
        assert(d.last() == digit_char(n));
    } else {
        lemma_decimal(n / 10);
        let front = decimal(n / 10);
        let d = decimal(n);
        assert(d.drop_last() =~= front);
        assert(d.last() == digit_char(n % 10));
        assert(digit_value(digit_char(n % 10)) == n % 10);
        assert forall|i: int| 0 <= i < d.len() implies is_digit(#[trigger] d[i]) by {
            if i < front.len() {
                assert(d[i] == front[i]);
            }
        }
    }
}

/// The value of the digit `c`, or `None` where `c` is no digit.
pub fn digit_of(c: char) -> (r: Option<u32>)
    ensures
        match r {
            Some(d) => is_digit(c) && d == digit_value(c),
            None => !is_digit(c),
        },
{
    if c == '0' {
        Some(0)
    } else if c == '1' {
        Some(1)
    } else if c == '2' {
        Some(2)
    } else if c == '3' {
        Some(3)
    } else if c == '4' {
        Some(4)
    } else if c == '5' {
        Some(5)
    } else if c == '6' {
        Some(6)
    } else if c == '7' {
        Some(7)
    } else if c == '8' {
        Some(8)
    } else if c == '9' {
        Some(9)
    } else {
        None
    }
}

/// The digit that writes `d`.
pub fn digit(d: u32) -> (c: char)
    requires
        d < 10,
    ensures
        c == digit_char(d as nat),
{
    if d == 1 {
        '1'
    } else if d == 2 {
        '2'
    } else if d == 3 {
        '3'
    } else if d == 4 {
        '4'
    } else if d == 5 {
        '5'
    } else if d == 6 {
        '6'
    } else if d == 7 {
        '7'
    } else if d == 8 {
        '8'
    } else if d == 9 {
        '9'
    } else {
        '0'
    }
}

/// Writes `n` in decimal digits.
pub fn render_number(n: u32) -> (r: String)
    ensures
        r@ == decimal(n as nat),
    decreases n,
{
    if n < 10 {
        let mut r = String::new();
        r.push(digit(n));
        assert(r@ =~= seq![digit_char(n as nat)]);
        r
    } else {
        let mut r = render_number(n / 10);
        r.push(digit(n % 10));
        r
    }
}

/// Reads the number that `v[from..to]` writes.
pub fn parse_number(v: &Vec<char>, from: usize, to: usize) -> (r: Option<u32>)
    requires
        from <= to <= v.len(),
    ensures
        r == number_in(v@.subrange(from as int, to as int)),
{
    let ghost digits = v@.subrange(from as int, to as int);
    if from == to {
        return None;
    }
    let mut acc: u64 = 0;
    let mut i: usize = from;
    assert(digits.take(0) =~= Seq::<char>::empty());
    while i < to
        invariant
            from <= i <= to <= v.len(),
            digits == v@.subrange(from as int, to as int),
            all_digits(digits.take(i - from)),
            acc <= 0x1_0000_0000,
            acc == if value_of(digits.take(i - from)) <= 0x1_0000_0000 {
                value_of(digits.take(i - from))
            } else {
                0x1_0000_0000
            },
        decreases to - i,
    {
        let ghost k = i - from;
        proof {
            assert(digits.take(k + 1).drop_last() =~= digits.take(k));
            assert(digits.take(k + 1).last() == v@[i as int]);
        }
        match digit_of(v[i]) {
            None => {
                proof {
                    assert(digits[k] == v@[i as int]);
                    assert(!is_digit(digits[k]));
                }
                return None;
            },
            Some(d) => {
                let next: u64 = acc * 10 + d as u64;
                acc = if next > 0x1_0000_0000 {
                    0x1_0000_0000
                } else {
                    next
                };
                proof {
                    assert forall|j: int| 0 <= j < k + 1 implies is_digit(
                        #[trigger] digits.take(k + 1)[j],
                    ) by {
                        if j < k {
                            assert(digits.take(k + 1)[j] == digits.take(k)[j]);
                        }
                    }
                }
            },
        }
        i = i + 1;
    }
    proof {
        assert(digits.take(to - from) =~= digits);
    }
    if acc > 0xFFFF_FFFF {
        None
    } else {
        Some(acc as u32)
    }
}

/// Index of the first character at or after `from` that is no digit, or the
/// length of `s` when the rest of `s` is digits.
pub open spec fn digits_end(s: Seq<char>, from: int) -> int
    decreases s.len() - from,
{
    if 0 <= from < s.len() && is_digit(s[from]) {
        digits_end(s, from + 1)
    } else {
        from
    }
}

/// The line that records `meta`: user, group and permission bits in
/// decimal, a space between them.
pub open spec fn meta_line(meta: FileMeta) -> Seq<char> {
    decimal(meta.uid as nat) + seq![' '] + decimal(meta.gid as nat) + seq![' '] + decimal(
        meta.mode as nat,
    )
}

/// The text of the file that records `meta`: its line and a line feed.
pub open spec fn meta_text(meta: FileMeta) -> Seq<char> {
    meta_line(meta) + seq!['\n']
}

/// What a record says: three numbers with one space between them, and at
/// most one line feed behind them. `None` for any other text.
pub open spec fn parsed_meta(text: Seq<char>) -> Option<FileMeta> {
    let a = digits_end(text, 0);
    let b = digits_end(text, a + 1);
    let c = digits_end(text, b + 1);
    if a < text.len() && text[a] == ' ' && b < text.len() && text[b] == ' ' && (c == text.len() || (
    c == text.len() - 1 && text[c] == '\n')) {
        match (
            number_in(text.subrange(0, a)),
            number_in(text.subrange(a + 1, b)),
            number_in(text.subrange(b + 1, c)),
        ) {
            (Some(uid), Some(gid), Some(mode)) => Some(FileMeta { uid, gid, mode }),
            _ => None,
        }
    } else {
        None
    }
}

/// `digits_end` stays inside the text, passes digits only, and stops at a
/// character that is none or at the end.
pub proof fn lemma_digits_end(s: Seq<char>, from: int)
    requires
        0 <= from <= s.len(),
    ensures
        from <= digits_end(s, from) <= s.len(),
        forall|i: int| from <= i < digits_end(s, from) ==> is_digit(#[trigger] s[i]),
        digits_end(s, from) < s.len() ==> !is_digit(s[digits_end(s, from)]),
    decreases s.len() - from,
{
    if from < s.len() && is_digit(s[from]) {
        lemma_digits_end(s, from + 1);
    }
}

/// Where a row of digits stands in a text and what follows is no digit,
/// `digits_end` finds the end of the row.
pub proof fn lemma_digits_end_of_row(s: Seq<char>, from: int, to: int)
    requires
        0 <= from <= to <= s.len(),
        forall|i: int| from <= i < to ==> is_digit(#[trigger] s[i]),
        to < s.len() ==> !is_digit(s[to]),
    ensures
        digits_end(s, from) == to,
    decreases to - from,
{
    if from < to {
        assert(is_digit(s[from]));
        lemma_digits_end_of_row(s, from + 1, to);
    }
}

/// The end of the row of digits that starts at `from`.
pub fn find_digits_end(v: &Vec<char>, from: usize) -> (r: usize)
    requires
        from <= v.len(),
    ensures
        from <= r <= v.len(),
        r == digits_end(v@, from as int),
{
    let mut i: usize = from;
    while i < v.len() && digit_of(v[i]).is_some()
        invariant
            from <= i <= v.len(),
            digits_end(v@, from as int) == digits_end(v@, i as int),
        decreases v.len() - i,
    {
        i = i + 1;
    }
    i
}

/// Writes the text of the file that records `meta`.
pub fn render_meta(meta: FileMeta) -> (r: String)
    ensures
        r@ == meta_text(meta),
{
    proof {
        reveal_strlit(" ");
        reveal_strlit("\n");
        assert(" "@ =~= seq![' ']);
        assert("\n"@ =~= seq!['\n']);
    }
    let uid = render_number(meta.uid);
    let gid = render_number(meta.gid);
    let mode = render_number(meta.mode);
    uid.concat(" ").concat(gid.as_str()).concat(" ").concat(mode.as_str()).concat("\n")
}

/// Reads a record.
pub fn parse_meta(text: &str) -> (r: Option<FileMeta>)
    ensures
        r == parsed_meta(text@),
{
    let v = chars_of(text);
    let n = v.len();
    let a = find_digits_end(&v, 0);
    if a >= n || v[a] != ' ' {
        return None;
    }
    let b = find_digits_end(&v, a + 1);
    if b >= n || v[b] != ' ' {
        return None;
    }
    let c = find_digits_end(&v, b + 1);
    if !(c == n || (c == n - 1 && v[c] == '\n')) {
        return None;
    }
    let uid = parse_number(&v, 0, a);
    let gid = parse_number(&v, a + 1, b);
    let mode = parse_number(&v, b + 1, c);
    match uid {
        Some(uid) => match gid {
            Some(gid) => match mode {
                Some(mode) => Some(FileMeta { uid, gid, mode }),
                None => None,
            },
            None => None,
        },
        None => None,
    }
}

/// A record that was written reads back as it was.
pub proof fn lemma_meta_round_trip(meta: FileMeta)
    ensures
        parsed_meta(meta_text(meta)) == Some(meta),
{
    let u = decimal(meta.uid as nat);
    let g = decimal(meta.gid as nat);
    let m = decimal(meta.mode as nat);
    lemma_decimal(meta.uid as nat);
    lemma_decimal(meta.gid as nat);
    lemma_decimal(meta.mode as nat);
    let text = meta_text(meta);
    let a = u.len() as int;
    let b = a + 1 + g.len();
    let c = b + 1 + m.len();
    assert(text.len() == c + 1);
    assert forall|i: int| 0 <= i < a implies is_digit(#[trigger] text[i]) by {
        assert(text[i] == u[i]);
    }
    assert(text[a] == ' ');
    assert forall|i: int| a + 1 <= i < b implies is_digit(#[trigger] text[i]) by {
        assert(text[i] == g[i - a - 1]);
    }
    assert(text[b] == ' ');
    assert forall|i: int| b + 1 <= i < c implies is_digit(#[trigger] text[i]) by {
        assert(text[i] == m[i - b - 1]);
    }
    assert(text[c] == '\n');
    lemma_digits_end_of_row(text, 0, a);
    lemma_digits_end_of_row(text, a + 1, b);
    lemma_digits_end_of_row(text, b + 1, c);
    assert(text.subrange(0, a) =~= u);
    assert(text.subrange(a + 1, b) =~= g);
    assert(text.subrange(b + 1, c) =~= m);
}

} // verus!

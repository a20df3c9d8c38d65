//! Line structure of UTF-8 text: where lines start, and how byte offsets
//! correspond to line and column.
//!
//! A line ends with one of the terminators LF, VT, FF, CR, NEL (U+0085),
//! LS (U+2028) or PS (U+2029); CR directly followed by LF counts once.
//! Columns count characters, offsets count bytes.

use vstd::prelude::*;
use vstd::utf8::*;

verus! {

/// A line terminator character ends just before byte `p`.
pub open spec fn terminator_ends_at(t: Seq<u8>, p: int) -> bool {
    &&& 0 < p <= t.len()
    &&& {
        ||| 0x0A <= t[p - 1] <= 0x0D
        ||| (p >= 2 && t[p - 2] == 0xC2 && t[p - 1] == 0x85)
        ||| (p >= 3 && t[p - 3] == 0xE2 && t[p - 2] == 0x80 && (t[p - 1] == 0xA8 || t[p - 1]
            == 0xA9))
    }
}

/// A new line starts at byte `p > 0`: a terminator ends there, and it is not
/// the CR of a CR LF pair.
pub open spec fn line_break_at(t: Seq<u8>, p: int) -> bool {
    &&& terminator_ends_at(t, p)
    &&& !(t[p - 1] == 0x0D && p < t.len() && t[p] == 0x0A)
}

/// The number of line breaks at positions `1..=b`.
pub open spec fn breaks_upto(t: Seq<u8>, b: int) -> nat
    decreases b,
{
    if b <= 0 {
        0
    } else {
        breaks_upto(t, b - 1) + if line_break_at(t, b) {
            1nat
        } else {
            0nat
        }
    }
}

/// The index of the line that holds byte offset `b`.
pub open spec fn line_of(t: Seq<u8>, b: int) -> nat {
    breaks_upto(t, b)
}

/// The number of lines of a text; an empty text has one line.
pub open spec fn line_count(t: Seq<u8>) -> nat {
    breaks_upto(t, t.len() as int) + 1
}

/// Line `l` starts at byte `p`.
pub open spec fn starts_line(t: Seq<u8>, p: int, l: nat) -> bool {
    &&& 0 <= p <= t.len()
    &&& p == 0 || line_break_at(t, p)
    &&& breaks_upto(t, p) == l
}

/// The byte at which line `l` starts.
pub open spec fn line_start(t: Seq<u8>, l: nat) -> int {
    choose|p: int| starts_line(t, p, l)
}

/// The byte at which line `l` ends: the start of the next line, or the end
/// of the text for the last line.
pub open spec fn line_end(t: Seq<u8>, l: nat) -> int {
    if l + 1 < line_count(t) {
        line_start(t, l + 1)
    } else {
        t.len() as int
    }
}

/// The number of characters encoded in bytes `i..j`.
pub open spec fn chars_in(t: Seq<u8>, i: int, j: int) -> nat {
    decode_utf8(t.subrange(i, j)).len()
}

/// The smaller of two numbers.
pub open spec fn at_most(a: int, b: int) -> int {
    if a <= b {
        a
    } else {
        b
    }
}

/// Byte `b` lies `c` characters into line `l`, or at the end of that line
/// when the line has fewer than `c` characters.
pub open spec fn is_offset(t: Seq<u8>, l: nat, c: nat, b: int) -> bool {
    &&& line_start(t, l) <= b <= line_end(t, l)
    &&& is_char_boundary(t, line_start(t, l))
    &&& is_char_boundary(t, b)
    &&& chars_in(t, line_start(t, l), b) == at_most(
        c as int,
        chars_in(t, line_start(t, l), line_end(t, l)) as int,
    )
}

/// The byte offset of column `c` in line `l`; none when the text has no
/// line `l`. A column past the end of the line gives the end of the line.
pub open spec fn offset_of(t: Seq<u8>, l: nat, c: nat) -> Option<int> {
    if l < line_count(t) {
        Some(choose|b: int| is_offset(t, l, c, b))
    } else {
        None
    }
}

/// The line and column of byte offset `b`; none when `b` is past the end of
/// the text or inside a character.
pub open spec fn position_of(t: Seq<u8>, b: int) -> Option<(nat, nat)> {
    if 0 <= b <= t.len() && is_char_boundary(t, b) {
        Some((line_of(t, b), chars_in(t, line_start(t, line_of(t, b)), b)))
    } else {
        None
    }
}

/// Counting breaks never goes down.
pub proof fn lemma_breaks_monotone(t: Seq<u8>, a: int, b: int)
    requires
        a <= b,
    ensures
        breaks_upto(t, a) <= breaks_upto(t, b),
    decreases b - a,
{
    if a < b {
        lemma_breaks_monotone(t, a, b - 1);
    }
}

/// A break at `b` is counted at `b` and not before.
pub proof fn lemma_break_counts(t: Seq<u8>, a: int, b: int)
    requires
        a < b,
        line_break_at(t, b),
    ensures
        breaks_upto(t, a) < breaks_upto(t, b),
{
    lemma_breaks_monotone(t, a, b - 1);
}

/// A line starts at one byte only.
pub proof fn lemma_line_start_unique(t: Seq<u8>, p: int, q: int, l: nat)
    requires
        starts_line(t, p, l),
        starts_line(t, q, l),
    ensures
        p == q,
{
    if p < q {
        lemma_break_counts(t, p, q);
    } else if q < p {
        lemma_break_counts(t, q, p);
    }
}

/// The start of a line is the byte that `line_start` names.
pub proof fn lemma_line_start_is(t: Seq<u8>, p: int, l: nat)
    requires
        starts_line(t, p, l),
    ensures
        line_start(t, l) == p,
{
    lemma_line_start_unique(t, p, line_start(t, l), l);
}

/// Every line up to the one that holds `b` starts at or before `b`.
pub proof fn lemma_line_exists(t: Seq<u8>, b: int, l: nat)
    requires
        0 <= b <= t.len(),
        l <= breaks_upto(t, b),
    ensures
        starts_line(t, line_start(t, l), l),
        line_start(t, l) <= b,
    decreases b,
{
    if b == 0 {
        assert(starts_line(t, 0, l));
        lemma_line_start_is(t, 0, l);
    } else if l <= breaks_upto(t, b - 1) {
        lemma_line_exists(t, b - 1, l);
    } else {
        assert(starts_line(t, b, l));
        lemma_line_start_is(t, b, l);
    }
}

/// The line that holds `b` starts at or before `b`, and the next line, if
/// there is one, starts after `b`.
pub proof fn lemma_line_holds(t: Seq<u8>, b: int)
    requires
        0 <= b <= t.len(),
    ensures
        line_of(t, b) < line_count(t),
        starts_line(t, line_start(t, line_of(t, b)), line_of(t, b)),
        line_start(t, line_of(t, b)) <= b <= line_end(t, line_of(t, b)),
        line_of(t, b) + 1 < line_count(t) ==> b < line_end(t, line_of(t, b)),
{
    let l = line_of(t, b);
    lemma_breaks_monotone(t, b, t.len() as int);
    lemma_line_exists(t, b, l);
    if l + 1 < line_count(t) {
        lemma_line_exists(t, t.len() as int, l + 1);
        let q = line_start(t, l + 1);
        if q <= b {
            lemma_breaks_monotone(t, q, b);
        }
    }
}

/// A character boundary of a text is one of every part of the text that
/// starts at the text's start and ends at a character boundary after it.
pub proof fn lemma_boundary_in_prefix(t: Seq<u8>, s: int, e: int)
    requires
        valid_utf8(t),
        0 <= s <= e <= t.len(),
        is_char_boundary(t, s),
        is_char_boundary(t, e),
    ensures
        valid_utf8(t.subrange(0, e)),
        is_char_boundary(t.subrange(0, e), s),
{
    let u = t.subrange(0, e);
    valid_utf8_split(t, e);
    if s == e {
        is_char_boundary_start_end_of_seq(u);
    } else if 0 < s {
        is_char_boundary_iff_not_is_continuation_byte(t, s);
        is_char_boundary_iff_not_is_continuation_byte(u, s);
    }
}

/// The characters between two character boundaries are those up to a
/// boundary in between and those after it, and there is at least one
/// character between two boundaries that differ.
pub proof fn lemma_chars_add(t: Seq<u8>, s: int, m: int, e: int)
    requires
        valid_utf8(t),
        0 <= s <= m <= e <= t.len(),
        is_char_boundary(t, s),
        is_char_boundary(t, m),
        is_char_boundary(t, e),
    ensures
        chars_in(t, s, e) == chars_in(t, s, m) + chars_in(t, m, e),
        m < e ==> chars_in(t, m, e) >= 1,
{
    let u = t.subrange(0, e);
    lemma_boundary_in_prefix(t, s, e);
    valid_utf8_split(u, s);
    let v = u.subrange(s, u.len() as int);
    assert(v =~= t.subrange(s, e));
    if m == e {
        is_char_boundary_start_end_of_seq(v);
    } else if s < m {
        is_char_boundary_iff_not_is_continuation_byte(t, m);
        is_char_boundary_iff_not_is_continuation_byte(v, m - s);
    }
    valid_utf8_split(v, m - s);
    decode_utf8_split(v, m - s);
    assert(v.subrange(0, m - s) =~= t.subrange(s, m));
    let w = v.subrange(m - s, v.len() as int);
    assert(w =~= t.subrange(m, e));
    if m < e {
        assert(decode_utf8(w).len() >= 1);
    }
}

/// A column of a line lies at one byte only.
pub proof fn lemma_offset_unique(t: Seq<u8>, l: nat, c: nat, a: int, b: int)
    requires
        valid_utf8(t),
        l < line_count(t),
        is_offset(t, l, c, a),
        is_offset(t, l, c, b),
    ensures
        a == b,
{
    let s = line_start(t, l);
    lemma_line_exists(t, t.len() as int, l);
    if l + 1 < line_count(t) {
        lemma_line_exists(t, t.len() as int, l + 1);
    }
    if a < b {
        lemma_chars_add(t, s, a, b);
    } else if b < a {
        lemma_chars_add(t, s, b, a);
    }
}

/// The byte at which a column of a line lies is the byte that `offset_of`
/// names.
pub proof fn lemma_offset_is(t: Seq<u8>, l: nat, c: nat, b: int)
    requires
        valid_utf8(t),
        l < line_count(t),
        is_offset(t, l, c, b),
    ensures
        offset_of(t, l, c) == Some(b),
{
    lemma_offset_unique(t, l, c, b, choose|x: int| is_offset(t, l, c, x));
}

/// In a text of ASCII characters every byte is one character.
pub proof fn lemma_ascii_chars_in(chars: Seq<char>, i: int, j: int)
    requires
        is_ascii_chars(chars),
        0 <= i <= j <= chars.len(),
    ensures
        encode_utf8(chars).len() == chars.len(),
        chars_in(encode_utf8(chars), i, j) == j - i,
        is_char_boundary(encode_utf8(chars), j),
{
    let t = encode_utf8(chars);
    let part = chars.subrange(i, j);
    is_ascii_chars_encode_utf8(chars);
    is_ascii_chars_encode_utf8(part);
    assert(encode_utf8(part) =~= t.subrange(i, j));
    encode_utf8_decode_utf8(part);
    encode_utf8_valid_utf8(chars);
    if j < t.len() {
        is_ascii_chars_nat_bound(chars);
        assert(chars[j] as u8 == t[j]);
        is_char_boundary_iff_not_is_continuation_byte(t, j);
    } else {
        is_char_boundary_start_end_of_seq(t);
    }
}

/// Position mapping round trip: in a text of ASCII characters only, every
/// byte offset up to the end of the text has a line and a column, and the
/// offset of that line and column is the byte offset again.
pub proof fn lemma_ascii_position_round_trip(chars: Seq<char>, b: int)
    requires
        is_ascii_chars(chars),
        0 <= b <= chars.len(),
    ensures
        position_of(encode_utf8(chars), b) matches Some(p) && offset_of(
            encode_utf8(chars),
            p.0,
            p.1,
        ) == Some(b),
{
    let t = encode_utf8(chars);
    let l = line_of(t, b);
    let s = line_start(t, l);
    let e = line_end(t, l);
    lemma_ascii_chars_in(chars, b, b);
    lemma_line_holds(t, b);
    if l + 1 < line_count(t) {
        lemma_line_exists(t, t.len() as int, l + 1);
    }
    lemma_ascii_chars_in(chars, s, s);
    lemma_ascii_chars_in(chars, s, b);
    lemma_ascii_chars_in(chars, s, e);
    let c = (b - s) as nat;
    assert(is_offset(t, l, c, b));
    encode_utf8_valid_utf8(chars);
    lemma_offset_is(t, l, c, b);
}

} // verus!

use ropey::{Rope, RopeSlice};
use vstd::prelude::*;

verus! {

#[verifier::external_type_specification]
#[verifier::external_body]
pub struct ExRope(Rope);

#[verifier::external_type_specification]
#[verifier::external_body]
pub struct ExRopeSlice<'a>(RopeSlice<'a>);

/// The characters that a rope holds, in order.
pub uninterp spec fn rope_text(r: Rope) -> Seq<char>;

/// The characters that a slice of a rope holds, in order.
pub uninterp spec fn slice_text(s: RopeSlice<'_>) -> Seq<char>;

/// Number of bytes of the UTF-8 encoding of one character.
pub open spec fn utf8_width(c: char) -> nat {
    let v = c as u32;
    if v < 0x80 {
        1
    } else if v < 0x800 {
        2
    } else if v < 0x10000 {
        3
    } else {
        4
    }
}

/// Number of bytes of the UTF-8 encoding of a text.
pub open spec fn utf8_len(s: Seq<char>) -> nat
    decreases s.len(),
{
    if s.len() == 0 {
        0
    } else {
        utf8_width(s[0]) + utf8_len(s.drop_first())
    }
}

/// The characters that end a line on their own: LF, VT, FF, CR, NEL, LS and PS.
pub open spec fn is_line_break_char(c: char) -> bool {
    c == '\n' || c == '\u{0B}' || c == '\u{0C}' || c == '\r' || c == '\u{85}' || c == '\u{2028}'
        || c == '\u{2029}'
}

/// Length of the line break at the start of `t`: 2 for CR LF, 1 for another
/// line break character, 0 where `t` does not start with one.
pub open spec fn break_width(t: Seq<char>) -> nat {
    if t.len() >= 2 && t[0] == '\r' && t[1] == '\n' {
        2
    } else if t.len() >= 1 && is_line_break_char(t[0]) {
        1
    } else {
        0
    }
}

/// Number of line breaks in `t`, a CR LF pair counting once.
pub open spec fn count_breaks(t: Seq<char>) -> nat
    decreases t.len(),
{
    if t.len() == 0 {
        0
    } else if break_width(t) > 0 {
        1 + count_breaks(t.skip(break_width(t) as int))
    } else {
        count_breaks(t.skip(1))
    }
}

/// Character index at which line `i` of `t` starts: 0 for the first line,
/// the position just after the `i`-th line break for the others, and the end
/// of the text past the last line.
pub open spec fn line_start(t: Seq<char>, i: nat) -> nat
    decreases t.len(),
{
    if i == 0 || t.len() == 0 {
        0
    } else if break_width(t) > 0 {
        break_width(t) + line_start(t.skip(break_width(t) as int), (i - 1) as nat)
    } else {
        1 + line_start(t.skip(1), i)
    }
}

/// Line `i` of `t`, with the line break that ends it.
pub open spec fn line_text(t: Seq<char>, i: nat) -> Seq<char> {
    t.subrange(line_start(t, i) as int, line_start(t, i + 1) as int)
}

/// The UTF-8 length of a concatenation is the sum of the lengths.
pub proof fn lemma_utf8_len_concat(a: Seq<char>, b: Seq<char>)
    ensures
        utf8_len(a + b) == utf8_len(a) + utf8_len(b),
    decreases a.len(),
{
    if a.len() > 0 {
        assert((a + b).drop_first() == a.drop_first() + b);
        lemma_utf8_len_concat(a.drop_first(), b);
    } else {
        assert(a + b == b);
    }
}

/// A prefix of a text is no longer in UTF-8 than the text.
pub proof fn lemma_utf8_len_prefix(s: Seq<char>, k: int)
    requires
        0 <= k <= s.len(),
    ensures
        utf8_len(s.take(k)) <= utf8_len(s),
{
    lemma_utf8_len_concat(s.take(k), s.skip(k));
    assert(s.take(k) + s.skip(k) == s);
}

/// Line starts do not decrease and stay within the text.
pub proof fn lemma_line_start_bounds(t: Seq<char>, i: nat)
    ensures
        line_start(t, i) <= line_start(t, i + 1) <= t.len(),
    decreases t.len(),
{
    if t.len() == 0 {
    } else if break_width(t) > 0 {
        let w = break_width(t) as int;
        if i > 0 {
            lemma_line_start_bounds(t.skip(w), (i - 1) as nat);
        } else {
            lemma_line_start_bounds(t.skip(w), 0);
        }
    } else {
        lemma_line_start_bounds(t.skip(1), i);
    }
}

/// Builds a rope that holds `text`; wraps `Rope::from_str`.
#[verifier::external_body]
pub fn rope_from_str(text: &str) -> (r: Rope)
    ensures
        rope_text(r) == text@,
{
    Rope::from_str(text)
}

/// The text of a rope as a string; wraps `Rope`'s `to_string`.
#[verifier::external_body]
pub fn rope_to_string(r: &Rope) -> (s: String)
    ensures
        s@ == rope_text(*r),
{
    r.to_string()
}

/// The characters of a rope in order; wraps `Rope::chars`, collected.
#[verifier::external_body]
pub fn rope_chars(r: &Rope) -> (v: Vec<char>)
    ensures
        v@ == rope_text(*r),
{
    r.chars().collect()
}

/// Number of bytes of the rope's text in UTF-8; wraps `Rope::len_bytes`.
#[verifier::external_body]
pub fn rope_len_bytes(r: &Rope) -> (n: usize)
    ensures
        n == utf8_len(rope_text(*r)),
{
    r.len_bytes()
}

/// Number of characters of the rope; wraps `Rope::len_chars`.
#[verifier::external_body]
pub fn rope_len_chars(r: &Rope) -> (n: usize)
    ensures
        n == rope_text(*r).len(),
{
    r.len_chars()
}

/// Number of lines of the rope, one more than its line breaks; wraps
/// `Rope::len_lines`.
#[verifier::external_body]
pub fn rope_len_lines(r: &Rope) -> (n: usize)
    ensures
        n == count_breaks(rope_text(*r)) + 1,
{
    r.len_lines()
}

/// Byte index at which a line starts; wraps `Rope::line_to_byte`, which
/// panics past one line beyond the last.
#[verifier::external_body]
pub fn rope_line_to_byte(r: &Rope, line_idx: usize) -> (n: usize)
    requires
        line_idx <= count_breaks(rope_text(*r)) + 1,
    ensures
        n == utf8_len(rope_text(*r).take(line_start(rope_text(*r), line_idx as nat) as int)),
{
    r.line_to_byte(line_idx)
}

/// A line of the rope with its line break; wraps `Rope::line`, which panics
/// for a line index that is not below the number of lines.
#[verifier::external_body]
pub fn rope_line<'a>(r: &'a Rope, line_idx: usize) -> (s: RopeSlice<'a>)
    requires
        line_idx < count_breaks(rope_text(*r)) + 1,
    ensures
        slice_text(s) == line_text(rope_text(*r), line_idx as nat),
{
    r.line(line_idx)
}

/// Number of bytes of a slice in UTF-8; wraps `RopeSlice::len_bytes`.
#[verifier::external_body]
pub fn slice_len_bytes(s: &RopeSlice<'_>) -> (n: usize)
    ensures
        n == utf8_len(slice_text(*s)),
{
    s.len_bytes()
}

/// Number of characters of a slice; wraps `RopeSlice::len_chars`.
#[verifier::external_body]
pub fn slice_len_chars(s: &RopeSlice<'_>) -> (n: usize)
    ensures
        n == slice_text(*s).len(),
{
    s.len_chars()
}

/// Byte index of a character of a slice; wraps `RopeSlice::char_to_byte`,
/// which panics past one beyond the last character.
#[verifier::external_body]
pub fn slice_char_to_byte(s: &RopeSlice<'_>, char_idx: usize) -> (n: usize)
    requires
        char_idx <= slice_text(*s).len(),
    ensures
        n == utf8_len(slice_text(*s).take(char_idx as int)),
{
    s.char_to_byte(char_idx)
}

/// Inserts text at a character index; wraps `Rope::insert`, which panics past
/// one beyond the last character.
#[verifier::external_body]
pub fn rope_insert(r: &mut Rope, char_idx: usize, text: &str)
    requires
        char_idx <= rope_text(*old(r)).len(),
    ensures
        rope_text(*final(r)) == rope_text(*old(r)).take(char_idx as int) + text@ + rope_text(
            *old(r),
        ).skip(char_idx as int),
{
    r.insert(char_idx, text)
}

} // verus!

use vstd::prelude::*;
use vstd::string::*;

verus! {

/// What `str::to_lowercase` returns for a text: the lowercase mapping of the
/// Unicode standard, character by character, with the context rule for a
/// final capital sigma.
pub uninterp spec fn lowercase(s: Seq<char>) -> Seq<char>;

/// The characters that have the Unicode `White_Space` property.
pub open spec fn is_white_space(c: char) -> bool {
    let v = c as u32;
    (0x09 <= v <= 0x0D) || v == 0x20 || v == 0x85 || v == 0xA0 || v == 0x1680 || (0x2000 <= v
        <= 0x200A) || v == 0x2028 || v == 0x2029 || v == 0x202F || v == 0x205F || v == 0x3000
}

/// Lowercases a text; wraps `str::to_lowercase`.
#[verifier::external_body]
pub fn to_lowercase(s: &str) -> (r: String)
    ensures
        r@ == lowercase(s@),
{
    s.to_lowercase()
}

/// Whether a character is white space, as `char::is_whitespace` decides it:
/// whether it has the `White_Space` property.
pub fn is_whitespace(c: char) -> (b: bool)
    ensures
        b == is_white_space(c),
{
    let v = c as u32;
    (0x09 <= v && v <= 0x0D) || v == 0x20 || v == 0x85 || v == 0xA0 || v == 0x1680 || (0x2000
        <= v && v <= 0x200A) || v == 0x2028 || v == 0x2029 || v == 0x202F || v == 0x205F || v
        == 0x3000
}

/// A string of one character; wraps `char`'s `to_string`.
#[verifier::external_body]
pub fn char_to_string(c: char) -> (s: String)
    ensures
        s@ == seq![c],
{
    c.to_string()
}

/// Appends a character; wraps `String::push`.
#[verifier::external_body]
pub fn string_push(s: &mut String, c: char)
    ensures
        final(s)@ == old(s)@.push(c),
{
    s.push(c)
}

/// Removes and returns the last character, `None` on an empty string; wraps
/// `String::pop`.
#[verifier::external_body]
pub fn string_pop(s: &mut String) -> (c: Option<char>)
    ensures
        old(s)@.len() == 0 ==> c is None && final(s)@ == old(s)@,
        old(s)@.len() > 0 ==> c == Some(old(s)@.last()) && final(s)@ == old(s)@.drop_last(),
{
    s.pop()
}

/// The run of characters at the start of `s` up to the first white space.
pub open spec fn word_at(s: Seq<char>) -> Seq<char>
    decreases s.len(),
{
    if s.len() == 0 || is_white_space(s[0]) {
        seq![]
    } else {
        seq![s[0]] + word_at(s.drop_first())
    }
}

/// The first word of `s`, words being separated by white space, as
/// `str::split_whitespace` yields it first; `None` where `s` is all white
/// space.
pub open spec fn first_word(s: Seq<char>) -> Option<Seq<char>>
    decreases s.len(),
{
    if s.len() == 0 {
        None
    } else if is_white_space(s[0]) {
        first_word(s.drop_first())
    } else {
        Some(word_at(s))
    }
}

/// The first word of a text.
pub fn first_word_of(s: &str) -> (r: Option<String>)
    ensures
        match first_word(s@) {
            Some(w) => r matches Some(x) && x@ == w,
            None => r is None,
        },
{
    let n = s.unicode_len();
    let mut i: usize = 0;
    assert(s@.skip(0) =~= s@);
    while i < n && is_whitespace(s.get_char(i))
        invariant
            n == s@.len(),
            i <= n,
            first_word(s@) == first_word(s@.skip(i as int)),
        decreases n - i,
    {
        assert(s@.skip(i as int).drop_first() =~= s@.skip(i + 1));
        i = i + 1;
    }
    if i == n {
        assert(s@.skip(i as int) =~= seq![]);
        return None;
    }
    let mut j: usize = i;
    assert(s@.subrange(i as int, i as int) =~= seq![]);
    while j < n && !is_whitespace(s.get_char(j))
        invariant
            n == s@.len(),
            i <= j <= n,
            word_at(s@.skip(i as int)) == s@.subrange(i as int, j as int) + word_at(
                s@.skip(j as int),
            ),
        decreases n - j,
    {
        assert(s@.skip(j as int).drop_first() =~= s@.skip(j + 1));
        assert(s@.subrange(i as int, j + 1) =~= s@.subrange(i as int, j as int) + seq![
            s@[j as int],
        ]);
        j = j + 1;
    }
    if j == n {
        assert(s@.skip(j as int) =~= seq![]);
    }
    assert(word_at(s@.skip(j as int)) =~= seq![]);
    assert(s@.subrange(i as int, j as int) + seq![] =~= s@.subrange(i as int, j as int));
    let w = s.substring_char(i, j);
    Some(w.to_string())
}

} // verus!

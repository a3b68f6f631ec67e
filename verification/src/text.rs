//! Character classes and conversions between strings and character vectors.

use vstd::prelude::*;

verus! {

/// Whether `c` has the Unicode `White_Space` property, which
/// `char::is_whitespace` decides: tab, line feed, vertical tab, form feed,
/// carriage return, space, next line, no-break space, ogham space mark, the
/// spaces from en quad to hair space, line separator, paragraph separator,
/// narrow no-break space, medium mathematical space and ideographic space.
pub open spec fn char_is_whitespace(c: char) -> bool {
    ||| '\u{9}' <= c <= '\u{d}'
    ||| c == '\u{20}'
    ||| c == '\u{85}'
    ||| c == '\u{a0}'
    ||| c == '\u{1680}'
    ||| '\u{2000}' <= c <= '\u{200a}'
    ||| c == '\u{2028}'
    ||| c == '\u{2029}'
    ||| c == '\u{202f}'
    ||| c == '\u{205f}'
    ||| c == '\u{3000}'
}

/// Whether `c` has the Unicode `Alphabetic` property (as `char::is_alphabetic`
/// decides it).
pub uninterp spec fn char_is_alphabetic(c: char) -> bool;

/// Whether `char::is_alphanumeric` holds of `c`, for a character outside
/// the `White_Space` class.
pub uninterp spec fn alphanumeric_outside_whitespace(c: char) -> bool;

/// Whether `c` is alphabetic or numeric (as `char::is_alphanumeric` decides
/// it). Unicode's `White_Space` characters are neither `Alphabetic` nor of
/// a numeric general category (`Nd`, `Nl`, `No`), so none of them is
/// alphanumeric.
pub open spec fn char_is_alphanumeric(c: char) -> bool {
    !char_is_whitespace(c) && alphanumeric_outside_whitespace(c)
}

/// Whether `c` is whitespace, as `char::is_whitespace` decides it.
pub fn is_whitespace(c: char) -> (r: bool)
    ensures
        r == char_is_whitespace(c),
{
    ('\u{9}' <= c && c <= '\u{d}')
        || c == '\u{20}'
        || c == '\u{85}'
        || c == '\u{a0}'
        || c == '\u{1680}'
        || ('\u{2000}' <= c && c <= '\u{200a}')
        || c == '\u{2028}'
        || c == '\u{2029}'
        || c == '\u{202f}'
        || c == '\u{205f}'
        || c == '\u{3000}'
}

/// Calls `char::is_alphabetic`. Its result is named [`char_is_alphabetic`].
#[verifier::external_body]
pub fn is_alphabetic(c: char) -> (r: bool)
    ensures
        r == char_is_alphabetic(c),
{
    c.is_alphabetic()
}

/// Calls `char::is_alphanumeric`, which the standard library documents as
/// "alphabetic or numeric": so every alphabetic character is alphanumeric,
/// and, as [`char_is_alphanumeric`] states, no whitespace character is. For
/// the other characters its result is named [`alphanumeric_outside_whitespace`].
#[verifier::external_body]
pub fn is_alphanumeric(c: char) -> (r: bool)
    ensures
        r == char_is_alphanumeric(c),
        !char_is_whitespace(c) ==> r == alphanumeric_outside_whitespace(c),
        char_is_alphabetic(c) ==> r,
{
    c.is_alphanumeric()
}

/// Whether `c` is one of the ASCII decimal digits `0` to `9`.
pub open spec fn is_digit_char(c: char) -> bool {
    '0' <= c <= '9'
}

/// A decimal digit: what `char::is_digit(10)` accepts.
pub fn is_decimal_digit(c: char) -> (r: bool)
    ensures
        r == is_digit_char(c),
{
    '0' <= c && c <= '9'
}

/// The numeric value of a decimal digit.
pub open spec fn digit_value(c: char) -> int {
    (c as int) - ('0' as int)
}

/// The characters of a string, in order.
pub fn chars_of(s: &str) -> (v: Vec<char>)
    ensures
        v@ == s@,
{
    let mut v: Vec<char> = Vec::new();
    for c in it: s.chars()
        invariant
            v@ == it.seq().take(it.index() as int),
            it.seq() == s@,
    {
        v.push(c);
    }
    v
}

/// Collects characters into a `String` (the standard library's
/// `FromIterator<char>` for `String`), which holds exactly those characters.
#[verifier::external_body]
pub fn string_from_chars(v: &Vec<char>) -> (s: String)
    ensures
        s@ == v@,
{
    v.iter().collect()
}

/// Whether the characters in `text` spell exactly `word`.
pub fn spells(text: &Vec<char>, word: &[char]) -> (r: bool)
    ensures
        r == (text@ == word@),
{
    if text.len() != word.len() {
        return false;
    }
    let mut i: usize = 0;
    while i < text.len()
        invariant
            text.len() == word.len(),
            i <= text.len(),
            forall|j: int| 0 <= j < i ==> text@[j] == word@[j],
        decreases text.len() - i,
    {
        if text[i] != word[i] {
            return false;
        }
        i = i + 1;
    }
    assert(text@ =~= word@);
    true
}

/// Whether `c` occurs in `v`.
pub fn contains_char(v: &Vec<char>, c: char) -> (r: bool)
    ensures
        r == v@.contains(c),
{
    let mut i: usize = 0;
    while i < v.len()
        invariant
            i <= v.len(),
            forall|j: int| 0 <= j < i ==> v@[j] != c,
        decreases v.len() - i,
    {
        if v[i] == c {
            assert(v@[i as int] == c);
            return true;
        }
        i = i + 1;
    }
    false
}

} // verus!

//! Reading number literals: integers of each width, and the decimal texts
//! that the standard library reads as floats.
//!
//! The integer rules are those of the standard library's `FromStr` for the
//! integer types: an optional `+` (or, for signed types, `-`) followed by one
//! or more ASCII digits, whose value must fit the type. The float rule is the
//! grammar that the standard library documents for `FromStr` on `f32` and
//! `f64`, where letters match in either case:
//!
//! ```text
//! Float  ::= Sign? ( 'inf' | 'infinity' | 'nan' | Number )
//! Number ::= ( Digit+ | Digit+ '.' Digit* | Digit* '.' Digit+ ) Exp?
//! Exp    ::= 'e' Sign? Digit+
//! Sign   ::= [+-]
//! Digit  ::= [0-9]
//! ```

use vstd::prelude::*;

use crate::text::{digit_value, is_decimal_digit, is_digit_char};

verus! {

/// Every character of `s` is a decimal digit.
pub open spec fn all_digits(s: Seq<char>) -> bool {
    forall|i: int| 0 <= i < s.len() ==> is_digit_char(#[trigger] s[i])
}

/// The value of a string of decimal digits.
pub open spec fn decimal_value(s: Seq<char>) -> int
    decreases s.len(),
{
    if s.len() == 0 {
        0
    } else {
        decimal_value(s.drop_last()) * 10 + digit_value(s.last())
    }
}

/// The integer written by `s`: an optional `+` (or `-`, when `signed`)
/// followed by at least one digit. `None` when `s` has any other form.
pub open spec fn integer_text_value(s: Seq<char>, signed: bool) -> Option<int> {
    let negative = signed && s.len() > 0 && s[0] == '-';
    let digits = if s.len() > 0 && (s[0] == '+' || negative) { s.drop_first() } else { s };
    if digits.len() > 0 && all_digits(digits) {
        Some(if negative { -decimal_value(digits) } else { decimal_value(digits) })
    } else {
        None
    }
}

/// The integer that `s` denotes if it is well formed and lies in `lo..=hi`.
pub open spec fn integer_in_range(s: Seq<char>, signed: bool, lo: int, hi: int) -> Option<int> {
    match integer_text_value(s, signed) {
        Some(v) => if lo <= v <= hi { Some(v) } else { None },
        None => None,
    }
}

/// The value of digits never shrinks as more digits follow.
pub proof fn lemma_decimal_value_prefix(s: Seq<char>, i: int)
    requires
        all_digits(s),
        0 <= i <= s.len(),
    ensures
        0 <= decimal_value(s.take(i)) <= decimal_value(s),
    decreases s.len() - i,
{
    if i < s.len() {
        lemma_decimal_value_prefix(s, i + 1);
        assert(s.take(i + 1).drop_last() =~= s.take(i));
        assert(is_digit_char(s[i]));
    } else {
        assert(s.take(i) =~= s);
        lemma_decimal_value_nonneg(s);
    }
}

/// Digits have a value of at least zero.
pub proof fn lemma_decimal_value_nonneg(s: Seq<char>)
    requires
        all_digits(s),
    ensures
        decimal_value(s) >= 0,
    decreases s.len(),
{
    if s.len() > 0 {
        assert(all_digits(s.drop_last()));
        assert(is_digit_char(s[s.len() - 1]));
        lemma_decimal_value_nonneg(s.drop_last());
    }
}

/// Reads the integer that `text` writes, if it lies in `lo..=hi`: what
/// `FromStr` does for an integer type whose range is `lo..=hi` and which is
/// signed exactly when `signed`.
pub fn parse_integer(text: &Vec<char>, signed: bool, lo: i128, hi: i128) -> (r: Option<i128>)
    requires
        -0x1_0000_0000_0000_0000 <= lo <= 0 <= hi <= 0x1_0000_0000_0000_0000,
    ensures
        match r {
            Some(v) => integer_in_range(text@, signed, lo as int, hi as int) == Some(v as int),
            None => integer_in_range(text@, signed, lo as int, hi as int) is None,
        },
{
    let n = text.len();
    let negative = signed && n > 0 && text[0] == '-';
    let start: usize = if n > 0 && (text[0] == '+' || negative) { 1 } else { 0 };
    let ghost digits = if text@.len() > 0 && (text@[0] == '+' || negative) { text@.drop_first() } else { text@ };
    assert(digits =~= text@.skip(start as int));
    if start >= n {
        return None;
    }
    let bound: i128 = if negative { -lo } else { hi };
    let mut value: i128 = 0;
    let mut i = start;
    while i < n
        invariant
            start <= i <= n == text.len(),
            -0x1_0000_0000_0000_0000 <= lo <= 0 <= hi <= 0x1_0000_0000_0000_0000,
            negative == (signed && text@.len() > 0 && text@[0] == '-'),
            digits == (if text@.len() > 0 && (text@[0] == '+' || negative) { text@.drop_first() } else { text@ }),
            bound == (if negative { -lo } else { hi as int }),
            digits =~= text@.skip(start as int),
            all_digits(digits.take(i - start)),
            value == decimal_value(digits.take(i - start)),
            0 <= value <= bound <= 0x1_0000_0000_0000_0000,
        decreases n - i,
    {
        let c = text[i];
        if !is_decimal_digit(c) {
            assert(digits[i - start] == c);
            assert(!all_digits(digits));
            assert(integer_text_value(text@, signed) is None);
            return None;
        }
        proof {
            assert(digits.take(i + 1 - start).drop_last() =~= digits.take(i - start));
            assert(digits.take(i + 1 - start).last() == c);
            assert(all_digits(digits.take(i + 1 - start)));
        }
        let d = (c as u32 - '0' as u32) as i128;
        value = value * 10 + d;
        if value > bound {
            proof {
                if all_digits(digits) {
                    lemma_decimal_value_prefix(digits, i + 1 - start);
                    assert(decimal_value(digits) > bound);
                }
                assert(integer_in_range(text@, signed, lo as int, hi as int) is None);
            }
            return None;
        }
        i = i + 1;
    }
    assert(digits.take(n - start) =~= digits);
    if negative {
        Some(-value)
    } else {
        Some(value)
    }
}

/// `c` is the ASCII letter `lower` in either case.
pub open spec fn letter_either_case(c: char, lower: char) -> bool {
    c == lower || (c as int) == (lower as int) - 32
}

/// `s` spells `w` (a word of lower-case ASCII letters) in any mix of cases.
pub open spec fn spells_any_case(s: Seq<char>, w: Seq<char>) -> bool {
    s.len() == w.len() && forall|i: int| 0 <= i < s.len() ==> letter_either_case(#[trigger] s[i], w[i])
}

/// The position of the first `e` or `E` in `s` at or after `i`, or its length.
pub open spec fn exponent_mark(s: Seq<char>, i: int) -> int
    decreases s.len() - i,
{
    if 0 <= i < s.len() && s[i] != 'e' && s[i] != 'E' {
        exponent_mark(s, i + 1)
    } else {
        i
    }
}

/// How many `.` the characters of `s` hold.
pub open spec fn dot_count(s: Seq<char>) -> nat
    decreases s.len(),
{
    if s.len() == 0 {
        0
    } else {
        dot_count(s.drop_last()) + if s.last() == '.' { 1nat } else { 0nat }
    }
}

/// `Digit+ | Digit+ '.' Digit* | Digit* '.' Digit+`.
pub open spec fn mantissa_ok(m: Seq<char>) -> bool {
    &&& forall|i: int| 0 <= i < m.len() ==> (is_digit_char(#[trigger] m[i]) || m[i] == '.')
    &&& dot_count(m) <= 1
    &&& exists|i: int| 0 <= i < m.len() && is_digit_char(#[trigger] m[i])
}

/// `Sign? Digit+` (what follows the `e` of an exponent).
pub open spec fn exponent_ok(x: Seq<char>) -> bool {
    let d = if x.len() > 0 && (x[0] == '+' || x[0] == '-') { x.drop_first() } else { x };
    d.len() > 0 && all_digits(d)
}

/// `Number` of the float grammar.
pub open spec fn decimal_number_ok(b: Seq<char>) -> bool {
    let k = exponent_mark(b, 0);
    mantissa_ok(b.take(k)) && (k == b.len() || exponent_ok(b.skip(k + 1)))
}

/// `s` is accepted by the float grammar: the standard library reads it as
/// an `f32` (or `f64`) rather than failing.
pub open spec fn float_text_ok(s: Seq<char>) -> bool {
    let b = if s.len() > 0 && (s[0] == '+' || s[0] == '-') { s.drop_first() } else { s };
    ||| spells_any_case(b, seq!['i', 'n', 'f'])
    ||| spells_any_case(b, seq!['i', 'n', 'f', 'i', 'n', 'i', 't', 'y'])
    ||| spells_any_case(b, seq!['n', 'a', 'n'])
    ||| decimal_number_ok(b)
}

/// `text` spells the lower-case ASCII word `word` in any mix of cases.
fn spells_in_any_case(text: &Vec<char>, word: &[char]) -> (r: bool)
    requires
        forall|i: int| 0 <= i < word@.len() ==> 'a' <= #[trigger] word@[i] <= 'z',
    ensures
        r == spells_any_case(text@, word@),
{
    if text.len() != word.len() {
        return false;
    }
    let mut i: usize = 0;
    while i < text.len()
        invariant
            text.len() == word.len(),
            i <= text.len(),
            forall|j: int| 0 <= j < word@.len() ==> 'a' <= #[trigger] word@[j] <= 'z',
            forall|j: int| 0 <= j < i ==> letter_either_case(#[trigger] text@[j], word@[j]),
        decreases text.len() - i,
    {
        let c = text[i];
        let w = word[i];
        let upper = ((w as u32) - 32) as u8 as char;
        assert((upper as int) == (w as int) - 32);
        if c != w && c != upper {
            assert(!letter_either_case(text@[i as int], word@[i as int]));
            return false;
        }
        i = i + 1;
    }
    true
}

/// The characters of `v` from `from` on.
fn tail_of(v: &Vec<char>, from: usize) -> (r: Vec<char>)
    requires
        from <= v.len(),
    ensures
        r@ == v@.skip(from as int),
{
    let mut r: Vec<char> = Vec::new();
    let mut i = from;
    while i < v.len()
        invariant
            from <= i <= v.len(),
            r@ == v@.subrange(from as int, i as int),
        decreases v.len() - i,
    {
        r.push(v[i]);
        i = i + 1;
    }
    r
}

/// `b` is a `Number` of the float grammar.
fn is_decimal_number(b: &Vec<char>) -> (r: bool)
    ensures
        r == decimal_number_ok(b@),
{
    let n = b.len();
    let mut k: usize = 0;
    while k < n && b[k] != 'e' && b[k] != 'E'
        invariant
            k <= n == b.len(),
            exponent_mark(b@, 0) == exponent_mark(b@, k as int),
        decreases n - k,
    {
        k = k + 1;
    }
    let ghost m = b@.take(k as int);
    // The mantissa: digits and at most one dot, with at least one digit.
    let mut i: usize = 0;
    let mut dots: usize = 0;
    let mut seen_digit = false;
    while i < k
        invariant
            i <= k <= n == b.len(),
            k == exponent_mark(b@, 0),
            m == b@.take(k as int),
            dots == dot_count(m.take(i as int)),
            dots <= i,
            seen_digit == exists|j: int| 0 <= j < i && is_digit_char(#[trigger] m[j]),
            forall|j: int| 0 <= j < i ==> (is_digit_char(#[trigger] m[j]) || m[j] == '.'),
        decreases k - i,
    {
        let c = b[i];
        assert(m[i as int] == c);
        assert(m.take(i + 1).drop_last() =~= m.take(i as int));
        if is_decimal_digit(c) {
            seen_digit = true;
        } else if c == '.' {
            dots = dots + 1;
        } else {
            assert(!mantissa_ok(m));
            return false;
        }
        i = i + 1;
    }
    assert(m.take(k as int) =~= m);
    if dots > 1 || !seen_digit {
        return false;
    }
    if k == n {
        return true;
    }
    // The exponent: an optional sign and at least one digit.
    let x = tail_of(b, k + 1);
    let xs: usize = if x.len() > 0 && (x[0] == '+' || x[0] == '-') { 1 } else { 0 };
    let ghost d = if x@.len() > 0 && (x@[0] == '+' || x@[0] == '-') { x@.drop_first() } else { x@ };
    assert(d =~= x@.skip(xs as int));
    if xs >= x.len() {
        return false;
    }
    let mut j = xs;
    while j < x.len()
        invariant
            xs <= j <= x.len(),
            k == exponent_mark(b@, 0),
            k < b@.len(),
            x@ == b@.skip(k + 1),
            d == (if x@.len() > 0 && (x@[0] == '+' || x@[0] == '-') { x@.drop_first() } else { x@ }),
            d =~= x@.skip(xs as int),
            forall|t: int| 0 <= t < j - xs ==> is_digit_char(#[trigger] d[t]),
        decreases x.len() - j,
    {
        if !is_decimal_digit(x[j]) {
            assert(d[j - xs] == x[j as int]);
            assert(!exponent_ok(x@));
            return false;
        }
        j = j + 1;
    }
    true
}

/// Whether the standard library reads `text` as a float (`f32` or `f64`
/// alike): whether it is accepted by the float grammar.
pub fn is_float_text(text: &Vec<char>) -> (r: bool)
    ensures
        r == float_text_ok(text@),
{
    let start: usize = if text.len() > 0 && (text[0] == '+' || text[0] == '-') { 1 } else { 0 };
    let body = tail_of(text, start);
    assert(body@ =~= (if text@.len() > 0 && (text@[0] == '+' || text@[0] == '-') { text@.drop_first() } else { text@ }));
    spells_in_any_case(&body, &['i', 'n', 'f'])
        || spells_in_any_case(&body, &['i', 'n', 'f', 'i', 'n', 'i', 't', 'y'])
        || spells_in_any_case(&body, &['n', 'a', 'n'])
        || is_decimal_number(&body)
}

} // verus!

//! Laws of the lexer on whitespace, stated over the model in
//! [`crate::lexer`]: whitespace between two pieces of input separates their
//! tokens, and which whitespace it is makes no difference.

use vstd::prelude::*;

use crate::lexer::{
    char_at, identifier_end, lemma_lex_bounds, lemma_scan_bounds, lex_at, line_end, number_end,
    quote_end, whitespace_end, LexError, LexStep,
};
use crate::text::{char_is_alphanumeric, char_is_whitespace};
use crate::token::SpecToken;

verus! {

/// The tokens other than `EOF` that calls of `next_token` yield from
/// position `i` of `cs` until the whole input is consumed (an `EOF` for a
/// character that starts no token does not stop them), or the first reason
/// a call cannot go on.
pub open spec fn tokens_to_end(cs: Seq<char>, i: int) -> Result<Seq<SpecToken>, LexError>
    decreases cs.len() - i,
{
    if 0 <= i < cs.len() {
        match lex_at(cs, i) {
            LexStep::Fail(e) => Err(e),
            LexStep::Emit(t, j) => if i < j <= cs.len() {
                match tokens_to_end(cs, j) {
                    Ok(rest) => Ok(if t == SpecToken::EOF { rest } else { seq![t] + rest }),
                    Err(e) => Err(e),
                }
            } else {
                Ok(Seq::empty())
            },
        }
    } else {
        Ok(Seq::empty())
    }
}

/// A step from inside the input moves forwards and stays inside it.
pub proof fn lemma_step_advances(cs: Seq<char>, i: int)
    requires
        0 <= i < cs.len(),
    ensures
        lex_at(cs, i) matches LexStep::Emit(_, j) ==> i < j <= cs.len(),
    decreases cs.len() - i,
{
    lemma_scan_bounds(cs, i);
    lemma_lex_bounds(cs, i);
    let j = whitespace_end(cs, i);
    if j < cs.len() {
        lemma_scan_bounds(cs, j + 1);
        if cs[j] == '/' && j + 1 < cs.len() && cs[j + 1] == '/' {
            lemma_scan_bounds(cs, j + 2);
            let e = line_end(cs, j + 2);
            if e < cs.len() {
                lemma_step_advances(cs, e);
            } else {
                lemma_lex_bounds(cs, e);
            }
        }
    }
}

/// A lexing step in the model, moved `off` positions on.
pub open spec fn shifted(s: LexStep, off: int) -> LexStep {
    match s {
        LexStep::Emit(t, j) => LexStep::Emit(t, j + off),
        LexStep::Fail(e) => LexStep::Fail(e),
    }
}

/// Past a prefix `p`, every scan of `p + b` is the scan of `b`, moved on by
/// the length of `p`.
proof fn lemma_shift_scans(p: Seq<char>, b: Seq<char>, x: int)
    requires
        p.len() <= x,
    ensures
        whitespace_end(p + b, x) == whitespace_end(b, x - p.len()) + p.len(),
        line_end(p + b, x) == line_end(b, x - p.len()) + p.len(),
        number_end(p + b, x) == number_end(b, x - p.len()) + p.len(),
        identifier_end(p + b, x) == identifier_end(b, x - p.len()) + p.len(),
        quote_end(p + b, x) == quote_end(b, x - p.len()) + p.len(),
        char_at(p + b, x) == char_at(b, x - p.len()),
    decreases (p + b).len() - x,
{
    let cs = p + b;
    if x < cs.len() {
        assert(cs[x] == b[x - p.len()]);
        lemma_shift_scans(p, b, x + 1);
    }
}

/// Past a prefix `p`, a lexing step on `p + b` is the step on `b`, moved on
/// by the length of `p`.
proof fn lemma_shift_lex(p: Seq<char>, b: Seq<char>, x: int)
    requires
        p.len() <= x,
    ensures
        lex_at(p + b, x) == shifted(lex_at(b, x - p.len()), p.len() as int),
    decreases (p + b).len() - x,
{
    let cs = p + b;
    let off = p.len() as int;
    let y = x - off;
    lemma_shift_scans(p, b, x);
    lemma_scan_bounds(cs, x);
    lemma_scan_bounds(b, y);
    let j = whitespace_end(cs, x);
    let k = j + 1;
    lemma_shift_scans(p, b, j);
    lemma_shift_scans(p, b, k);
    lemma_shift_scans(p, b, k + 1);
    lemma_scan_bounds(cs, k);
    if j < cs.len() {
        let c = cs[j];
        if c == '/' && char_at(cs, k) == Some('/') {
            lemma_scan_bounds(cs, k + 1);
            lemma_shift_lex(p, b, line_end(cs, k + 1));
        } else if c == '"' {
            let e = quote_end(cs, k);
            if e < cs.len() {
                assert(cs.subrange(k, e) =~= b.subrange(k - off, e - off));
            }
        } else if crate::text::is_digit_char(c) {
            let e = number_end(cs, k);
            assert(cs.subrange(j, e) =~= b.subrange(j - off, e - off));
        } else if crate::text::char_is_alphabetic(c) {
            let e = identifier_end(cs, k);
            assert(cs.subrange(j, e) =~= b.subrange(j - off, e - off));
        }
    }
}

/// Past a prefix `p`, the tokens to the end of `p + b` are those of `b`.
proof fn lemma_shift_tokens(p: Seq<char>, b: Seq<char>, x: int)
    requires
        p.len() <= x,
    ensures
        tokens_to_end(p + b, x) == tokens_to_end(b, x - p.len()),
    decreases (p + b).len() - x,
{
    let cs = p + b;
    if x < cs.len() {
        lemma_shift_lex(p, b, x);
        if let LexStep::Emit(_, j) = lex_at(cs, x) {
            lemma_step_advances(cs, x);
            lemma_shift_tokens(p, b, j);
        }
    }
}

/// No `//` in `a`: it holds no line comment.
pub open spec fn no_line_comment(a: Seq<char>) -> bool {
    forall|k: int| 0 <= k < a.len() - 1 ==> !(#[trigger] a[k] == '/' && a[k + 1] == '/')
}

/// Whitespace is neither a letter nor a digit.
pub open spec fn whitespace_not_alphanumeric() -> bool {
    forall|c: char| char_is_whitespace(c) ==> !#[trigger] char_is_alphanumeric(c)
}

proof fn lemma_whitespace_not_alphanumeric()
    ensures
        whitespace_not_alphanumeric(),
{
}

/// No `"` and no `'` in `a`: it holds no string or char literal.
pub open spec fn no_quotes(a: Seq<char>) -> bool {
    forall|k: int| 0 <= k < a.len() ==> #[trigger] a[k] != '"' && a[k] != '\''
}

/// Inside a prefix `a` followed by whitespace, the scans of `a + c` that
/// stop inside `a` are the scans of `a`; numbers and identifiers stop at
/// the end of `a` at the latest; whitespace that runs to the end of `a`
/// runs on as it does from there.
proof fn lemma_prefix_scans(a: Seq<char>, c: Seq<char>, x: int)
    requires
        0 <= x <= a.len(),
        c.len() > 0,
        char_is_whitespace(c[0]),
        whitespace_not_alphanumeric(),
    ensures
        number_end(a + c, x) == number_end(a, x),
        identifier_end(a + c, x) == identifier_end(a, x),
        quote_end(a, x) < a.len() ==> quote_end(a + c, x) == quote_end(a, x),
        whitespace_end(a, x) < a.len() ==> whitespace_end(a + c, x) == whitespace_end(a, x),
        whitespace_end(a, x) == a.len() ==> whitespace_end(a + c, x) == whitespace_end(a + c, a.len() as int),
        x < a.len() ==> char_at(a + c, x) == char_at(a, x),
    decreases a.len() - x,
{
    let cs = a + c;
    if x < a.len() {
        assert(cs[x] == a[x]);
        lemma_prefix_scans(a, c, x + 1);
    } else {
        assert(cs[x] == c[0]);
        assert(!char_is_alphanumeric(c[0]));
    }
}

/// A step of `a` that starts a token inside `a` is the same step of `a + c`.
proof fn lemma_prefix_lex(a: Seq<char>, c: Seq<char>, i: int)
    requires
        0 <= i <= a.len(),
        c.len() > 0,
        char_is_whitespace(c[0]),
        whitespace_not_alphanumeric(),
        no_line_comment(a),
        whitespace_end(a, i) < a.len(),
        lex_at(a, i) is Emit || no_quotes(a),
    ensures
        lex_at(a + c, i) == lex_at(a, i),
{
    let cs = a + c;
    lemma_scan_bounds(a, i);
    lemma_prefix_scans(a, c, i);
    let j = whitespace_end(a, i);
    let k = j + 1;
    lemma_prefix_scans(a, c, j);
    lemma_prefix_scans(a, c, k);
    lemma_scan_bounds(a, k);
    if k < a.len() {
        lemma_prefix_scans(a, c, k + 1);
    } else {
        assert(cs[k] == c[0]);
        assert(char_at(cs, k) == Some(c[0]));
    }
    if a[j] == '"' {
        let e = quote_end(a, k);
        if e < a.len() {
            assert(cs.subrange(k, e) =~= a.subrange(k, e));
        }
    } else if crate::text::is_digit_char(a[j]) {
        assert(cs.subrange(j, number_end(a, k)) =~= a.subrange(j, number_end(a, k)));
    } else if crate::text::char_is_alphabetic(a[j]) {
        assert(cs.subrange(j, identifier_end(a, k)) =~= a.subrange(j, identifier_end(a, k)));
    }
}

/// A step depends on where it starts only through where the whitespace
/// before its token ends: two starts with the same end read the same tokens.
proof fn lemma_same_start(cs: Seq<char>, x: int, y: int)
    requires
        0 <= x <= y <= cs.len(),
        x < cs.len(),
        whitespace_end(cs, x) == whitespace_end(cs, y),
    ensures
        tokens_to_end(cs, x) == tokens_to_end(cs, y),
{
    assert(lex_at(cs, x) == lex_at(cs, y));
    lemma_step_advances(cs, x);
    if y < cs.len() {
        lemma_step_advances(cs, y);
    } else {
        assert(lex_at(cs, y) == LexStep::Emit(SpecToken::EOF, y));
    }
}

/// Whitespace from `x` to `y` is skipped as a whole.
proof fn lemma_whitespace_run(cs: Seq<char>, x: int, y: int)
    requires
        0 <= x <= y <= cs.len(),
        forall|k: int| x <= k < y ==> char_is_whitespace(#[trigger] cs[k]),
    ensures
        whitespace_end(cs, x) == whitespace_end(cs, y),
    decreases y - x,
{
    if x < y {
        lemma_whitespace_run(cs, x + 1, y);
    }
}

/// The tokens of `a + c`, for `c` starting with whitespace, from a position
/// inside `a`: those of `a` from there, then those of `a + c` from the end
/// of `a`.
proof fn lemma_prefix_tokens(a: Seq<char>, c: Seq<char>, i: int)
    requires
        0 <= i <= a.len(),
        c.len() > 0,
        char_is_whitespace(c[0]),
        whitespace_not_alphanumeric(),
        no_line_comment(a),
        tokens_to_end(a, i) is Ok,
    ensures
        tokens_to_end(a + c, i) == match tokens_to_end(a + c, a.len() as int) {
            Ok(r) => Ok(tokens_to_end(a, i)->Ok_0 + r),
            Err(e) => Err(e),
        },
    decreases a.len() - i,
{
    let cs = a + c;
    if i == a.len() {
        if let Ok(r) = tokens_to_end(cs, a.len() as int) {
            assert(Seq::<SpecToken>::empty() + r =~= r);
        }
    } else {
        lemma_scan_bounds(a, i);
        lemma_prefix_scans(a, c, i);
        let j0 = whitespace_end(a, i);
        if j0 < a.len() {
            lemma_prefix_lex(a, c, i);
            lemma_step_advances(a, i);
            if let LexStep::Emit(t, j) = lex_at(a, i) {
                lemma_prefix_tokens(a, c, j);
                let ta = tokens_to_end(a, j)->Ok_0;
                if let Ok(r) = tokens_to_end(cs, a.len() as int) {
                    assert(seq![t] + (ta + r) =~= (seq![t] + ta) + r);
                }
            }
        } else {
            assert(lex_at(a, i) == LexStep::Emit(SpecToken::EOF, a.len() as int));
            lemma_same_start(cs, i, a.len() as int);
            if let Ok(r) = tokens_to_end(cs, a.len() as int) {
                assert(Seq::<SpecToken>::empty() + r =~= r);
            }
        }
    }
}

/// Reading that fails inside `a`, which holds no literal, fails the same
/// way in `a + c` when `c` starts with whitespace.
proof fn lemma_prefix_tokens_fail(a: Seq<char>, c: Seq<char>, i: int)
    requires
        0 <= i <= a.len(),
        c.len() > 0,
        char_is_whitespace(c[0]),
        whitespace_not_alphanumeric(),
        no_line_comment(a),
        no_quotes(a),
        tokens_to_end(a, i) is Err,
    ensures
        tokens_to_end(a + c, i) == tokens_to_end(a, i),
    decreases a.len() - i,
{
    let cs = a + c;
    lemma_scan_bounds(a, i);
    lemma_prefix_scans(a, c, i);
    let j0 = whitespace_end(a, i);
    if j0 < a.len() {
        lemma_prefix_lex(a, c, i);
        lemma_step_advances(a, i);
        if let LexStep::Emit(t, j) = lex_at(a, i) {
            lemma_prefix_tokens_fail(a, c, j);
        }
    } else {
        assert(lex_at(a, i) == LexStep::Emit(SpecToken::EOF, a.len() as int));
    }
}

/// Whitespace between two pieces of input separates their tokens: the
/// tokens of `a`, a non-empty run of whitespace `w`, and `b` are the tokens
/// of `a` followed by the tokens of `b`, and the input stops being readable
/// exactly where `b` does. `a` holds no `//` (a line comment would run on
/// past its end) and is readable to its end.
pub proof fn law_tokens_split_at_whitespace(a: Seq<char>, w: Seq<char>, b: Seq<char>)
    requires
        w.len() > 0,
        forall|k: int| 0 <= k < w.len() ==> char_is_whitespace(#[trigger] w[k]),
        no_line_comment(a),
        tokens_to_end(a, 0) is Ok,
    ensures
        tokens_to_end(a + w + b, 0) == match tokens_to_end(b, 0) {
            Ok(tb) => Ok(tokens_to_end(a, 0)->Ok_0 + tb),
            Err(e) => Err(e),
        },
{
    lemma_whitespace_not_alphanumeric();
    let c = w + b;
    let cs = a + c;
    assert(a + w + b =~= cs);
    assert(c[0] == w[0]);
    lemma_prefix_tokens(a, c, 0);
    let off = (a.len() + w.len()) as int;
    assert forall|k: int| a.len() <= k < off implies char_is_whitespace(#[trigger] cs[k]) by {
        assert(cs[k] == w[k - a.len()]);
    }
    lemma_whitespace_run(cs, a.len() as int, off);
    lemma_same_start(cs, a.len() as int, off);
    assert(cs =~= (a + w) + b);
    lemma_shift_tokens(a + w, b, off);
}

/// Where reading fails inside `a`, which holds no `//` and no string or
/// char literal, it fails the same way whatever whitespace and input follow
/// `a`.
pub proof fn law_failure_before_whitespace(a: Seq<char>, w: Seq<char>, b: Seq<char>)
    requires
        w.len() > 0,
        forall|k: int| 0 <= k < w.len() ==> char_is_whitespace(#[trigger] w[k]),
        no_line_comment(a),
        no_quotes(a),
        tokens_to_end(a, 0) is Err,
    ensures
        tokens_to_end(a + w + b, 0) == tokens_to_end(a, 0),
{
    lemma_whitespace_not_alphanumeric();
    let c = w + b;
    assert(a + w + b =~= a + c);
    assert(c[0] == w[0]);
    lemma_prefix_tokens_fail(a, c, 0);
}

/// Which run of whitespace separates two pieces of input makes no
/// difference to their tokens, nor to whether and how reading fails, when
/// `a` holds no `//` and is either readable to its end or free of string
/// and char literals; with `a` empty, this says the same of leading
/// whitespace, and with `b` empty, of trailing.
pub proof fn law_whitespace_runs_interchangeable(a: Seq<char>, w1: Seq<char>, w2: Seq<char>, b: Seq<char>)
    requires
        w1.len() > 0,
        w2.len() > 0,
        forall|k: int| 0 <= k < w1.len() ==> char_is_whitespace(#[trigger] w1[k]),
        forall|k: int| 0 <= k < w2.len() ==> char_is_whitespace(#[trigger] w2[k]),
        no_line_comment(a),
        tokens_to_end(a, 0) is Ok || no_quotes(a),
    ensures
        tokens_to_end(a + w1 + b, 0) == tokens_to_end(a + w2 + b, 0),
{
    if tokens_to_end(a, 0) is Ok {
        law_tokens_split_at_whitespace(a, w1, b);
        law_tokens_split_at_whitespace(a, w2, b);
    } else {
        law_failure_before_whitespace(a, w1, b);
        law_failure_before_whitespace(a, w2, b);
    }
}

} // verus!

//! Laws of the lexer, stated over the model in [`crate::lexer`] that the
//! tokenizer's contracts speak of: what every token it yields looks like,
//! how many tokens a run of calls can yield, and what it yields once the
//! input is consumed.

use vstd::prelude::*;

use crate::lexer::{
    char_at, identifier_end, keyword, lemma_lex_bounds, lemma_scan_bounds, lex_at, line_end, number_end,
    quote_end, tokens_from, whitespace_end, word_token, LexStep,
};
use crate::text::{char_is_alphabetic, char_is_alphanumeric, is_digit_char};
use crate::token::SpecToken;

verus! {

/// The shape of every token the lexer yields before `EOF`: an identifier is
/// never a reserved word, starts with a letter and goes on with letters,
/// digits and `_`; a number starts with a digit and holds only digits and
/// `.`; a string literal holds no `"`.
pub open spec fn well_formed_token(t: SpecToken) -> bool {
    match t {
        SpecToken::EOF => false,
        SpecToken::Identifier(w) => {
            &&& keyword(w) is None
            &&& w.len() > 0
            &&& char_is_alphabetic(w[0])
            &&& forall|k: int| 1 <= k < w.len() ==> char_is_alphanumeric(#[trigger] w[k]) || w[k] == '_'
        },
        SpecToken::LiteralNumber(s) => {
            &&& s.len() > 0
            &&& is_digit_char(s[0])
            &&& forall|k: int| 0 <= k < s.len() ==> is_digit_char(#[trigger] s[k]) || s[k] == '.'
        },
        SpecToken::LiteralString(s) => !s.contains('"'),
        _ => true,
    }
}

proof fn lemma_number_end_chars(cs: Seq<char>, i: int)
    requires
        0 <= i,
    ensures
        forall|k: int| i <= k < number_end(cs, i) ==> is_digit_char(#[trigger] cs[k]) || cs[k] == '.',
    decreases cs.len() - i,
{
    if 0 <= i < cs.len() && (is_digit_char(cs[i]) || cs[i] == '.') {
        lemma_number_end_chars(cs, i + 1);
    }
}

proof fn lemma_identifier_end_chars(cs: Seq<char>, i: int)
    requires
        0 <= i,
    ensures
        forall|k: int| i <= k < identifier_end(cs, i) ==> char_is_alphanumeric(#[trigger] cs[k]) || cs[k] == '_',
    decreases cs.len() - i,
{
    if 0 <= i < cs.len() && (char_is_alphanumeric(cs[i]) || cs[i] == '_') {
        lemma_identifier_end_chars(cs, i + 1);
    }
}

proof fn lemma_quote_end_chars(cs: Seq<char>, i: int)
    requires
        0 <= i,
    ensures
        forall|k: int| i <= k < quote_end(cs, i) ==> #[trigger] cs[k] != '"',
    decreases cs.len() - i,
{
    if 0 <= i < cs.len() && cs[i] != '"' {
        lemma_quote_end_chars(cs, i + 1);
    }
}

/// One lexing step that yields a token other than `EOF` yields a
/// well-formed one.
pub proof fn lemma_lex_token_well_formed(cs: Seq<char>, i: int)
    requires
        0 <= i <= cs.len(),
    ensures
        lex_at(cs, i) matches LexStep::Emit(t, _) ==> (t != SpecToken::EOF ==> well_formed_token(t)),
    decreases cs.len() - i,
{
    lemma_scan_bounds(cs, i);
    let j = whitespace_end(cs, i);
    if j < cs.len() {
        let c = cs[j];
        let k = j + 1;
        lemma_scan_bounds(cs, k);
        if c == '/' && k < cs.len() && cs[k] == '/' {
            lemma_scan_bounds(cs, k + 1);
            lemma_lex_token_well_formed(cs, line_end(cs, k + 1));
        } else if c == '"' {
            let e = quote_end(cs, k);
            lemma_quote_end_chars(cs, k);
            let s = cs.subrange(k, e);
            assert forall|x: int| 0 <= x < s.len() implies s[x] != '"' by {
                assert(s[x] == cs[k + x]);
            }
        } else if is_digit_char(c) {
            let e = number_end(cs, k);
            lemma_number_end_chars(cs, k);
            let s = cs.subrange(j, e);
            assert(s[0] == c);
            assert forall|x: int| 0 <= x < s.len() implies is_digit_char(#[trigger] s[x]) || s[x] == '.' by {
                assert(s[x] == cs[j + x]);
            }
        } else if char_is_alphabetic(c) {
            let e = identifier_end(cs, k);
            lemma_identifier_end_chars(cs, k);
            let w = cs.subrange(j, e);
            assert(w[0] == c);
            assert forall|x: int| 1 <= x < w.len() implies char_is_alphanumeric(#[trigger] w[x]) || w[x] == '_' by {
                assert(w[x] == cs[j + x]);
            }
            if keyword(w) is None {
                assert(word_token(w) == SpecToken::Identifier(w));
            }
        }
    }
}

/// Every token that tokenizing yields is well formed: no `EOF` among them,
/// no reserved word read as an identifier, and numbers, identifiers and
/// string literals of the shapes the lexer scans.
pub proof fn law_tokens_well_formed(cs: Seq<char>, i: int)
    requires
        0 <= i <= cs.len(),
    ensures
        tokens_from(cs, i) matches Ok(ts) ==> forall|k: int| 0 <= k < ts.len() ==> well_formed_token(#[trigger] ts[k]),
    decreases cs.len() - i,
{
    lemma_lex_token_well_formed(cs, i);
    lemma_lex_bounds(cs, i);
    if let LexStep::Emit(t, j) = lex_at(cs, i) {
        if t != SpecToken::EOF {
            law_tokens_well_formed(cs, j);
            if let Ok(rest) = tokens_from(cs, j) {
                let ts = seq![t] + rest;
                assert forall|k: int| 0 <= k < ts.len() implies well_formed_token(#[trigger] ts[k]) by {
                    if k > 0 {
                        assert(ts[k] == rest[k - 1]);
                    }
                }
            }
        }
    }
}

/// The tokens that `n` successive calls of `next_token` yield from position
/// `i` of `cs`, and the position after them; the calls stop early where the
/// input cannot be read.
pub open spec fn lex_steps(cs: Seq<char>, i: int, n: nat) -> (Seq<SpecToken>, int)
    decreases n,
{
    if n == 0 {
        (Seq::empty(), i)
    } else {
        match lex_at(cs, i) {
            LexStep::Fail(_) => (Seq::empty(), i),
            LexStep::Emit(t, j) => {
                let rest = lex_steps(cs, j, (n - 1) as nat);
                (seq![t] + rest.0, rest.1)
            },
        }
    }
}

/// How many of `ts` are not `EOF`.
pub open spec fn count_non_eof(ts: Seq<SpecToken>) -> nat
    decreases ts.len(),
{
    if ts.len() == 0 {
        0
    } else {
        (if ts[0] != SpecToken::EOF { 1nat } else { 0nat }) + count_non_eof(ts.drop_first())
    }
}

/// However many times `next_token` is called from position `i`, at most one
/// result per character left is anything but `EOF`, and the position stays
/// inside the input.
pub proof fn law_non_eof_tokens_bounded(cs: Seq<char>, i: int, n: nat)
    requires
        0 <= i <= cs.len(),
    ensures
        count_non_eof(lex_steps(cs, i, n).0) <= cs.len() - i,
        i <= lex_steps(cs, i, n).1 <= cs.len(),
    decreases n,
{
    if n > 0 {
        lemma_lex_bounds(cs, i);
        if let LexStep::Emit(t, j) = lex_at(cs, i) {
            law_non_eof_tokens_bounded(cs, j, (n - 1) as nat);
            let rest = lex_steps(cs, j, (n - 1) as nat);
            assert((seq![t] + rest.0).drop_first() =~= rest.0);
        }
    }
}

/// Once the input is consumed, every call of `next_token` yields `EOF` and
/// leaves the position where it is.
pub proof fn law_eof_after_input(cs: Seq<char>, n: nat)
    ensures
        lex_at(cs, cs.len() as int) == LexStep::Emit(SpecToken::EOF, cs.len() as int),
        lex_steps(cs, cs.len() as int, n).1 == cs.len(),
        forall|k: int| 0 <= k < lex_steps(cs, cs.len() as int, n).0.len()
            ==> #[trigger] lex_steps(cs, cs.len() as int, n).0[k] == SpecToken::EOF,
    decreases n,
{
    if n > 0 {
        law_eof_after_input(cs, (n - 1) as nat);
        let rest = lex_steps(cs, cs.len() as int, (n - 1) as nat);
        let all = lex_steps(cs, cs.len() as int, n);
        assert(all.0 == seq![SpecToken::EOF] + rest.0);
        assert forall|k: int| 0 <= k < all.0.len() implies #[trigger] all.0[k] == SpecToken::EOF by {
            if k > 0 {
                assert(all.0[k] == rest.0[k - 1]);
            }
        }
    }
}

/// How each operator and delimiter is spelled: after the whitespace at `i`,
/// the longest spelling that matches gives its token (`==` `Equals`, `=`
/// `Assign`, `++` `Increment`, `+=` `PlusEquals`, `+` `Plus`, `--`
/// `Decrement`, `-=` `MinusEquals`, `->` `Arrow`, `-` `Minus`, `**` `Power`,
/// `*=` `TimesEquals`, `*` `Multiply`, `/=` `DivideEquals`, `/` `Divide`,
/// `%` `Modulo`, `!=` `NotEquals`, `!` `Bang`, `<=` `LessThanEquals`, `<`
/// `LessThan`, `>=` `GreaterThanEquals`, `>` `GreaterThan`, `&&` `And`,
/// `||` `Or`, and the brackets and comma), and reading goes on just after it.
pub proof fn law_operator_spellings(cs: Seq<char>, i: int)
    ensures
        ({
            let j = whitespace_end(cs, i);
            let c0 = char_at(cs, j);
            let c1 = char_at(cs, j + 1);
            let r = lex_at(cs, i);
            &&& c0 == Some('=') && c1 == Some('=') ==> r == LexStep::Emit(SpecToken::Equals, j + 2)
            &&& c0 == Some('+') && c1 == Some('+') ==> r == LexStep::Emit(SpecToken::Increment, j + 2)
            &&& c0 == Some('+') && c1 == Some('=') ==> r == LexStep::Emit(SpecToken::PlusEquals, j + 2)
            &&& c0 == Some('-') && c1 == Some('-') ==> r == LexStep::Emit(SpecToken::Decrement, j + 2)
            &&& c0 == Some('-') && c1 == Some('=') ==> r == LexStep::Emit(SpecToken::MinusEquals, j + 2)
            &&& c0 == Some('-') && c1 == Some('>') ==> r == LexStep::Emit(SpecToken::Arrow, j + 2)
            &&& c0 == Some('*') && c1 == Some('*') ==> r == LexStep::Emit(SpecToken::Power, j + 2)
            &&& c0 == Some('*') && c1 == Some('=') ==> r == LexStep::Emit(SpecToken::TimesEquals, j + 2)
            &&& c0 == Some('/') && c1 == Some('=') ==> r == LexStep::Emit(SpecToken::DivideEquals, j + 2)
            &&& c0 == Some('!') && c1 == Some('=') ==> r == LexStep::Emit(SpecToken::NotEquals, j + 2)
            &&& c0 == Some('<') && c1 == Some('=') ==> r == LexStep::Emit(SpecToken::LessThanEquals, j + 2)
            &&& c0 == Some('>') && c1 == Some('=') ==> r == LexStep::Emit(SpecToken::GreaterThanEquals, j + 2)
            &&& c0 == Some('&') && c1 == Some('&') ==> r == LexStep::Emit(SpecToken::And, j + 2)
            &&& c0 == Some('|') && c1 == Some('|') ==> r == LexStep::Emit(SpecToken::Or, j + 2)
            &&& c0 == Some('=') && c1 != Some('=') ==> r == LexStep::Emit(SpecToken::Assign, j + 1)
            &&& c0 == Some('+') && c1 != Some('+') && c1 != Some('=') ==> r == LexStep::Emit(SpecToken::Plus, j + 1)
            &&& c0 == Some('-') && c1 != Some('-') && c1 != Some('=') && c1 != Some('>') ==> r == LexStep::Emit(SpecToken::Minus, j + 1)
            &&& c0 == Some('*') && c1 != Some('*') && c1 != Some('=') ==> r == LexStep::Emit(SpecToken::Multiply, j + 1)
            &&& c0 == Some('/') && c1 != Some('/') && c1 != Some('=') ==> r == LexStep::Emit(SpecToken::Divide, j + 1)
            &&& c0 == Some('%') ==> r == LexStep::Emit(SpecToken::Modulo, j + 1)
            &&& c0 == Some('!') && c1 != Some('=') ==> r == LexStep::Emit(SpecToken::Bang, j + 1)
            &&& c0 == Some('<') && c1 != Some('=') ==> r == LexStep::Emit(SpecToken::LessThan, j + 1)
            &&& c0 == Some('>') && c1 != Some('=') ==> r == LexStep::Emit(SpecToken::GreaterThan, j + 1)
            &&& c0 == Some('(') ==> r == LexStep::Emit(SpecToken::OpenParen, j + 1)
            &&& c0 == Some(')') ==> r == LexStep::Emit(SpecToken::CloseParen, j + 1)
            &&& c0 == Some('{') ==> r == LexStep::Emit(SpecToken::OpenBrace, j + 1)
            &&& c0 == Some('}') ==> r == LexStep::Emit(SpecToken::CloseBrace, j + 1)
            &&& c0 == Some('[') ==> r == LexStep::Emit(SpecToken::OpenBracket, j + 1)
            &&& c0 == Some(']') ==> r == LexStep::Emit(SpecToken::CloseBracket, j + 1)
            &&& c0 == Some(',') ==> r == LexStep::Emit(SpecToken::Comma, j + 1)
        }),
{
}

/// The reserved words and the tokens they are read as: `fn`, `if`, `else`,
/// `elif`, `for`, `while`, `return`, `true`, `false`, and the type names
/// `bool`, `string`, `char`, `u8`, `i8`, `u16`, `i16`, `f16`, `u32`, `i32`,
/// `f32`, `u64`, `i64`, `f64`.
pub proof fn law_reserved_word_spellings()
    ensures
        word_token(seq!['f', 'n']) == SpecToken::Fn,
        word_token(seq!['i', 'f']) == SpecToken::If,
        word_token(seq!['e', 'l', 's', 'e']) == SpecToken::Else,
        word_token(seq!['e', 'l', 'i', 'f']) == SpecToken::Elif,
        word_token(seq!['f', 'o', 'r']) == SpecToken::For,
        word_token(seq!['w', 'h', 'i', 'l', 'e']) == SpecToken::While,
        word_token(seq!['r', 'e', 't', 'u', 'r', 'n']) == SpecToken::Return,
        word_token(seq!['t', 'r', 'u', 'e']) == SpecToken::True,
        word_token(seq!['f', 'a', 'l', 's', 'e']) == SpecToken::False,
        word_token(seq!['b', 'o', 'o', 'l']) == SpecToken::Bool,
        word_token(seq!['s', 't', 'r', 'i', 'n', 'g']) == SpecToken::String,
        word_token(seq!['c', 'h', 'a', 'r']) == SpecToken::Char,
        word_token(seq!['u', '8']) == SpecToken::U8,
        word_token(seq!['i', '8']) == SpecToken::I8,
        word_token(seq!['u', '1', '6']) == SpecToken::U16,
        word_token(seq!['i', '1', '6']) == SpecToken::I16,
        word_token(seq!['f', '1', '6']) == SpecToken::F16,
        word_token(seq!['u', '3', '2']) == SpecToken::U32,
        word_token(seq!['i', '3', '2']) == SpecToken::I32,
        word_token(seq!['f', '3', '2']) == SpecToken::F32,
        word_token(seq!['u', '6', '4']) == SpecToken::U64,
        word_token(seq!['i', '6', '4']) == SpecToken::I64,
        word_token(seq!['f', '6', '4']) == SpecToken::F64,
{
}

} // verus!

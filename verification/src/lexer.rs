//! The lexer: turns source text into tokens, one at a time.
//!
//! [`lex_at`] is the model: given the characters of the input and a position,
//! it says which token starts there (after whitespace and line comments) and
//! where the next one may start, or why the input cannot be tokenized there.

use vstd::prelude::*;

use crate::text::{
    char_is_alphabetic, char_is_alphanumeric, char_is_whitespace, chars_of, is_alphabetic,
    is_alphanumeric, is_decimal_digit, is_digit_char, is_whitespace, spells, string_from_chars,
};
use crate::token::{SpecToken, Token};

verus! {

/// Why the input cannot be tokenized at some point.
#[derive(Debug, Clone, Copy, PartialEq, Eq)]
pub enum LexError {
    /// A string literal runs to the end of the input.
    UnterminatedString,
    /// The character after a `'` is not followed by a closing `'`.
    InvalidCharLiteral,
    /// A character that cannot start or continue a token here
    /// (a single `&` or `|`).
    UnexpectedCharacter(char),
    /// An escape sequence that the language does not know.
    InvalidEscapeSequence(char),
    /// A `'` ends the input: no character follows it.
    ExpectedCharacter,
}

/// One step of the lexer in the model: a token and the position after it,
/// or the reason the input cannot be tokenized.
pub enum LexStep {
    Emit(SpecToken, int),
    Fail(LexError),
}

/// The character at position `i`, if there is one.
pub open spec fn char_at(cs: Seq<char>, i: int) -> Option<char> {
    if 0 <= i < cs.len() {
        Some(cs[i])
    } else {
        None
    }
}

/// The first position at or after `i` that does not hold whitespace.
pub open spec fn whitespace_end(cs: Seq<char>, i: int) -> int
    decreases cs.len() - i,
{
    if 0 <= i < cs.len() && char_is_whitespace(cs[i]) {
        whitespace_end(cs, i + 1)
    } else {
        i
    }
}

/// The first position at or after `i` that holds a newline, or the end.
pub open spec fn line_end(cs: Seq<char>, i: int) -> int
    decreases cs.len() - i,
{
    if 0 <= i < cs.len() && cs[i] != '\n' {
        line_end(cs, i + 1)
    } else {
        i
    }
}

/// The first position at or after `i` that holds neither a digit nor a `.`.
pub open spec fn number_end(cs: Seq<char>, i: int) -> int
    decreases cs.len() - i,
{
    if 0 <= i < cs.len() && (is_digit_char(cs[i]) || cs[i] == '.') {
        number_end(cs, i + 1)
    } else {
        i
    }
}

/// The first position at or after `i` that holds neither an alphanumeric
/// character nor `_`.
pub open spec fn identifier_end(cs: Seq<char>, i: int) -> int
    decreases cs.len() - i,
{
    if 0 <= i < cs.len() && (char_is_alphanumeric(cs[i]) || cs[i] == '_') {
        identifier_end(cs, i + 1)
    } else {
        i
    }
}

/// The first position at or after `i` that holds a `"`, or the end.
pub open spec fn quote_end(cs: Seq<char>, i: int) -> int
    decreases cs.len() - i,
{
    if 0 <= i < cs.len() && cs[i] != '"' {
        quote_end(cs, i + 1)
    } else {
        i
    }
}

/// The keyword spelled by `w`, if it spells one.
pub open spec fn keyword(w: Seq<char>) -> Option<SpecToken> {
    if w == seq!['f', 'n'] { Some(SpecToken::Fn) }
    else if w == seq!['i', 'f'] { Some(SpecToken::If) }
    else if w == seq!['e', 'l', 's', 'e'] { Some(SpecToken::Else) }
    else if w == seq!['e', 'l', 'i', 'f'] { Some(SpecToken::Elif) }
    else if w == seq!['f', 'o', 'r'] { Some(SpecToken::For) }
    else if w == seq!['w', 'h', 'i', 'l', 'e'] { Some(SpecToken::While) }
    else if w == seq!['r', 'e', 't', 'u', 'r', 'n'] { Some(SpecToken::Return) }
    else if w == seq!['t', 'r', 'u', 'e'] { Some(SpecToken::True) }
    else if w == seq!['f', 'a', 'l', 's', 'e'] { Some(SpecToken::False) }
    else if w == seq!['b', 'o', 'o', 'l'] { Some(SpecToken::Bool) }
    else if w == seq!['s', 't', 'r', 'i', 'n', 'g'] { Some(SpecToken::String) }
    else if w == seq!['c', 'h', 'a', 'r'] { Some(SpecToken::Char) }
    else if w == seq!['u', '8'] { Some(SpecToken::U8) }
    else if w == seq!['i', '8'] { Some(SpecToken::I8) }
    else if w == seq!['u', '1', '6'] { Some(SpecToken::U16) }
    else if w == seq!['i', '1', '6'] { Some(SpecToken::I16) }
    else if w == seq!['f', '1', '6'] { Some(SpecToken::F16) }
    else if w == seq!['u', '3', '2'] { Some(SpecToken::U32) }
    else if w == seq!['i', '3', '2'] { Some(SpecToken::I32) }
    else if w == seq!['f', '3', '2'] { Some(SpecToken::F32) }
    else if w == seq!['u', '6', '4'] { Some(SpecToken::U64) }
    else if w == seq!['i', '6', '4'] { Some(SpecToken::I64) }
    else if w == seq!['f', '6', '4'] { Some(SpecToken::F64) }
    else { None }
}

/// The token for a word: its keyword, or an identifier.
pub open spec fn word_token(w: Seq<char>) -> SpecToken {
    match keyword(w) {
        Some(t) => t,
        None => SpecToken::Identifier(w),
    }
}

/// Every scan ends at or after where it started, and inside the input when it
/// started inside it.
pub proof fn lemma_scan_bounds(cs: Seq<char>, i: int)
    ensures
        i <= whitespace_end(cs, i),
        i <= line_end(cs, i),
        i <= number_end(cs, i),
        i <= identifier_end(cs, i),
        i <= quote_end(cs, i),
        i <= cs.len() ==> whitespace_end(cs, i) <= cs.len(),
        i <= cs.len() ==> line_end(cs, i) <= cs.len(),
        i <= cs.len() ==> number_end(cs, i) <= cs.len(),
        i <= cs.len() ==> identifier_end(cs, i) <= cs.len(),
        i <= cs.len() ==> quote_end(cs, i) <= cs.len(),
    decreases cs.len() - i,
{
    if 0 <= i < cs.len() {
        lemma_scan_bounds(cs, i + 1);
    }
}

/// The model of the lexer: the token that starts at or after position `i`
/// of `cs`, once whitespace and `//` line comments are skipped, and the
/// position just after it. A character that starts no token ends the input:
/// it yields `EOF`.
pub open spec fn lex_at(cs: Seq<char>, i: int) -> LexStep
    decreases cs.len() - i,
{
    let j = whitespace_end(cs, i);
    match char_at(cs, j) {
        None => LexStep::Emit(SpecToken::EOF, j),
        Some(c) => {
            let k = j + 1;
            let next = char_at(cs, k);
            if c == '=' {
                if next == Some('=') { LexStep::Emit(SpecToken::Equals, k + 1) }
                else { LexStep::Emit(SpecToken::Assign, k) }
            } else if c == '+' {
                if next == Some('+') { LexStep::Emit(SpecToken::Increment, k + 1) }
                else if next == Some('=') { LexStep::Emit(SpecToken::PlusEquals, k + 1) }
                else { LexStep::Emit(SpecToken::Plus, k) }
            } else if c == '-' {
                if next == Some('-') { LexStep::Emit(SpecToken::Decrement, k + 1) }
                else if next == Some('=') { LexStep::Emit(SpecToken::MinusEquals, k + 1) }
                else if next == Some('>') { LexStep::Emit(SpecToken::Arrow, k + 1) }
                else { LexStep::Emit(SpecToken::Minus, k) }
            } else if c == '*' {
                if next == Some('*') { LexStep::Emit(SpecToken::Power, k + 1) }
                else if next == Some('=') { LexStep::Emit(SpecToken::TimesEquals, k + 1) }
                else { LexStep::Emit(SpecToken::Multiply, k) }
            } else if c == '/' {
                if next == Some('/') {
                    proof {
                        lemma_scan_bounds(cs, i);
                        lemma_scan_bounds(cs, k + 1);
                    }
                    lex_at(cs, line_end(cs, k + 1))
                } else if next == Some('=') {
                    LexStep::Emit(SpecToken::DivideEquals, k + 1)
                } else {
                    LexStep::Emit(SpecToken::Divide, k)
                }
            } else if c == '%' {
                LexStep::Emit(SpecToken::Modulo, k)
            } else if c == '!' {
                if next == Some('=') { LexStep::Emit(SpecToken::NotEquals, k + 1) }
                else { LexStep::Emit(SpecToken::Bang, k) }
            } else if c == '<' {
                if next == Some('=') { LexStep::Emit(SpecToken::LessThanEquals, k + 1) }
                else { LexStep::Emit(SpecToken::LessThan, k) }
            } else if c == '>' {
                if next == Some('=') { LexStep::Emit(SpecToken::GreaterThanEquals, k + 1) }
                else { LexStep::Emit(SpecToken::GreaterThan, k) }
            } else if c == '&' {
                if next == Some('&') { LexStep::Emit(SpecToken::And, k + 1) }
                else { LexStep::Fail(LexError::UnexpectedCharacter('&')) }
            } else if c == '|' {
                if next == Some('|') { LexStep::Emit(SpecToken::Or, k + 1) }
                else { LexStep::Fail(LexError::UnexpectedCharacter('|')) }
            } else if c == '(' {
                LexStep::Emit(SpecToken::OpenParen, k)
            } else if c == ')' {
                LexStep::Emit(SpecToken::CloseParen, k)
            } else if c == '{' {
                LexStep::Emit(SpecToken::OpenBrace, k)
            } else if c == '}' {
                LexStep::Emit(SpecToken::CloseBrace, k)
            } else if c == '[' {
                LexStep::Emit(SpecToken::OpenBracket, k)
            } else if c == ']' {
                LexStep::Emit(SpecToken::CloseBracket, k)
            } else if c == ',' {
                LexStep::Emit(SpecToken::Comma, k)
            } else if c == '"' {
                let e = quote_end(cs, k);
                if e < cs.len() {
                    LexStep::Emit(SpecToken::LiteralString(cs.subrange(k, e)), e + 1)
                } else {
                    LexStep::Fail(LexError::UnterminatedString)
                }
            } else if c == '\'' {
                match (char_at(cs, k), char_at(cs, k + 1)) {
                    (Some(v), Some(q)) => if q == '\'' {
                        LexStep::Emit(SpecToken::LiteralChar(v), k + 2)
                    } else {
                        LexStep::Fail(LexError::InvalidCharLiteral)
                    },
                    (Some(_), None) => LexStep::Fail(LexError::InvalidCharLiteral),
                    (None, _) => LexStep::Fail(LexError::ExpectedCharacter),
                }
            } else if is_digit_char(c) {
                LexStep::Emit(SpecToken::LiteralNumber(cs.subrange(j, number_end(cs, k))), number_end(cs, k))
            } else if char_is_alphabetic(c) {
                LexStep::Emit(word_token(cs.subrange(j, identifier_end(cs, k))), identifier_end(cs, k))
            } else {
                LexStep::Emit(SpecToken::EOF, k)
            }
        },
    }
}

/// The model's outcome for what an executable lexing step returned.
pub open spec fn step_of(r: Result<(Token, usize), LexError>) -> LexStep {
    match r {
        Ok((t, p)) => LexStep::Emit(t@, p as int),
        Err(e) => LexStep::Fail(e),
    }
}

/// A tokenizer over one input text.
pub struct Tokenizer<'a> {
    input: &'a str,
    chars: Vec<char>,
    pos: usize,
}

impl<'a> Tokenizer<'a> {
    /// The characters of the input.
    pub closed spec fn text(&self) -> Seq<char> {
        self.chars@
    }

    /// How many characters of the input have been read.
    pub closed spec fn position(&self) -> int {
        self.pos as int
    }

    #[verifier::type_invariant]
    spec fn inv(&self) -> bool {
        &&& self.pos <= self.chars.len()
        &&& self.chars@ == self.input@
    }

    /// A tokenizer at the start of `input`.
    pub fn new(input: &'a str) -> (t: Self)
        ensures
            t.text() == input@,
            t.position() == 0,
    {
        Tokenizer { input, chars: chars_of(input), pos: 0 }
    }

    /// The character at position `at`, if there is one.
    fn peek(&self, at: usize) -> (r: Option<char>)
        ensures
            r == char_at(self.text(), at as int),
    {
        if at < self.chars.len() {
            Some(self.chars[at])
        } else {
            None
        }
    }

    /// The first position at or after `from` that is not whitespace.
    fn skip_whitespace(&self, from: usize) -> (r: usize)
        requires
            from <= self.text().len(),
        ensures
            r == whitespace_end(self.text(), from as int),
    {
        proof { use_type_invariant(self); }
        let mut i = from;
        while i < self.chars.len() && is_whitespace(self.chars[i])
            invariant
                from <= i <= self.chars.len(),
                whitespace_end(self.chars@, from as int) == whitespace_end(self.chars@, i as int),
            decreases self.chars.len() - i,
        {
            i = i + 1;
        }
        i
    }

    /// The end of a `//` comment whose text starts at `from`: the next
    /// newline, or the end of the input.
    fn skip_line_comment(&self, from: usize) -> (r: usize)
        requires
            from <= self.text().len(),
        ensures
            r == line_end(self.text(), from as int),
    {
        proof { use_type_invariant(self); }
        let mut i = from;
        while i < self.chars.len() && self.chars[i] != '\n'
            invariant
                from <= i <= self.chars.len(),
                line_end(self.chars@, from as int) == line_end(self.chars@, i as int),
            decreases self.chars.len() - i,
        {
            i = i + 1;
        }
        i
    }

    /// The characters from `from` up to `to`.
    fn slice(&self, from: usize, to: usize) -> (v: Vec<char>)
        requires
            from <= to <= self.text().len(),
        ensures
            v@ == self.text().subrange(from as int, to as int),
    {
        let mut v: Vec<char> = Vec::new();
        let mut i = from;
        while i < to
            invariant
                from <= i <= to <= self.chars.len(),
                v@ == self.chars@.subrange(from as int, i as int),
            decreases to - i,
        {
            v.push(self.chars[i]);
            i = i + 1;
        }
        v
    }

    /// A string literal whose text starts at `from` (just after the opening
    /// quote): the literal and the position after its closing quote.
    fn tokenize_string(&self, from: usize) -> (r: Result<(Token, usize), LexError>)
        requires
            from <= self.text().len(),
        ensures
            step_of(r) == {
                let e = quote_end(self.text(), from as int);
                if e < self.text().len() {
                    LexStep::Emit(SpecToken::LiteralString(self.text().subrange(from as int, e)), e + 1)
                } else {
                    LexStep::Fail(LexError::UnterminatedString)
                }
            },
    {
        proof { use_type_invariant(self); }
        let mut i = from;
        while i < self.chars.len() && self.chars[i] != '"'
            invariant
                from <= i <= self.chars.len(),
                quote_end(self.chars@, from as int) == quote_end(self.chars@, i as int),
            decreases self.chars.len() - i,
        {
            i = i + 1;
        }
        if i < self.chars.len() {
            let text = self.slice(from, i);
            Ok((Token::LiteralString(string_from_chars(&text)), i + 1))
        } else {
            Err(LexError::UnterminatedString)
        }
    }

    /// A char literal whose character is at `from` (just after the opening
    /// quote): the literal and the position after its closing quote.
    fn tokenize_char(&self, from: usize) -> (r: Result<(Token, usize), LexError>)
        requires
            from <= self.text().len(),
        ensures
            step_of(r) == match (char_at(self.text(), from as int), char_at(self.text(), from + 1)) {
                (Some(v), Some(q)) => if q == '\'' {
                    LexStep::Emit(SpecToken::LiteralChar(v), from + 2)
                } else {
                    LexStep::Fail(LexError::InvalidCharLiteral)
                },
                (Some(_), None) => LexStep::Fail(LexError::InvalidCharLiteral),
                (None, _) => LexStep::Fail(LexError::ExpectedCharacter),
            },
    {
        proof { use_type_invariant(self); }
        match self.peek(from) {
            Some(v) => {
                if from + 1 < self.chars.len() && self.chars[from + 1] == '\'' {
                    Ok((Token::LiteralChar(v), from + 2))
                } else {
                    Err(LexError::InvalidCharLiteral)
                }
            },
            None => Err(LexError::ExpectedCharacter),
        }
    }

    /// A number literal whose first digit is at `start`: its digits and dots,
    /// and the position after them.
    fn tokenize_number(&self, start: usize) -> (r: (Token, usize))
        requires
            start < self.text().len(),
        ensures
            r.0@ == SpecToken::LiteralNumber(self.text().subrange(start as int, number_end(self.text(), start + 1))),
            r.1 == number_end(self.text(), start + 1),
    {
        proof { use_type_invariant(self); }
        let mut i = start + 1;
        while i < self.chars.len() && (is_decimal_digit(self.chars[i]) || self.chars[i] == '.')
            invariant
                start < i <= self.chars.len(),
                number_end(self.chars@, start + 1) == number_end(self.chars@, i as int),
            decreases self.chars.len() - i,
        {
            i = i + 1;
        }
        let text = self.slice(start, i);
        (Token::LiteralNumber(string_from_chars(&text)), i)
    }

    /// A word whose first letter is at `start`: its keyword token or an
    /// identifier, and the position after it.
    fn tokenize_identifier(&self, start: usize) -> (r: (Token, usize))
        requires
            start < self.text().len(),
        ensures
            r.0@ == word_token(self.text().subrange(start as int, identifier_end(self.text(), start + 1))),
            r.1 == identifier_end(self.text(), start + 1),
    {
        proof { use_type_invariant(self); }
        let mut i = start + 1;
        while i < self.chars.len() && (is_alphanumeric(self.chars[i]) || self.chars[i] == '_')
            invariant
                start < i <= self.chars.len(),
                identifier_end(self.chars@, start + 1) == identifier_end(self.chars@, i as int),
            decreases self.chars.len() - i,
        {
            i = i + 1;
        }
        let word = self.slice(start, i);
        (word_to_token(&word), i)
    }
    /// The token that starts at or after `from`, and the position after it.
    fn lex_from(&self, from: usize) -> (r: Result<(Token, usize), LexError>)
        requires
            from <= self.text().len(),
        ensures
            step_of(r) == lex_at(self.text(), from as int),
        decreases self.text().len() - from,
    {
        proof {
            use_type_invariant(self);
            lemma_scan_bounds(self.text(), from as int);
        }
        let j = self.skip_whitespace(from);
        match self.peek(j) {
            None => Ok((Token::EOF, j)),
            Some(c) => {
                let k = j + 1;
                let next = self.peek(k);
                if c == '=' {
                    if is_char(next, '=') { Ok((Token::Equals, k + 1)) } else { Ok((Token::Assign, k)) }
                } else if c == '+' {
                    if is_char(next, '+') { Ok((Token::Increment, k + 1)) }
                    else if is_char(next, '=') { Ok((Token::PlusEquals, k + 1)) }
                    else { Ok((Token::Plus, k)) }
                } else if c == '-' {
                    if is_char(next, '-') { Ok((Token::Decrement, k + 1)) }
                    else if is_char(next, '=') { Ok((Token::MinusEquals, k + 1)) }
                    else if is_char(next, '>') { Ok((Token::Arrow, k + 1)) }
                    else { Ok((Token::Minus, k)) }
                } else if c == '*' {
                    if is_char(next, '*') { Ok((Token::Power, k + 1)) }
                    else if is_char(next, '=') { Ok((Token::TimesEquals, k + 1)) }
                    else { Ok((Token::Multiply, k)) }
                } else if c == '/' {
                    if is_char(next, '/') {
                        let e = self.skip_line_comment(k + 1);
                        proof { lemma_scan_bounds(self.text(), k + 1); }
                        self.lex_from(e)
                    } else if is_char(next, '=') {
                        Ok((Token::DivideEquals, k + 1))
                    } else {
                        Ok((Token::Divide, k))
                    }
                } else if c == '%' {
                    Ok((Token::Modulo, k))
                } else if c == '!' {
                    if is_char(next, '=') { Ok((Token::NotEquals, k + 1)) } else { Ok((Token::Bang, k)) }
                } else if c == '<' {
                    if is_char(next, '=') { Ok((Token::LessThanEquals, k + 1)) } else { Ok((Token::LessThan, k)) }
                } else if c == '>' {
                    if is_char(next, '=') { Ok((Token::GreaterThanEquals, k + 1)) } else { Ok((Token::GreaterThan, k)) }
                } else if c == '&' {
                    if is_char(next, '&') { Ok((Token::And, k + 1)) } else { Err(LexError::UnexpectedCharacter('&')) }
                } else if c == '|' {
                    if is_char(next, '|') { Ok((Token::Or, k + 1)) } else { Err(LexError::UnexpectedCharacter('|')) }
                } else if c == '(' {
                    Ok((Token::OpenParen, k))
                } else if c == ')' {
                    Ok((Token::CloseParen, k))
                } else if c == '{' {
                    Ok((Token::OpenBrace, k))
                } else if c == '}' {
                    Ok((Token::CloseBrace, k))
                } else if c == '[' {
                    Ok((Token::OpenBracket, k))
                } else if c == ']' {
                    Ok((Token::CloseBracket, k))
                } else if c == ',' {
                    Ok((Token::Comma, k))
                } else if c == '"' {
                    self.tokenize_string(k)
                } else if c == '\'' {
                    self.tokenize_char(k)
                } else if is_decimal_digit(c) {
                    let (t, e) = self.tokenize_number(j);
                    Ok((t, e))
                } else if is_alphabetic(c) {
                    let (t, e) = self.tokenize_identifier(j);
                    Ok((t, e))
                } else {
                    Ok((Token::EOF, k))
                }
            },
        }
    }

    /// Reads the next token: whitespace and `//` comments are skipped, and a
    /// character that starts no token yields `EOF`. The input at this point
    /// must be one the lexer can read (see [`Tokenizer::next_token_error`]).
    pub fn next_token(&mut self) -> (t: Token)
        requires
            lex_at(old(self).text(), old(self).position()) is Emit,
        ensures
            final(self).text() == old(self).text(),
            lex_at(old(self).text(), old(self).position())
                == LexStep::Emit(t@, final(self).position()),
    {
        proof { use_type_invariant(&*self); }
        match self.lex_from(self.pos) {
            Ok((t, p)) => {
                proof { lemma_lex_bounds(self.text(), self.position()); }
                self.pos = p;
                t
            },
            Err(_) => Token::EOF,
        }
    }

    /// Why the next token cannot be read, if it cannot; `None` when
    /// [`Tokenizer::next_token`] may be called.
    pub fn next_token_error(&self) -> (r: Option<LexError>)
        ensures
            r == match lex_at(self.text(), self.position()) {
                LexStep::Emit(..) => None,
                LexStep::Fail(e) => Some(e),
            },
    {
        proof { use_type_invariant(self); }
        match self.lex_from(self.pos) {
            Ok(_) => None,
            Err(e) => Some(e),
        }
    }

    /// Reads the next token as [`Tokenizer::next_token`] does where the input
    /// can be read there; else reports why not, and stays where it was.
    pub fn try_next_token(&mut self) -> (r: Result<Token, LexError>)
        ensures
            final(self).text() == old(self).text(),
            match lex_at(old(self).text(), old(self).position()) {
                LexStep::Emit(t, j) => r matches Ok(tok) && tok@ == t && final(self).position() == j,
                LexStep::Fail(e) => r == Err::<Token, LexError>(e) && final(self).position() == old(self).position(),
            },
    {
        match self.next_token_error() {
            Some(e) => Err(e),
            None => Ok(self.next_token()),
        }
    }

    /// Reads tokens up to the first `EOF` (which is not included), or reports
    /// the first point at which the input cannot be tokenized.
    pub fn tokenize(&mut self) -> (r: Result<Vec<Token>, LexError>)
        ensures
            final(self).text() == old(self).text(),
            match tokens_from(old(self).text(), old(self).position()) {
                Ok(ts) => r is Ok && tokens_view(r->Ok_0@) == ts,
                Err(e) => r == Err::<Vec<Token>, LexError>(e),
            },
    {
        proof { use_type_invariant(&*self); }
        let ghost start = self.position();
        let mut tokens: Vec<Token> = Vec::new();
        loop
            invariant
                self.text() == old(self).text(),
                start == old(self).position(),
                start <= self.position() <= self.text().len(),
                tokens_from(self.text(), start) == match tokens_from(self.text(), self.position()) {
                    Ok(rest) => Ok(tokens_view(tokens@) + rest),
                    Err(e) => Err(e),
                },
            decreases self.text().len() - self.position(),
        {
            proof { use_type_invariant(&*self); }
            match self.lex_from(self.pos) {
                Err(e) => {
                    assert(tokens_from(self.text(), self.position()) == Err::<Seq<SpecToken>, LexError>(e));
                    return Err(e);
                },
                Ok((t, p)) => {
                    proof { lemma_lex_bounds(self.text(), self.position()); }
                    if matches!(t, Token::EOF) {
                        assert(tokens_from(self.text(), self.position()) == Ok::<Seq<SpecToken>, LexError>(Seq::empty()));
                        assert(tokens_view(tokens@) + Seq::<SpecToken>::empty() =~= tokens_view(tokens@));
                        return Ok(tokens);
                    }
                    let ghost before = tokens@;
                    let ghost old_pos = self.position();
                    assert(t@ != SpecToken::EOF);
                    assert(tokens_from(self.text(), old_pos) == match tokens_from(self.text(), p as int) {
                        Ok(rest) => Ok(seq![t@] + rest),
                        Err(e) => Err(e),
                    });
                    self.pos = p;
                    tokens.push(t);
                    proof {
                        assert(tokens_view(tokens@) =~= tokens_view(before).push(t@));
                        match tokens_from(self.text(), self.position()) {
                            Ok(rest) => {
                                assert(tokens_view(tokens@) + rest
                                    =~= tokens_view(before) + (seq![t@] + rest));
                            },
                            Err(_) => {},
                        }
                    }
                },
            }
        }
    }
}

/// Whether `o` holds the character `c`.
fn is_char(o: Option<char>, c: char) -> (r: bool)
    ensures
        r == (o == Some(c)),
{
    match o {
        Some(d) => d == c,
        None => false,
    }
}

/// The token for a word: its keyword, or an identifier.
fn word_to_token(word: &Vec<char>) -> (t: Token)
    ensures
        t@ == word_token(word@),
{
    if spells(word, &['f', 'n']) { Token::Fn }
    else if spells(word, &['i', 'f']) { Token::If }
    else if spells(word, &['e', 'l', 's', 'e']) { Token::Else }
    else if spells(word, &['e', 'l', 'i', 'f']) { Token::Elif }
    else if spells(word, &['f', 'o', 'r']) { Token::For }
    else if spells(word, &['w', 'h', 'i', 'l', 'e']) { Token::While }
    else if spells(word, &['r', 'e', 't', 'u', 'r', 'n']) { Token::Return }
    else if spells(word, &['t', 'r', 'u', 'e']) { Token::True }
    else if spells(word, &['f', 'a', 'l', 's', 'e']) { Token::False }
    else if spells(word, &['b', 'o', 'o', 'l']) { Token::Bool }
    else if spells(word, &['s', 't', 'r', 'i', 'n', 'g']) { Token::String }
    else if spells(word, &['c', 'h', 'a', 'r']) { Token::Char }
    else if spells(word, &['u', '8']) { Token::U8 }
    else if spells(word, &['i', '8']) { Token::I8 }
    else if spells(word, &['u', '1', '6']) { Token::U16 }
    else if spells(word, &['i', '1', '6']) { Token::I16 }
    else if spells(word, &['f', '1', '6']) { Token::F16 }
    else if spells(word, &['u', '3', '2']) { Token::U32 }
    else if spells(word, &['i', '3', '2']) { Token::I32 }
    else if spells(word, &['f', '3', '2']) { Token::F32 }
    else if spells(word, &['u', '6', '4']) { Token::U64 }
    else if spells(word, &['i', '6', '4']) { Token::I64 }
    else if spells(word, &['f', '6', '4']) { Token::F64 }
    else { Token::Identifier(string_from_chars(word)) }
}

/// The views of a sequence of tokens.
pub open spec fn tokens_view(ts: Seq<Token>) -> Seq<SpecToken> {
    ts.map_values(|t: Token| t@)
}

/// A lexing step stays inside the input and never moves backwards; a step
/// that yields anything but `EOF` moves forwards.
pub proof fn lemma_lex_bounds(cs: Seq<char>, i: int)
    requires
        0 <= i <= cs.len(),
    ensures
        lex_at(cs, i) matches LexStep::Emit(t, j) ==> i <= j <= cs.len() && (t != SpecToken::EOF ==> i < j),
    decreases cs.len() - i,
{
    lemma_scan_bounds(cs, i);
    let j = whitespace_end(cs, i);
    lemma_scan_bounds(cs, j + 1);
    if j < cs.len() && cs[j] == '/' && j + 1 < cs.len() && cs[j + 1] == '/' {
        lemma_scan_bounds(cs, j + 2);
        lemma_lex_bounds(cs, line_end(cs, j + 2));
    }
}

/// The model of [`Tokenizer::tokenize`]: every token from position `i` up to
/// the first `EOF`, or the first reason the input cannot be tokenized.
pub open spec fn tokens_from(cs: Seq<char>, i: int) -> Result<Seq<SpecToken>, LexError>
    decreases cs.len() - i,
{
    if 0 <= i <= cs.len() {
        match lex_at(cs, i) {
            LexStep::Fail(e) => Err(e),
            LexStep::Emit(t, j) => {
                if t == SpecToken::EOF {
                    Ok(Seq::empty())
                } else {
                    proof { lemma_lex_bounds(cs, i); }
                    match tokens_from(cs, j) {
                        Ok(rest) => Ok(seq![t] + rest),
                        Err(e) => Err(e),
                    }
                }
            },
        }
    } else {
        Ok(Seq::empty())
    }
}

} // verus!

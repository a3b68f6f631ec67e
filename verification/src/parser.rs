//! The parser: builds the syntax tree of a program from its tokens by
//! recursive descent. Each parsing function is proved to compute what the
//! function of the same role in [`crate::grammar`] says.

use vstd::prelude::*;

use crate::ast::{
    SpecStatement, SpecTopLevel,
    expressions_view, parameters_view, statements_view, top_levels_view, BinaryOp, ComparisonOp,
    DataType, Expression, FunctionDeclaration, LogicalOp, SpecExpression, Statement, TopLevel,
    UnaryOp,
};
use crate::grammar::{
    additive_op_of, arguments, call, comparison, comparison_op_of, comparison_rest, data_type,
    data_type_of, expect, expression, logical_and, logical_and_rest, logical_or, logical_or_rest,
    multiplication, multiplication_rest, multiplicative_op_of, number_literal, number_with_type,
    past, primary, tok, unary, unary_op_of, addition, addition_rest, Parsed, SpecParseError,
    assignment, block, braced_block, call_statement, declaration, elif_branches, for_statement,
    function_declaration, guarded_block, if_statement, parameters, program, return_statement,
    statement, while_statement, if_branches, for_rest,
};
use crate::lexer::tokens_view;
use crate::numbers::{is_float_text, parse_integer};
use crate::text::{chars_of, contains_char};
use crate::token::{SpecToken, Token};

verus! {

/// Why a token sequence is not a program.
#[derive(Debug, Clone, PartialEq)]
pub enum ParseError {
    /// A token other than the one the grammar calls for.
    Expected { expected: Token, found: Token },
    /// The tokens end where the grammar calls for a token.
    ExpectedButEof { expected: Token },
    /// A number with a `.` that is not a float.
    InvalidFloatLiteral(String),
    /// A number without a `.` that fits neither `i32` nor `i64`.
    InvalidIntegerLiteral(String),
    /// A `bool` literal other than `0` or `1`.
    InvalidBoolLiteral(String),
    /// A number that is not a value of the type it is declared with.
    InvalidLiteral { data_type: DataType, text: String },
    /// A number given a type that numbers cannot have.
    UnsupportedLiteralType(DataType),
    /// Something other than a function at the top level.
    ExpectedTopLevel(Option<Token>),
    ExpectedFunctionName(Option<Token>),
    ExpectedParameterName(Option<Token>),
    /// A token that names no data type where one is called for.
    InvalidDataType(Token),
    /// The tokens end where a data type is called for.
    ExpectedDataType,
    ExpectedVariableName(Option<Token>),
    /// An identifier that starts no statement with the token after it.
    UnexpectedTokenAfterIdentifier(Option<Token>),
    ExpectedStatement(Option<Token>),
    UnexpectedTokenInExpression(Option<Token>),
}

/// The model of an optional token.
pub open spec fn token_option_view(t: Option<Token>) -> Option<SpecToken> {
    match t {
        Some(t) => Some(t@),
        None => None,
    }
}

impl View for ParseError {
    type V = SpecParseError;

    open spec fn view(&self) -> SpecParseError {
        match self {
            ParseError::Expected { expected, found } => SpecParseError::Expected { expected: expected@, found: found@ },
            ParseError::ExpectedButEof { expected } => SpecParseError::ExpectedButEof { expected: expected@ },
            ParseError::InvalidFloatLiteral(s) => SpecParseError::InvalidFloatLiteral(s@),
            ParseError::InvalidIntegerLiteral(s) => SpecParseError::InvalidIntegerLiteral(s@),
            ParseError::InvalidBoolLiteral(s) => SpecParseError::InvalidBoolLiteral(s@),
            ParseError::InvalidLiteral { data_type, text } => SpecParseError::InvalidLiteral { data_type: *data_type, text: text@ },
            ParseError::UnsupportedLiteralType(d) => SpecParseError::UnsupportedLiteralType(*d),
            ParseError::ExpectedTopLevel(t) => SpecParseError::ExpectedTopLevel(token_option_view(*t)),
            ParseError::ExpectedFunctionName(t) => SpecParseError::ExpectedFunctionName(token_option_view(*t)),
            ParseError::ExpectedParameterName(t) => SpecParseError::ExpectedParameterName(token_option_view(*t)),
            ParseError::InvalidDataType(t) => SpecParseError::InvalidDataType(t@),
            ParseError::ExpectedDataType => SpecParseError::ExpectedDataType,
            ParseError::ExpectedVariableName(t) => SpecParseError::ExpectedVariableName(token_option_view(*t)),
            ParseError::UnexpectedTokenAfterIdentifier(t) => SpecParseError::UnexpectedTokenAfterIdentifier(token_option_view(*t)),
            ParseError::ExpectedStatement(t) => SpecParseError::ExpectedStatement(token_option_view(*t)),
            ParseError::UnexpectedTokenInExpression(t) => SpecParseError::UnexpectedTokenInExpression(token_option_view(*t)),
        }
    }
}

/// An executable parse result `r`, with the parser at `pos` afterwards,
/// is what the model `m` says, the value seen through `view`.
pub open spec fn agrees<T, V>(r: Result<T, ParseError>, pos: int, m: Parsed<V>, view: spec_fn(T) -> V) -> bool {
    match (r, m) {
        (Ok(v), Ok((w, q))) => view(v) == w && pos == q,
        (Err(e), Err((x, q))) => e@ == x && pos == q,
        _ => false,
    }
}

/// The model of an expression, as a function value.
pub open spec fn expr_model() -> spec_fn(Expression) -> SpecExpression {
    |e: Expression| e@
}

/// A parser over a token sequence.
#[derive(Debug)]
pub struct Parser {
    tokens: Vec<Token>,
    current: usize,
}

impl Parser {
    /// The models of the tokens.
    pub closed spec fn toks(&self) -> Seq<SpecToken> {
        tokens_view(self.tokens@)
    }

    /// How many tokens have been read.
    pub closed spec fn pos(&self) -> int {
        self.current as int
    }

    #[verifier::type_invariant]
    spec fn inv(&self) -> bool {
        self.current <= self.tokens.len()
    }

    /// A parser at the first of `tokens`.
    pub fn new(tokens: Vec<Token>) -> (p: Self)
        ensures
            p.toks() == tokens_view(tokens@),
            p.pos() == 0,
    {
        Parser { tokens, current: 0 }
    }

    /// Whether the next token is `expected`.
    fn peek_is(&self, expected: &Token) -> (r: bool)
        ensures
            r == (tok(self.toks(), self.pos()) == Some(expected@)),
            self.pos() <= self.toks().len(),
    {
        proof { use_type_invariant(self); }
        self.current < self.tokens.len() && self.tokens[self.current].same_as(expected)
    }

    /// A copy of the next token, if there is one.
    fn peek(&self) -> (r: Option<Token>)
        ensures
            token_option_view(r) == tok(self.toks(), self.pos()),
            self.pos() <= self.toks().len(),
    {
        proof { use_type_invariant(self); }
        if self.current < self.tokens.len() {
            Some(self.tokens[self.current].duplicate())
        } else {
            None
        }
    }

    /// Takes the next token, if there is one.
    fn consume(&mut self) -> (r: Option<Token>)
        ensures
            final(self).toks() == old(self).toks(),
            token_option_view(r) == tok(old(self).toks(), old(self).pos()),
            final(self).pos() == past(old(self).toks(), old(self).pos()),
            final(self).pos() <= final(self).toks().len(),
    {
        proof { use_type_invariant(&*self); }
        if self.current < self.tokens.len() {
            let token = self.tokens[self.current].duplicate();
            self.current = self.current + 1;
            Some(token)
        } else {
            None
        }
    }

    /// Takes the next token, which must be `expected`.
    fn expect(&mut self, expected: Token) -> (r: Result<(), ParseError>)
        ensures
            final(self).toks() == old(self).toks(),
            final(self).pos() <= final(self).toks().len(),
            match expect(old(self).toks(), old(self).pos(), expected@) {
                Ok(q) => r is Ok && final(self).pos() == q,
                Err((x, q)) => r matches Err(e) && e@ == x && final(self).pos() == q,
            },
    {
        match self.consume() {
            Some(token) => {
                if token.same_as(&expected) {
                    Ok(())
                } else {
                    Err(ParseError::Expected { expected, found: token })
                }
            },
            None => Err(ParseError::ExpectedButEof { expected }),
        }
    }
}

/// An executable literal result `r` is what the model `m` says.
pub open spec fn literal_agrees(r: Result<Expression, ParseError>, m: Result<SpecExpression, SpecParseError>) -> bool {
    match (r, m) {
        (Ok(e), Ok(x)) => e@ == x,
        (Err(e), Err(x)) => e@ == x,
        _ => false,
    }
}

impl Parser {
    /// The literal that the number text `num_str` denotes as a value of type
    /// `data_type`.
    fn parse_number_with_type(&self, num_str: &String, data_type: DataType) -> (r: Result<Expression, ParseError>)
        ensures
            literal_agrees(r, number_with_type(num_str@, data_type)),
    {
        let text = chars_of(num_str.as_str());
        match data_type {
            DataType::Bool => {
                if text.len() == 1 && text[0] == '0' {
                    assert(text@ =~= seq!['0']);
                    Ok(Expression::LiteralBool(false))
                } else if text.len() == 1 && text[0] == '1' {
                    assert(text@ =~= seq!['1']);
                    Ok(Expression::LiteralBool(true))
                } else {
                    Err(ParseError::InvalidBoolLiteral(num_str.clone()))
                }
            },
            DataType::U8 => match parse_integer(&text, false, 0, 0xff) {
                Some(v) => Ok(Expression::LiteralU8(v as u8)),
                None => Err(ParseError::InvalidLiteral { data_type, text: num_str.clone() }),
            },
            DataType::I8 => match parse_integer(&text, true, -0x80, 0x7f) {
                Some(v) => Ok(Expression::LiteralI8(v as i8)),
                None => Err(ParseError::InvalidLiteral { data_type, text: num_str.clone() }),
            },
            DataType::U16 => match parse_integer(&text, false, 0, 0xffff) {
                Some(v) => Ok(Expression::LiteralU16(v as u16)),
                None => Err(ParseError::InvalidLiteral { data_type, text: num_str.clone() }),
            },
            DataType::I16 => match parse_integer(&text, true, -0x8000, 0x7fff) {
                Some(v) => Ok(Expression::LiteralI16(v as i16)),
                None => Err(ParseError::InvalidLiteral { data_type, text: num_str.clone() }),
            },
            DataType::U32 => match parse_integer(&text, false, 0, 0xffff_ffff) {
                Some(v) => Ok(Expression::LiteralU32(v as u32)),
                None => Err(ParseError::InvalidLiteral { data_type, text: num_str.clone() }),
            },
            DataType::I32 => match parse_integer(&text, true, -0x8000_0000, 0x7fff_ffff) {
                Some(v) => Ok(Expression::LiteralI32(v as i32)),
                None => Err(ParseError::InvalidLiteral { data_type, text: num_str.clone() }),
            },
            DataType::U64 => match parse_integer(&text, false, 0, 0xffff_ffff_ffff_ffff) {
                Some(v) => Ok(Expression::LiteralU64(v as u64)),
                None => Err(ParseError::InvalidLiteral { data_type, text: num_str.clone() }),
            },
            DataType::I64 => match parse_integer(&text, true, -0x8000_0000_0000_0000, 0x7fff_ffff_ffff_ffff) {
                Some(v) => Ok(Expression::LiteralI64(v as i64)),
                None => Err(ParseError::InvalidLiteral { data_type, text: num_str.clone() }),
            },
            DataType::F16 => if is_float_text(&text) {
                Ok(Expression::LiteralF16(num_str.clone()))
            } else {
                Err(ParseError::InvalidLiteral { data_type, text: num_str.clone() })
            },
            DataType::F32 => if is_float_text(&text) {
                Ok(Expression::LiteralF32(num_str.clone()))
            } else {
                Err(ParseError::InvalidLiteral { data_type, text: num_str.clone() })
            },
            DataType::F64 => if is_float_text(&text) {
                Ok(Expression::LiteralF64(num_str.clone()))
            } else {
                Err(ParseError::InvalidLiteral { data_type, text: num_str.clone() })
            },
            DataType::Char => Err(ParseError::UnsupportedLiteralType(data_type)),
            DataType::String => Err(ParseError::UnsupportedLiteralType(data_type)),
        }
    }

    /// The literal that the number text `num_str` denotes, of the expected
    /// type when one is known.
    fn parse_number_literal(&self, num_str: &String, expected_type: Option<DataType>) -> (r: Result<Expression, ParseError>)
        ensures
            literal_agrees(r, number_literal(num_str@, expected_type)),
    {
        if let Some(data_type) = expected_type {
            return self.parse_number_with_type(num_str, data_type);
        }
        let text = chars_of(num_str.as_str());
        if contains_char(&text, '.') {
            if is_float_text(&text) {
                Ok(Expression::LiteralF64(num_str.clone()))
            } else {
                Err(ParseError::InvalidFloatLiteral(num_str.clone()))
            }
        } else {
            match parse_integer(&text, true, -0x8000_0000, 0x7fff_ffff) {
                Some(v) => Ok(Expression::LiteralI32(v as i32)),
                None => match parse_integer(&text, true, -0x8000_0000_0000_0000, 0x7fff_ffff_ffff_ffff) {
                    Some(v) => Ok(Expression::LiteralI64(v as i64)),
                    None => Err(ParseError::InvalidIntegerLiteral(num_str.clone())),
                },
            }
        }
    }
}

impl Parser {
    /// An expression, with no expected type for its number literals.
    fn parse_expression(&mut self) -> (r: Result<Expression, ParseError>)
        ensures
            final(self).toks() == old(self).toks(),
            old(self).pos() <= final(self).pos() <= final(self).toks().len(),
            r is Ok ==> old(self).pos() < final(self).pos(),
            agrees(r, final(self).pos(), expression(old(self).toks(), old(self).pos(), None), expr_model()),
        decreases self.toks().len() - self.pos(), 31int,
    {
        self.parse_expression_with_context(None)
    }

    /// An expression, where number literals take the expected type if one
    /// is given.
    fn parse_expression_with_context(&mut self, expected_type: Option<DataType>) -> (r: Result<Expression, ParseError>)
        ensures
            final(self).toks() == old(self).toks(),
            old(self).pos() <= final(self).pos() <= final(self).toks().len(),
            r is Ok ==> old(self).pos() < final(self).pos(),
            agrees(r, final(self).pos(), expression(old(self).toks(), old(self).pos(), expected_type), expr_model()),
        decreases self.toks().len() - self.pos(), 30int,
    {
        self.parse_logical_or_with_context(expected_type)
    }

    fn parse_logical_or_with_context(&mut self, expected_type: Option<DataType>) -> (r: Result<Expression, ParseError>)
        ensures
            final(self).toks() == old(self).toks(),
            old(self).pos() <= final(self).pos() <= final(self).toks().len(),
            r is Ok ==> old(self).pos() < final(self).pos(),
            agrees(r, final(self).pos(), logical_or(old(self).toks(), old(self).pos(), expected_type), expr_model()),
        decreases self.toks().len() - self.pos(), 29int,
    {
        let ghost ts = self.toks();
        let ghost p0 = self.pos();
        let mut left = match self.parse_logical_and_with_context(expected_type) {
            Ok(e) => e,
            Err(e) => return Err(e),
        };
        loop
            invariant
                self.toks() == ts,
                ts == old(self).toks(),
                p0 == old(self).pos(),
                p0 < self.pos() <= ts.len(),
                logical_or(ts, p0, expected_type) == logical_or_rest(ts, self.pos(), expected_type, left@),
            decreases ts.len() - self.pos(),
        {
            if self.peek_is(&Token::Or) {
                self.consume();
                match self.parse_logical_and_with_context(expected_type) {
                    Ok(right) => {
                        left = Expression::LogicalOp { op: LogicalOp::Or, left: Box::new(left), right: Box::new(right) };
                    },
                    Err(e) => return Err(e),
                }
            } else {
                return Ok(left);
            }
        }
    }

    fn parse_logical_and_with_context(&mut self, expected_type: Option<DataType>) -> (r: Result<Expression, ParseError>)
        ensures
            final(self).toks() == old(self).toks(),
            old(self).pos() <= final(self).pos() <= final(self).toks().len(),
            r is Ok ==> old(self).pos() < final(self).pos(),
            agrees(r, final(self).pos(), logical_and(old(self).toks(), old(self).pos(), expected_type), expr_model()),
        decreases self.toks().len() - self.pos(), 27int,
    {
        let ghost ts = self.toks();
        let ghost p0 = self.pos();
        let mut left = match self.parse_comparison_with_context(expected_type) {
            Ok(e) => e,
            Err(e) => return Err(e),
        };
        loop
            invariant
                self.toks() == ts,
                ts == old(self).toks(),
                p0 == old(self).pos(),
                p0 < self.pos() <= ts.len(),
                logical_and(ts, p0, expected_type) == logical_and_rest(ts, self.pos(), expected_type, left@),
            decreases ts.len() - self.pos(),
        {
            if self.peek_is(&Token::And) {
                self.consume();
                match self.parse_comparison_with_context(expected_type) {
                    Ok(right) => {
                        left = Expression::LogicalOp { op: LogicalOp::And, left: Box::new(left), right: Box::new(right) };
                    },
                    Err(e) => return Err(e),
                }
            } else {
                return Ok(left);
            }
        }
    }

    /// The comparison operator that the next token stands for, if any.
    fn peek_comparison_op(&self) -> (r: Option<ComparisonOp>)
        ensures
            r == match tok(self.toks(), self.pos()) {
                Some(t) => comparison_op_of(t),
                None => None,
            },
    {
        proof { use_type_invariant(self); }
        if self.current >= self.tokens.len() {
            return None;
        }
        match &self.tokens[self.current] {
            Token::Equals => Some(ComparisonOp::Equals),
            Token::NotEquals => Some(ComparisonOp::NotEquals),
            Token::LessThan => Some(ComparisonOp::LessThan),
            Token::GreaterThan => Some(ComparisonOp::GreaterThan),
            Token::LessThanEquals => Some(ComparisonOp::LessThanEquals),
            Token::GreaterThanEquals => Some(ComparisonOp::GreaterThanEquals),
            _ => None,
        }
    }

    /// The additive operator that the next token stands for, if any.
    fn peek_additive_op(&self) -> (r: Option<BinaryOp>)
        ensures
            r == match tok(self.toks(), self.pos()) {
                Some(t) => additive_op_of(t),
                None => None,
            },
    {
        proof { use_type_invariant(self); }
        if self.current >= self.tokens.len() {
            return None;
        }
        match &self.tokens[self.current] {
            Token::Plus => Some(BinaryOp::Plus),
            Token::Minus => Some(BinaryOp::Minus),
            _ => None,
        }
    }

    /// The multiplicative operator that the next token stands for, if any.
    fn peek_multiplicative_op(&self) -> (r: Option<BinaryOp>)
        ensures
            r == match tok(self.toks(), self.pos()) {
                Some(t) => multiplicative_op_of(t),
                None => None,
            },
    {
        proof { use_type_invariant(self); }
        if self.current >= self.tokens.len() {
            return None;
        }
        match &self.tokens[self.current] {
            Token::Multiply => Some(BinaryOp::Multiply),
            Token::Divide => Some(BinaryOp::Divide),
            Token::Modulo => Some(BinaryOp::Modulo),
            _ => None,
        }
    }

    /// The prefix operator that the next token stands for, if any.
    fn peek_unary_op(&self) -> (r: Option<UnaryOp>)
        ensures
            r == match tok(self.toks(), self.pos()) {
                Some(t) => unary_op_of(t),
                None => None,
            },
    {
        proof { use_type_invariant(self); }
        if self.current >= self.tokens.len() {
            return None;
        }
        match &self.tokens[self.current] {
            Token::Minus => Some(UnaryOp::Negate),
            Token::Bang => Some(UnaryOp::Not),
            _ => None,
        }
    }

    fn parse_comparison_with_context(&mut self, expected_type: Option<DataType>) -> (r: Result<Expression, ParseError>)
        ensures
            final(self).toks() == old(self).toks(),
            old(self).pos() <= final(self).pos() <= final(self).toks().len(),
            r is Ok ==> old(self).pos() < final(self).pos(),
            agrees(r, final(self).pos(), comparison(old(self).toks(), old(self).pos(), expected_type), expr_model()),
        decreases self.toks().len() - self.pos(), 25int,
    {
        let ghost ts = self.toks();
        let ghost p0 = self.pos();
        let mut left = match self.parse_addition_with_context(expected_type) {
            Ok(e) => e,
            Err(e) => return Err(e),
        };
        loop
            invariant
                self.toks() == ts,
                ts == old(self).toks(),
                p0 == old(self).pos(),
                p0 < self.pos() <= ts.len(),
                comparison(ts, p0, expected_type) == comparison_rest(ts, self.pos(), expected_type, left@),
            decreases ts.len() - self.pos(),
        {
            if let Some(op) = self.peek_comparison_op() {
                self.consume();
                match self.parse_addition_with_context(expected_type) {
                    Ok(right) => {
                        left = Expression::Comparison { op, left: Box::new(left), right: Box::new(right) };
                    },
                    Err(e) => return Err(e),
                }
            } else {
                return Ok(left);
            }
        }
    }

    fn parse_addition_with_context(&mut self, expected_type: Option<DataType>) -> (r: Result<Expression, ParseError>)
        ensures
            final(self).toks() == old(self).toks(),
            old(self).pos() <= final(self).pos() <= final(self).toks().len(),
            r is Ok ==> old(self).pos() < final(self).pos(),
            agrees(r, final(self).pos(), addition(old(self).toks(), old(self).pos(), expected_type), expr_model()),
        decreases self.toks().len() - self.pos(), 23int,
    {
        let ghost ts = self.toks();
        let ghost p0 = self.pos();
        let mut left = match self.parse_multiplication_with_context(expected_type) {
            Ok(e) => e,
            Err(e) => return Err(e),
        };
        loop
            invariant
                self.toks() == ts,
                ts == old(self).toks(),
                p0 == old(self).pos(),
                p0 < self.pos() <= ts.len(),
                addition(ts, p0, expected_type) == addition_rest(ts, self.pos(), expected_type, left@),
            decreases ts.len() - self.pos(),
        {
            if let Some(op) = self.peek_additive_op() {
                self.consume();
                match self.parse_multiplication_with_context(expected_type) {
                    Ok(right) => {
                        left = Expression::BinaryOp { op, left: Box::new(left), right: Box::new(right) };
                    },
                    Err(e) => return Err(e),
                }
            } else {
                return Ok(left);
            }
        }
    }

    fn parse_multiplication_with_context(&mut self, expected_type: Option<DataType>) -> (r: Result<Expression, ParseError>)
        ensures
            final(self).toks() == old(self).toks(),
            old(self).pos() <= final(self).pos() <= final(self).toks().len(),
            r is Ok ==> old(self).pos() < final(self).pos(),
            agrees(r, final(self).pos(), multiplication(old(self).toks(), old(self).pos(), expected_type), expr_model()),
        decreases self.toks().len() - self.pos(), 21int,
    {
        let ghost ts = self.toks();
        let ghost p0 = self.pos();
        let mut left = match self.parse_unary_with_context(expected_type) {
            Ok(e) => e,
            Err(e) => return Err(e),
        };
        loop
            invariant
                self.toks() == ts,
                ts == old(self).toks(),
                p0 == old(self).pos(),
                p0 < self.pos() <= ts.len(),
                multiplication(ts, p0, expected_type) == multiplication_rest(ts, self.pos(), expected_type, left@),
            decreases ts.len() - self.pos(),
        {
            if let Some(op) = self.peek_multiplicative_op() {
                self.consume();
                match self.parse_unary_with_context(expected_type) {
                    Ok(right) => {
                        left = Expression::BinaryOp { op, left: Box::new(left), right: Box::new(right) };
                    },
                    Err(e) => return Err(e),
                }
            } else {
                return Ok(left);
            }
        }
    }

    fn parse_unary_with_context(&mut self, expected_type: Option<DataType>) -> (r: Result<Expression, ParseError>)
        ensures
            final(self).toks() == old(self).toks(),
            old(self).pos() <= final(self).pos() <= final(self).toks().len(),
            r is Ok ==> old(self).pos() < final(self).pos(),
            agrees(r, final(self).pos(), unary(old(self).toks(), old(self).pos(), expected_type), expr_model()),
        decreases self.toks().len() - self.pos(), 19int,
    {
        if let Some(op) = self.peek_unary_op() {
            self.consume();
            let expression = match self.parse_unary_with_context(expected_type) {
                Ok(e) => e,
                Err(e) => return Err(e),
            };
            return Ok(Expression::UnaryOp { op, expression: Box::new(expression) });
        }
        self.parse_primary_with_context(expected_type)
    }

    fn parse_primary_with_context(&mut self, expected_type: Option<DataType>) -> (r: Result<Expression, ParseError>)
        ensures
            final(self).toks() == old(self).toks(),
            old(self).pos() <= final(self).pos() <= final(self).toks().len(),
            r is Ok ==> old(self).pos() < final(self).pos(),
            agrees(r, final(self).pos(), primary(old(self).toks(), old(self).pos(), expected_type), expr_model()),
        decreases self.toks().len() - self.pos(), 18int,
    {
        match self.consume() {
            Some(Token::False) => Ok(Expression::LiteralBool(false)),
            Some(Token::True) => Ok(Expression::LiteralBool(true)),
            Some(Token::LiteralChar(val)) => Ok(Expression::LiteralChar(val)),
            Some(Token::LiteralString(val)) => Ok(Expression::LiteralString(val)),
            Some(Token::LiteralNumber(num_str)) => self.parse_number_literal(&num_str, expected_type),
            Some(Token::Identifier(name)) => {
                if self.peek_is(&Token::OpenParen) {
                    self.current = self.current - 1;
                    self.parse_function_call_expression()
                } else {
                    Ok(Expression::Variable(name))
                }
            },
            Some(Token::OpenParen) => {
                let expression = match self.parse_expression_with_context(expected_type) {
                    Ok(e) => e,
                    Err(e) => return Err(e),
                };
                match self.expect(Token::CloseParen) {
                    Ok(()) => Ok(expression),
                    Err(e) => Err(e),
                }
            },
            other => Err(ParseError::UnexpectedTokenInExpression(other)),
        }
    }

    fn parse_function_call_expression(&mut self) -> (r: Result<Expression, ParseError>)
        ensures
            final(self).toks() == old(self).toks(),
            old(self).pos() <= final(self).pos() <= final(self).toks().len(),
            r is Ok ==> old(self).pos() < final(self).pos(),
            agrees(r, final(self).pos(), call(old(self).toks(), old(self).pos()), expr_model()),
        decreases self.toks().len() - self.pos(), 17int,
    {
        let ghost ts = self.toks();
        let ghost p0 = self.pos();
        let name = match self.consume() {
            Some(Token::Identifier(name)) => name,
            other => return Err(ParseError::ExpectedFunctionName(other)),
        };
        match self.expect(Token::OpenParen) {
            Ok(()) => {},
            Err(e) => return Err(e),
        }
        let arguments = if !self.peek_is(&Token::CloseParen) {
            match self.parse_arguments() {
                Ok(a) => a,
                Err(e) => return Err(e),
            }
        } else {
            let a: Vec<Expression> = Vec::new();
            assert(expressions_view(a@) =~= Seq::<SpecExpression>::empty());
            a
        };
        match self.expect(Token::CloseParen) {
            Ok(()) => {},
            Err(e) => return Err(e),
        }
        let ghost name_view = name@;
        let ghost args = arguments@;
        let r = Expression::FunctionCall { name, arguments };
        assert(r@->arguments =~= expressions_view(args));
        assert(r@ == SpecExpression::FunctionCall { name: name_view, arguments: expressions_view(args) });
        Ok(r)
    }

    /// The arguments of a call: `expression ( ',' expression )*`.
    fn parse_arguments(&mut self) -> (r: Result<Vec<Expression>, ParseError>)
        ensures
            final(self).toks() == old(self).toks(),
            old(self).pos() <= final(self).pos() <= final(self).toks().len(),
            agrees(
                r,
                final(self).pos(),
                crate::grammar::arguments(old(self).toks(), old(self).pos(), Seq::empty()),
                |a: Vec<Expression>| expressions_view(a@),
            ),
        decreases self.toks().len() - self.pos(), 32int,
    {
        proof { use_type_invariant(&*self); }
        let ghost ts = self.toks();
        let ghost p0 = self.pos();
        let mut arguments: Vec<Expression> = Vec::new();
        assert(expressions_view(arguments@) =~= Seq::<SpecExpression>::empty());
        loop
            invariant_except_break
                self.toks() == ts,
                ts == old(self).toks(),
                p0 == old(self).pos(),
                p0 <= self.pos() <= ts.len(),
                crate::grammar::arguments(ts, p0, Seq::empty())
                    == crate::grammar::arguments(ts, self.pos(), expressions_view(arguments@)),
            ensures
                self.toks() == ts,
                p0 <= self.pos() <= ts.len(),
                crate::grammar::arguments(ts, p0, Seq::empty())
                    == Ok::<(Seq<SpecExpression>, int), (SpecParseError, int)>((expressions_view(arguments@), self.pos())),
            decreases ts.len() - self.pos(),
        {
            let ghost before = arguments@;
            match self.parse_expression() {
                Ok(e) => arguments.push(e),
                Err(e) => return Err(e),
            }
            assert(expressions_view(arguments@) =~= expressions_view(before).push(arguments@.last()@));
            if self.peek_is(&Token::Comma) {
                self.consume();
            } else {
                break;
            }
        }
        Ok(arguments)
    }
}

/// The model of a statement list, as a function value.
pub open spec fn statements_model() -> spec_fn(Vec<Statement>) -> Seq<SpecStatement> {
    |v: Vec<Statement>| statements_view(v@)
}

/// The model of a statement, as a function value.
pub open spec fn statement_model() -> spec_fn(Statement) -> SpecStatement {
    |s: Statement| s@
}

/// The models of a list of `elif` branches.
pub open spec fn branches_view(bs: Seq<(Expression, Vec<Statement>)>) -> Seq<(SpecExpression, Seq<SpecStatement>)> {
    bs.map_values(|b: (Expression, Vec<Statement>)| (b.0@, statements_view(b.1@)))
}

/// The model of a condition with the statements it guards, as a function value.
pub open spec fn branch_model() -> spec_fn((Expression, Vec<Statement>)) -> (SpecExpression, Seq<SpecStatement>) {
    |b: (Expression, Vec<Statement>)| (b.0@, statements_view(b.1@))
}

/// Whether a token names a data type (and so starts a declaration).
fn is_type_keyword(t: &Token) -> (r: bool)
    ensures
        r == (data_type_of(t@) is Some),
{
    match t {
        Token::Bool | Token::U8 | Token::I8 | Token::U16 | Token::I16 | Token::F16 | Token::U32
        | Token::I32 | Token::F32 | Token::U64 | Token::I64 | Token::F64 | Token::Char
        | Token::String => true,
        _ => false,
    }
}

impl Parser {
    /// A data type: one type keyword.
    fn parse_data_type(&mut self) -> (r: Result<DataType, ParseError>)
        ensures
            final(self).toks() == old(self).toks(),
            old(self).pos() <= final(self).pos() <= final(self).toks().len(),
            r is Ok ==> final(self).pos() == old(self).pos() + 1,
            agrees(r, final(self).pos(), data_type(old(self).toks(), old(self).pos()), |d: DataType| d),
    {
        match self.consume() {
            Some(Token::Bool) => Ok(DataType::Bool),
            Some(Token::U8) => Ok(DataType::U8),
            Some(Token::I8) => Ok(DataType::I8),
            Some(Token::U16) => Ok(DataType::U16),
            Some(Token::I16) => Ok(DataType::I16),
            Some(Token::F16) => Ok(DataType::F16),
            Some(Token::U32) => Ok(DataType::U32),
            Some(Token::I32) => Ok(DataType::I32),
            Some(Token::F32) => Ok(DataType::F32),
            Some(Token::U64) => Ok(DataType::U64),
            Some(Token::I64) => Ok(DataType::I64),
            Some(Token::F64) => Ok(DataType::F64),
            Some(Token::Char) => Ok(DataType::Char),
            Some(Token::String) => Ok(DataType::String),
            Some(other) => Err(ParseError::InvalidDataType(other)),
            None => Err(ParseError::ExpectedDataType),
        }
    }

    /// Statements up to a `}` or `EOF`, which is not taken.
    fn parse_block(&mut self) -> (r: Result<Vec<Statement>, ParseError>)
        ensures
            final(self).toks() == old(self).toks(),
            old(self).pos() <= final(self).pos() <= final(self).toks().len(),
            agrees(r, final(self).pos(), block(old(self).toks(), old(self).pos(), Seq::empty()), statements_model()),
        decreases self.toks().len() - self.pos(), 5int,
    {
        proof { use_type_invariant(&*self); }
        let ghost ts = self.toks();
        let ghost p0 = self.pos();
        let mut statements: Vec<Statement> = Vec::new();
        assert(statements_view(statements@) =~= Seq::<SpecStatement>::empty());
        while !self.peek_is(&Token::CloseBrace) && !self.peek_is(&Token::EOF)
            invariant
                self.toks() == ts,
                ts == old(self).toks(),
                p0 == old(self).pos(),
                p0 <= self.pos() <= ts.len(),
                block(ts, p0, Seq::empty()) == block(ts, self.pos(), statements_view(statements@)),
            decreases ts.len() - self.pos(),
        {
            let ghost before = statements@;
            match self.parse_statement() {
                Ok(s) => statements.push(s),
                Err(e) => return Err(e),
            }
            assert(statements_view(statements@) =~= statements_view(before).push(statements@.last()@));
        }
        Ok(statements)
    }

    /// A statement, chosen by its first token (and, after an identifier, by
    /// the token after that).
    fn parse_statement(&mut self) -> (r: Result<Statement, ParseError>)
        ensures
            final(self).toks() == old(self).toks(),
            old(self).pos() <= final(self).pos() <= final(self).toks().len(),
            r is Ok ==> old(self).pos() < final(self).pos(),
            agrees(r, final(self).pos(), statement(old(self).toks(), old(self).pos()), statement_model()),
        decreases self.toks().len() - self.pos(), 4int,
    {
        proof { use_type_invariant(&*self); }
        let token = match self.peek() {
            Some(t) => t,
            None => return Err(ParseError::ExpectedStatement(None)),
        };
        if is_type_keyword(&token) {
            return self.parse_declaration();
        }
        match token {
            Token::If => self.parse_if_statement(),
            Token::For => self.parse_for_statement(),
            Token::While => self.parse_while_statement(),
            Token::Return => self.parse_return_statement(),
            Token::Identifier(name) => {
                let next_token = if self.current + 1 < self.tokens.len() {
                    Some(self.tokens[self.current + 1].duplicate())
                } else {
                    None
                };
                match next_token {
                    Some(Token::Assign) => self.parse_assignment(),
                    Some(Token::Increment) => {
                        self.consume();
                        self.consume();
                        Ok(Statement::Increment { variable_name: name })
                    },
                    Some(Token::Decrement) => {
                        self.consume();
                        self.consume();
                        Ok(Statement::Decrement { variable_name: name })
                    },
                    Some(Token::OpenParen) => self.parse_function_call_statement(),
                    other => Err(ParseError::UnexpectedTokenAfterIdentifier(other)),
                }
            },
            other => Err(ParseError::ExpectedStatement(Some(other))),
        }
    }

    /// `type name '=' expression`, where number literals take the declared
    /// type.
    fn parse_declaration(&mut self) -> (r: Result<Statement, ParseError>)
        ensures
            final(self).toks() == old(self).toks(),
            old(self).pos() <= final(self).pos() <= final(self).toks().len(),
            r is Ok ==> old(self).pos() < final(self).pos(),
            agrees(r, final(self).pos(), declaration(old(self).toks(), old(self).pos()), statement_model()),
    {
        let data_type = match self.parse_data_type() {
            Ok(d) => d,
            Err(e) => return Err(e),
        };
        let variable_name = match self.consume() {
            Some(Token::Identifier(name)) => name,
            other => return Err(ParseError::ExpectedVariableName(other)),
        };
        match self.expect(Token::Assign) {
            Ok(()) => {},
            Err(e) => return Err(e),
        }
        let expression = match self.parse_expression_with_context(Some(data_type)) {
            Ok(e) => e,
            Err(e) => return Err(e),
        };
        Ok(Statement::Declaration { data_type, variable_name, expression })
    }

    /// `name '=' expression`.
    fn parse_assignment(&mut self) -> (r: Result<Statement, ParseError>)
        ensures
            final(self).toks() == old(self).toks(),
            old(self).pos() <= final(self).pos() <= final(self).toks().len(),
            r is Ok ==> old(self).pos() < final(self).pos(),
            agrees(r, final(self).pos(), assignment(old(self).toks(), old(self).pos()), statement_model()),
    {
        let variable_name = match self.consume() {
            Some(Token::Identifier(name)) => name,
            other => return Err(ParseError::ExpectedVariableName(other)),
        };
        match self.expect(Token::Assign) {
            Ok(()) => {},
            Err(e) => return Err(e),
        }
        let expression = match self.parse_expression() {
            Ok(e) => e,
            Err(e) => return Err(e),
        };
        Ok(Statement::Assignment { variable_name, expression })
    }

    /// `'(' expression ')' '{' block '}'`: a condition and the statements it
    /// guards.
    fn parse_guarded_block(&mut self) -> (r: Result<(Expression, Vec<Statement>), ParseError>)
        ensures
            final(self).toks() == old(self).toks(),
            old(self).pos() <= final(self).pos() <= final(self).toks().len(),
            r is Ok ==> old(self).pos() < final(self).pos(),
            agrees(r, final(self).pos(), guarded_block(old(self).toks(), old(self).pos()), branch_model()),
        decreases self.toks().len() - self.pos(), 2int,
    {
        match self.expect(Token::OpenParen) {
            Ok(()) => {},
            Err(e) => return Err(e),
        }
        let condition = match self.parse_expression() {
            Ok(e) => e,
            Err(e) => return Err(e),
        };
        match self.expect(Token::CloseParen) {
            Ok(()) => {},
            Err(e) => return Err(e),
        }
        match self.expect(Token::OpenBrace) {
            Ok(()) => {},
            Err(e) => return Err(e),
        }
        let body = match self.parse_block() {
            Ok(b) => b,
            Err(e) => return Err(e),
        };
        match self.expect(Token::CloseBrace) {
            Ok(()) => {},
            Err(e) => return Err(e),
        }
        Ok((condition, body))
    }

    /// `'{' block '}'`.
    fn parse_braced_block(&mut self) -> (r: Result<Vec<Statement>, ParseError>)
        ensures
            final(self).toks() == old(self).toks(),
            old(self).pos() <= final(self).pos() <= final(self).toks().len(),
            r is Ok ==> old(self).pos() < final(self).pos(),
            agrees(r, final(self).pos(), braced_block(old(self).toks(), old(self).pos()), statements_model()),
        decreases self.toks().len() - self.pos(), 2int,
    {
        match self.expect(Token::OpenBrace) {
            Ok(()) => {},
            Err(e) => return Err(e),
        }
        let body = match self.parse_block() {
            Ok(b) => b,
            Err(e) => return Err(e),
        };
        match self.expect(Token::CloseBrace) {
            Ok(()) => {},
            Err(e) => return Err(e),
        }
        Ok(body)
    }
}

impl Parser {
    /// `'if' guarded_block ( 'elif' guarded_block )* ( 'else' braced_block )?`.
    fn parse_if_statement(&mut self) -> (r: Result<Statement, ParseError>)
        ensures
            final(self).toks() == old(self).toks(),
            old(self).pos() <= final(self).pos() <= final(self).toks().len(),
            r is Ok ==> old(self).pos() < final(self).pos(),
            agrees(r, final(self).pos(), if_statement(old(self).toks(), old(self).pos()), statement_model()),
        decreases self.toks().len() - self.pos(), 3int,
    {
        let ghost ts = self.toks();
        let ghost p0 = self.pos();
        match self.expect(Token::If) {
            Ok(()) => {},
            Err(e) => return Err(e),
        }
        let (condition, then_branch) = match self.parse_guarded_block() {
            Ok(b) => b,
            Err(e) => return Err(e),
        };
        let ghost p2 = self.pos();
        let ghost first = (condition@, statements_view(then_branch@));
        assert(if_statement(ts, p0) == if_branches(ts, first, p2));
        let mut elif_branches: Vec<(Expression, Vec<Statement>)> = Vec::new();
        assert(branches_view(elif_branches@) =~= Seq::<(SpecExpression, Seq<SpecStatement>)>::empty());
        while self.peek_is(&Token::Elif)
            invariant
                self.toks() == ts,
                ts == old(self).toks(),
                p0 == old(self).pos(),
                p0 < p2 <= self.pos() <= ts.len(),
                if_statement(ts, p0) == if_branches(ts, first, p2),
                crate::grammar::elif_branches(ts, p2, Seq::empty())
                    == crate::grammar::elif_branches(ts, self.pos(), branches_view(elif_branches@)),
            decreases ts.len() - self.pos(),
        {
            self.consume();
            let ghost before = elif_branches@;
            match self.parse_guarded_block() {
                Ok(b) => elif_branches.push(b),
                Err(e) => return Err(e),
            }
            assert(branches_view(elif_branches@) =~= branches_view(before).push(branch_model()(elif_branches@.last())));
        }
        let ghost p3 = self.pos();
        let else_branch = if self.peek_is(&Token::Else) {
            self.consume();
            match self.parse_braced_block() {
                Ok(b) => Some(b),
                Err(e) => return Err(e),
            }
        } else {
            None
        };
        let ghost c = condition@;
        let ghost tb = statements_view(then_branch@);
        let ghost eb = branches_view(elif_branches@);
        let ghost els = match &else_branch {
            Some(b) => Some(statements_view(b@)),
            None => None,
        };
        let r = Statement::If { condition, then_branch, elif_branches, else_branch };
        assert(r@->elif_branches =~= eb);
        assert(r@ == SpecStatement::If { condition: c, then_branch: tb, elif_branches: eb, else_branch: els });
        Ok(r)
    }

    /// `'while' guarded_block`.
    fn parse_while_statement(&mut self) -> (r: Result<Statement, ParseError>)
        ensures
            final(self).toks() == old(self).toks(),
            old(self).pos() <= final(self).pos() <= final(self).toks().len(),
            r is Ok ==> old(self).pos() < final(self).pos(),
            agrees(r, final(self).pos(), while_statement(old(self).toks(), old(self).pos()), statement_model()),
        decreases self.toks().len() - self.pos(), 3int,
    {
        match self.expect(Token::While) {
            Ok(()) => {},
            Err(e) => return Err(e),
        }
        let (condition, body) = match self.parse_guarded_block() {
            Ok(b) => b,
            Err(e) => return Err(e),
        };
        Ok(Statement::While { condition, body })
    }

    /// `'for' '(' statement expression statement ')' braced_block`.
    #[verifier::spinoff_prover]
    fn parse_for_statement(&mut self) -> (r: Result<Statement, ParseError>)
        ensures
            final(self).toks() == old(self).toks(),
            old(self).pos() <= final(self).pos() <= final(self).toks().len(),
            r is Ok ==> old(self).pos() < final(self).pos(),
            agrees(r, final(self).pos(), for_statement(old(self).toks(), old(self).pos()), statement_model()),
        decreases self.toks().len() - self.pos(), 3int,
    {
        let ghost ts = self.toks();
        let ghost p0 = self.pos();
        match self.expect(Token::For) {
            Ok(()) => {},
            Err(e) => return Err(e),
        }
        match self.expect(Token::OpenParen) {
            Ok(()) => {},
            Err(e) => return Err(e),
        }
        let initialization = match self.parse_statement() {
            Ok(s) => s,
            Err(e) => return Err(e),
        };
        assert(for_statement(ts, p0) == for_rest(ts, initialization@, self.pos()));
        self.parse_for_rest(initialization)
    }

    /// What follows the initialization of a `for` statement:
    /// `expression statement ')' braced_block`.
    #[verifier::spinoff_prover]
    fn parse_for_rest(&mut self, initialization: Statement) -> (r: Result<Statement, ParseError>)
        ensures
            final(self).toks() == old(self).toks(),
            old(self).pos() <= final(self).pos() <= final(self).toks().len(),
            agrees(r, final(self).pos(), for_rest(old(self).toks(), initialization@, old(self).pos()), statement_model()),
        decreases self.toks().len() - self.pos(), 33int,
    {
        let condition = match self.parse_expression() {
            Ok(e) => e,
            Err(e) => return Err(e),
        };
        let increment = match self.parse_statement() {
            Ok(s) => s,
            Err(e) => return Err(e),
        };
        match self.expect(Token::CloseParen) {
            Ok(()) => {},
            Err(e) => return Err(e),
        }
        let body = match self.parse_braced_block() {
            Ok(b) => b,
            Err(e) => return Err(e),
        };
        Ok(Statement::For {
            initialization: Box::new(initialization),
            condition,
            increment: Box::new(increment),
            body,
        })
    }

    /// `'return' '(' expression ')'`.
    fn parse_return_statement(&mut self) -> (r: Result<Statement, ParseError>)
        ensures
            final(self).toks() == old(self).toks(),
            old(self).pos() <= final(self).pos() <= final(self).toks().len(),
            r is Ok ==> old(self).pos() < final(self).pos(),
            agrees(r, final(self).pos(), return_statement(old(self).toks(), old(self).pos()), statement_model()),
    {
        match self.expect(Token::Return) {
            Ok(()) => {},
            Err(e) => return Err(e),
        }
        match self.expect(Token::OpenParen) {
            Ok(()) => {},
            Err(e) => return Err(e),
        }
        let expression = match self.parse_expression() {
            Ok(e) => e,
            Err(e) => return Err(e),
        };
        match self.expect(Token::CloseParen) {
            Ok(()) => {},
            Err(e) => return Err(e),
        }
        Ok(Statement::Return { expression })
    }

    /// `name '(' arguments? ')'` as a statement.
    fn parse_function_call_statement(&mut self) -> (r: Result<Statement, ParseError>)
        ensures
            final(self).toks() == old(self).toks(),
            old(self).pos() <= final(self).pos() <= final(self).toks().len(),
            r is Ok ==> old(self).pos() < final(self).pos(),
            agrees(r, final(self).pos(), call_statement(old(self).toks(), old(self).pos()), statement_model()),
    {
        let name = match self.consume() {
            Some(Token::Identifier(name)) => name,
            other => return Err(ParseError::ExpectedFunctionName(other)),
        };
        match self.expect(Token::OpenParen) {
            Ok(()) => {},
            Err(e) => return Err(e),
        }
        let arguments = if !self.peek_is(&Token::CloseParen) {
            match self.parse_arguments() {
                Ok(a) => a,
                Err(e) => return Err(e),
            }
        } else {
            let a: Vec<Expression> = Vec::new();
            assert(expressions_view(a@) =~= Seq::<SpecExpression>::empty());
            a
        };
        match self.expect(Token::CloseParen) {
            Ok(()) => {},
            Err(e) => return Err(e),
        }
        Ok(Statement::FunctionCall { name, arguments })
    }

    /// `type name ( ',' type name )*`.
    fn parse_parameters(&mut self) -> (r: Result<Vec<(DataType, String)>, ParseError>)
        ensures
            final(self).toks() == old(self).toks(),
            old(self).pos() <= final(self).pos() <= final(self).toks().len(),
            agrees(
                r,
                final(self).pos(),
                parameters(old(self).toks(), old(self).pos(), Seq::empty()),
                |ps: Vec<(DataType, String)>| parameters_view(ps@),
            ),
    {
        proof { use_type_invariant(&*self); }
        let ghost ts = self.toks();
        let ghost p0 = self.pos();
        let mut parameters: Vec<(DataType, String)> = Vec::new();
        assert(parameters_view(parameters@) =~= Seq::<(DataType, Seq<char>)>::empty());
        loop
            invariant_except_break
                self.toks() == ts,
                ts == old(self).toks(),
                p0 == old(self).pos(),
                p0 <= self.pos() <= ts.len(),
                crate::grammar::parameters(ts, p0, Seq::empty())
                    == crate::grammar::parameters(ts, self.pos(), parameters_view(parameters@)),
            ensures
                self.toks() == ts,
                p0 <= self.pos() <= ts.len(),
                crate::grammar::parameters(ts, p0, Seq::empty())
                    == Ok::<(Seq<(DataType, Seq<char>)>, int), (SpecParseError, int)>((parameters_view(parameters@), self.pos())),
            decreases ts.len() - self.pos(),
        {
            let data_type = match self.parse_data_type() {
                Ok(d) => d,
                Err(e) => return Err(e),
            };
            let variable_name = match self.consume() {
                Some(Token::Identifier(name)) => name,
                other => return Err(ParseError::ExpectedParameterName(other)),
            };
            let ghost before = parameters@;
            parameters.push((data_type, variable_name));
            assert(parameters_view(parameters@) =~= parameters_view(before).push((data_type, parameters@.last().1@)));
            if self.peek_is(&Token::Comma) {
                self.consume();
            } else {
                break;
            }
        }
        Ok(parameters)
    }

    /// `'fn' name '(' parameters? ')' ( '->' type )? '{' block '}'`.
    fn parse_function_declaration(&mut self) -> (r: Result<FunctionDeclaration, ParseError>)
        ensures
            final(self).toks() == old(self).toks(),
            old(self).pos() <= final(self).pos() <= final(self).toks().len(),
            r is Ok ==> old(self).pos() < final(self).pos(),
            agrees(r, final(self).pos(), function_declaration(old(self).toks(), old(self).pos()), |f: FunctionDeclaration| f@),
    {
        match self.expect(Token::Fn) {
            Ok(()) => {},
            Err(e) => return Err(e),
        }
        let name = match self.consume() {
            Some(Token::Identifier(name)) => name,
            other => return Err(ParseError::ExpectedFunctionName(other)),
        };
        match self.expect(Token::OpenParen) {
            Ok(()) => {},
            Err(e) => return Err(e),
        }
        let parameters = if !self.peek_is(&Token::CloseParen) {
            match self.parse_parameters() {
                Ok(ps) => ps,
                Err(e) => return Err(e),
            }
        } else {
            let ps: Vec<(DataType, String)> = Vec::new();
            assert(parameters_view(ps@) =~= Seq::<(DataType, Seq<char>)>::empty());
            ps
        };
        match self.expect(Token::CloseParen) {
            Ok(()) => {},
            Err(e) => return Err(e),
        }
        let return_type = if self.peek_is(&Token::Arrow) {
            self.consume();
            match self.parse_data_type() {
                Ok(d) => Some(d),
                Err(e) => return Err(e),
            }
        } else {
            None
        };
        let body = match self.parse_braced_block() {
            Ok(b) => b,
            Err(e) => return Err(e),
        };
        Ok(FunctionDeclaration { name, parameters, return_type, body })
    }

    /// Parses the program that the remaining tokens hold: function
    /// declarations up to the end of the tokens or an `EOF` token.
    pub fn parse(&mut self) -> (r: Result<Vec<TopLevel>, ParseError>)
        ensures
            final(self).toks() == old(self).toks(),
            old(self).pos() <= final(self).pos() <= final(self).toks().len(),
            agrees(
                r,
                final(self).pos(),
                program(old(self).toks(), old(self).pos(), Seq::empty()),
                |ts: Vec<TopLevel>| top_levels_view(ts@),
            ),
    {
        proof { use_type_invariant(&*self); }
        let ghost ts = self.toks();
        let ghost p0 = self.pos();
        let mut top_levels: Vec<TopLevel> = Vec::new();
        assert(top_levels_view(top_levels@) =~= Seq::<SpecTopLevel>::empty());
        while self.current < self.tokens.len() && !self.peek_is(&Token::EOF)
            invariant
                self.toks() == ts,
                ts == old(self).toks(),
                p0 == old(self).pos(),
                p0 <= self.pos() <= ts.len(),
                program(ts, p0, Seq::empty()) == program(ts, self.pos(), top_levels_view(top_levels@)),
            decreases ts.len() - self.pos(),
        {
            proof { use_type_invariant(&*self); }
            if self.peek_is(&Token::Fn) {
                let ghost before = top_levels@;
                match self.parse_function_declaration() {
                    Ok(f) => top_levels.push(TopLevel::Function(f)),
                    Err(e) => return Err(e),
                }
                assert(top_levels_view(top_levels@) =~= top_levels_view(before).push(top_levels@.last()@));
            } else {
                return Err(ParseError::ExpectedTopLevel(self.peek()));
            }
        }
        Ok(top_levels)
    }
}

} // verus!

//! The model of the parser: the language's grammar read as functions from a
//! token sequence and a position to what is parsed there and the position
//! after it, or to the error met and the position where parsing stopped.
//!
//! Each function follows the parser's own decisions token by token, with one
//! addition: where it goes on from a position that an earlier part of the
//! parse returned, it first checks that this position lies ahead, as every
//! parse does (each parsing method of [`crate::parser::Parser`] ensures
//! that it stops inside the input and not before where it started); this
//! keeps the definitions well founded.

use vstd::prelude::*;

use crate::ast::{
    BinaryOp, ComparisonOp, DataType, LogicalOp, SpecExpression, SpecFunctionDeclaration,
    SpecStatement, SpecTopLevel, UnaryOp,
};
use crate::numbers::{float_text_ok, integer_in_range};
use crate::token::SpecToken;

verus! {

/// The model of a parse error.
pub enum SpecParseError {
    Expected { expected: SpecToken, found: SpecToken },
    ExpectedButEof { expected: SpecToken },
    InvalidFloatLiteral(Seq<char>),
    InvalidIntegerLiteral(Seq<char>),
    InvalidBoolLiteral(Seq<char>),
    InvalidLiteral { data_type: DataType, text: Seq<char> },
    UnsupportedLiteralType(DataType),
    ExpectedTopLevel(Option<SpecToken>),
    ExpectedFunctionName(Option<SpecToken>),
    ExpectedParameterName(Option<SpecToken>),
    InvalidDataType(SpecToken),
    ExpectedDataType,
    ExpectedVariableName(Option<SpecToken>),
    UnexpectedTokenAfterIdentifier(Option<SpecToken>),
    ExpectedStatement(Option<SpecToken>),
    UnexpectedTokenInExpression(Option<SpecToken>),
}

/// What parsing something yields: the thing and the position after it, or
/// the error and the position where parsing stopped.
pub type Parsed<T> = Result<(T, int), (SpecParseError, int)>;

/// The token at position `p`, if there is one.
pub open spec fn tok(ts: Seq<SpecToken>, p: int) -> Option<SpecToken> {
    if 0 <= p < ts.len() {
        Some(ts[p])
    } else {
        None
    }
}

/// The position after taking the token at `p`, if there is one.
pub open spec fn past(ts: Seq<SpecToken>, p: int) -> int {
    if 0 <= p < ts.len() {
        p + 1
    } else {
        p
    }
}

/// `p <= q <= ts.len()`: a parse that started at `p` stopped at `q`.
pub open spec fn ahead(ts: Seq<SpecToken>, p: int, q: int) -> bool {
    p <= q <= ts.len()
}

/// Takes the token at `p`, which must be `expected`.
pub open spec fn expect(ts: Seq<SpecToken>, p: int, expected: SpecToken) -> Result<int, (SpecParseError, int)> {
    match tok(ts, p) {
        Some(t) => if t == expected {
            Ok(p + 1)
        } else {
            Err((SpecParseError::Expected { expected, found: t }, p + 1))
        },
        None => Err((SpecParseError::ExpectedButEof { expected }, p)),
    }
}

/// The data type that a type keyword names.
pub open spec fn data_type_of(t: SpecToken) -> Option<DataType> {
    match t {
        SpecToken::Bool => Some(DataType::Bool),
        SpecToken::U8 => Some(DataType::U8),
        SpecToken::I8 => Some(DataType::I8),
        SpecToken::U16 => Some(DataType::U16),
        SpecToken::I16 => Some(DataType::I16),
        SpecToken::F16 => Some(DataType::F16),
        SpecToken::U32 => Some(DataType::U32),
        SpecToken::I32 => Some(DataType::I32),
        SpecToken::F32 => Some(DataType::F32),
        SpecToken::U64 => Some(DataType::U64),
        SpecToken::I64 => Some(DataType::I64),
        SpecToken::F64 => Some(DataType::F64),
        SpecToken::Char => Some(DataType::Char),
        SpecToken::String => Some(DataType::String),
        _ => None,
    }
}

/// A data type: one type keyword.
pub open spec fn data_type(ts: Seq<SpecToken>, p: int) -> Parsed<DataType> {
    match tok(ts, p) {
        Some(t) => match data_type_of(t) {
            Some(d) => Ok((d, p + 1)),
            None => Err((SpecParseError::InvalidDataType(t), p + 1)),
        },
        None => Err((SpecParseError::ExpectedDataType, p)),
    }
}

/// The literal that the number text `text` denotes as a value of type `d`.
pub open spec fn number_with_type(text: Seq<char>, d: DataType) -> Result<SpecExpression, SpecParseError> {
    let invalid = SpecParseError::InvalidLiteral { data_type: d, text };
    match d {
        DataType::Bool => if text == seq!['0'] {
            Ok(SpecExpression::LiteralBool(false))
        } else if text == seq!['1'] {
            Ok(SpecExpression::LiteralBool(true))
        } else {
            Err(SpecParseError::InvalidBoolLiteral(text))
        },
        DataType::U8 => match integer_in_range(text, false, 0, 0xff) {
            Some(v) => Ok(SpecExpression::LiteralU8(v as u8)),
            None => Err(invalid),
        },
        DataType::I8 => match integer_in_range(text, true, -0x80, 0x7f) {
            Some(v) => Ok(SpecExpression::LiteralI8(v as i8)),
            None => Err(invalid),
        },
        DataType::U16 => match integer_in_range(text, false, 0, 0xffff) {
            Some(v) => Ok(SpecExpression::LiteralU16(v as u16)),
            None => Err(invalid),
        },
        DataType::I16 => match integer_in_range(text, true, -0x8000, 0x7fff) {
            Some(v) => Ok(SpecExpression::LiteralI16(v as i16)),
            None => Err(invalid),
        },
        DataType::U32 => match integer_in_range(text, false, 0, 0xffff_ffff) {
            Some(v) => Ok(SpecExpression::LiteralU32(v as u32)),
            None => Err(invalid),
        },
        DataType::I32 => match integer_in_range(text, true, -0x8000_0000, 0x7fff_ffff) {
            Some(v) => Ok(SpecExpression::LiteralI32(v as i32)),
            None => Err(invalid),
        },
        DataType::U64 => match integer_in_range(text, false, 0, 0xffff_ffff_ffff_ffff) {
            Some(v) => Ok(SpecExpression::LiteralU64(v as u64)),
            None => Err(invalid),
        },
        DataType::I64 => match integer_in_range(text, true, -0x8000_0000_0000_0000, 0x7fff_ffff_ffff_ffff) {
            Some(v) => Ok(SpecExpression::LiteralI64(v as i64)),
            None => Err(invalid),
        },
        DataType::F16 => if float_text_ok(text) { Ok(SpecExpression::LiteralF16(text)) } else { Err(invalid) },
        DataType::F32 => if float_text_ok(text) { Ok(SpecExpression::LiteralF32(text)) } else { Err(invalid) },
        DataType::F64 => if float_text_ok(text) { Ok(SpecExpression::LiteralF64(text)) } else { Err(invalid) },
        DataType::Char => Err(SpecParseError::UnsupportedLiteralType(d)),
        DataType::String => Err(SpecParseError::UnsupportedLiteralType(d)),
    }
}

/// The literal that the number text `text` denotes: of the expected type
/// when one is known; else an `f64` when it holds a `.`, else the first of
/// `i32` and `i64` that holds its value.
pub open spec fn number_literal(text: Seq<char>, expected: Option<DataType>) -> Result<SpecExpression, SpecParseError> {
    match expected {
        Some(d) => number_with_type(text, d),
        None => if text.contains('.') {
            if float_text_ok(text) {
                Ok(SpecExpression::LiteralF64(text))
            } else {
                Err(SpecParseError::InvalidFloatLiteral(text))
            }
        } else {
            match integer_in_range(text, true, -0x8000_0000, 0x7fff_ffff) {
                Some(v) => Ok(SpecExpression::LiteralI32(v as i32)),
                None => match integer_in_range(text, true, -0x8000_0000_0000_0000, 0x7fff_ffff_ffff_ffff) {
                    Some(v) => Ok(SpecExpression::LiteralI64(v as i64)),
                    None => Err(SpecParseError::InvalidIntegerLiteral(text)),
                },
            }
        },
    }
}

/// The comparison operator that a token stands for.
pub open spec fn comparison_op_of(t: SpecToken) -> Option<ComparisonOp> {
    match t {
        SpecToken::Equals => Some(ComparisonOp::Equals),
        SpecToken::NotEquals => Some(ComparisonOp::NotEquals),
        SpecToken::LessThan => Some(ComparisonOp::LessThan),
        SpecToken::GreaterThan => Some(ComparisonOp::GreaterThan),
        SpecToken::LessThanEquals => Some(ComparisonOp::LessThanEquals),
        SpecToken::GreaterThanEquals => Some(ComparisonOp::GreaterThanEquals),
        _ => None,
    }
}

/// The additive operator that a token stands for.
pub open spec fn additive_op_of(t: SpecToken) -> Option<BinaryOp> {
    match t {
        SpecToken::Plus => Some(BinaryOp::Plus),
        SpecToken::Minus => Some(BinaryOp::Minus),
        _ => None,
    }
}

/// The multiplicative operator that a token stands for.
pub open spec fn multiplicative_op_of(t: SpecToken) -> Option<BinaryOp> {
    match t {
        SpecToken::Multiply => Some(BinaryOp::Multiply),
        SpecToken::Divide => Some(BinaryOp::Divide),
        SpecToken::Modulo => Some(BinaryOp::Modulo),
        _ => None,
    }
}

/// The prefix operator that a token stands for.
pub open spec fn unary_op_of(t: SpecToken) -> Option<UnaryOp> {
    match t {
        SpecToken::Minus => Some(UnaryOp::Negate),
        SpecToken::Bang => Some(UnaryOp::Not),
        _ => None,
    }
}

/// An expression, where number literals take the expected type if one is
/// given.
pub open spec fn expression(ts: Seq<SpecToken>, p: int, expected: Option<DataType>) -> Parsed<SpecExpression>
    decreases ts.len() - p, 30int,
{
    logical_or(ts, p, expected)
}

/// `and_expr ( '||' and_expr )*`, grouped to the left.
pub open spec fn logical_or(ts: Seq<SpecToken>, p: int, expected: Option<DataType>) -> Parsed<SpecExpression>
    decreases ts.len() - p, 29int,
{
    match logical_and(ts, p, expected) {
        Ok((left, q)) => if p < q <= ts.len() { logical_or_rest(ts, q, expected, left) } else { Ok((left, q)) },
        Err(x) => Err(x),
    }
}

/// The `( '||' and_expr )*` part, given what stands to its left.
pub open spec fn logical_or_rest(ts: Seq<SpecToken>, p: int, expected: Option<DataType>, left: SpecExpression) -> Parsed<SpecExpression>
    decreases ts.len() - p, 28int,
{
    if 0 <= p < ts.len() && ts[p] == SpecToken::Or {
        match logical_and(ts, p + 1, expected) {
            Ok((right, q)) => {
                let e = SpecExpression::LogicalOp { op: LogicalOp::Or, left: Box::new(left), right: Box::new(right) };
                if p < q <= ts.len() { logical_or_rest(ts, q, expected, e) } else { Ok((e, q)) }
            },
            Err(x) => Err(x),
        }
    } else {
        Ok((left, p))
    }
}

/// `comparison ( '&&' comparison )*`, grouped to the left.
pub open spec fn logical_and(ts: Seq<SpecToken>, p: int, expected: Option<DataType>) -> Parsed<SpecExpression>
    decreases ts.len() - p, 27int,
{
    match comparison(ts, p, expected) {
        Ok((left, q)) => if p < q <= ts.len() { logical_and_rest(ts, q, expected, left) } else { Ok((left, q)) },
        Err(x) => Err(x),
    }
}

/// The `( '&&' comparison )*` part, given what stands to its left.
pub open spec fn logical_and_rest(ts: Seq<SpecToken>, p: int, expected: Option<DataType>, left: SpecExpression) -> Parsed<SpecExpression>
    decreases ts.len() - p, 26int,
{
    if 0 <= p < ts.len() && ts[p] == SpecToken::And {
        match comparison(ts, p + 1, expected) {
            Ok((right, q)) => {
                let e = SpecExpression::LogicalOp { op: LogicalOp::And, left: Box::new(left), right: Box::new(right) };
                if p < q <= ts.len() { logical_and_rest(ts, q, expected, e) } else { Ok((e, q)) }
            },
            Err(x) => Err(x),
        }
    } else {
        Ok((left, p))
    }
}

/// `addition ( cmp_op addition )*`, grouped to the left.
pub open spec fn comparison(ts: Seq<SpecToken>, p: int, expected: Option<DataType>) -> Parsed<SpecExpression>
    decreases ts.len() - p, 25int,
{
    match addition(ts, p, expected) {
        Ok((left, q)) => if p < q <= ts.len() { comparison_rest(ts, q, expected, left) } else { Ok((left, q)) },
        Err(x) => Err(x),
    }
}

/// The `( cmp_op addition )*` part, given what stands to its left.
pub open spec fn comparison_rest(ts: Seq<SpecToken>, p: int, expected: Option<DataType>, left: SpecExpression) -> Parsed<SpecExpression>
    decreases ts.len() - p, 24int,
{
    if 0 <= p < ts.len() && comparison_op_of(ts[p]) is Some {
        match addition(ts, p + 1, expected) {
            Ok((right, q)) => {
                let e = SpecExpression::Comparison {
                    op: comparison_op_of(ts[p])->Some_0,
                    left: Box::new(left),
                    right: Box::new(right),
                };
                if p < q <= ts.len() { comparison_rest(ts, q, expected, e) } else { Ok((e, q)) }
            },
            Err(x) => Err(x),
        }
    } else {
        Ok((left, p))
    }
}

/// `multiplication ( ('+' | '-') multiplication )*`, grouped to the left.
pub open spec fn addition(ts: Seq<SpecToken>, p: int, expected: Option<DataType>) -> Parsed<SpecExpression>
    decreases ts.len() - p, 23int,
{
    match multiplication(ts, p, expected) {
        Ok((left, q)) => if p < q <= ts.len() { addition_rest(ts, q, expected, left) } else { Ok((left, q)) },
        Err(x) => Err(x),
    }
}

/// The `( ('+' | '-') multiplication )*` part, given what stands to its left.
pub open spec fn addition_rest(ts: Seq<SpecToken>, p: int, expected: Option<DataType>, left: SpecExpression) -> Parsed<SpecExpression>
    decreases ts.len() - p, 22int,
{
    if 0 <= p < ts.len() && additive_op_of(ts[p]) is Some {
        match multiplication(ts, p + 1, expected) {
            Ok((right, q)) => {
                let e = SpecExpression::BinaryOp {
                    op: additive_op_of(ts[p])->Some_0,
                    left: Box::new(left),
                    right: Box::new(right),
                };
                if p < q <= ts.len() { addition_rest(ts, q, expected, e) } else { Ok((e, q)) }
            },
            Err(x) => Err(x),
        }
    } else {
        Ok((left, p))
    }
}

/// `unary ( ('*' | '/' | '%') unary )*`, grouped to the left.
pub open spec fn multiplication(ts: Seq<SpecToken>, p: int, expected: Option<DataType>) -> Parsed<SpecExpression>
    decreases ts.len() - p, 21int,
{
    match unary(ts, p, expected) {
        Ok((left, q)) => if p < q <= ts.len() { multiplication_rest(ts, q, expected, left) } else { Ok((left, q)) },
        Err(x) => Err(x),
    }
}

/// The `( ('*' | '/' | '%') unary )*` part, given what stands to its left.
pub open spec fn multiplication_rest(ts: Seq<SpecToken>, p: int, expected: Option<DataType>, left: SpecExpression) -> Parsed<SpecExpression>
    decreases ts.len() - p, 20int,
{
    if 0 <= p < ts.len() && multiplicative_op_of(ts[p]) is Some {
        match unary(ts, p + 1, expected) {
            Ok((right, q)) => {
                let e = SpecExpression::BinaryOp {
                    op: multiplicative_op_of(ts[p])->Some_0,
                    left: Box::new(left),
                    right: Box::new(right),
                };
                if p < q <= ts.len() { multiplication_rest(ts, q, expected, e) } else { Ok((e, q)) }
            },
            Err(x) => Err(x),
        }
    } else {
        Ok((left, p))
    }
}

/// `('-' | '!') unary | primary`.
pub open spec fn unary(ts: Seq<SpecToken>, p: int, expected: Option<DataType>) -> Parsed<SpecExpression>
    decreases ts.len() - p, 19int,
{
    if 0 <= p < ts.len() && unary_op_of(ts[p]) is Some {
        match unary(ts, p + 1, expected) {
            Ok((e, q)) => Ok((SpecExpression::UnaryOp { op: unary_op_of(ts[p])->Some_0, expression: Box::new(e) }, q)),
            Err(x) => Err(x),
        }
    } else {
        primary(ts, p, expected)
    }
}

/// A literal, a variable, a call, or a parenthesized expression.
pub open spec fn primary(ts: Seq<SpecToken>, p: int, expected: Option<DataType>) -> Parsed<SpecExpression>
    decreases ts.len() - p, 18int,
{
    match tok(ts, p) {
        Some(SpecToken::False) => Ok((SpecExpression::LiteralBool(false), p + 1)),
        Some(SpecToken::True) => Ok((SpecExpression::LiteralBool(true), p + 1)),
        Some(SpecToken::LiteralChar(c)) => Ok((SpecExpression::LiteralChar(c), p + 1)),
        Some(SpecToken::LiteralString(s)) => Ok((SpecExpression::LiteralString(s), p + 1)),
        Some(SpecToken::LiteralNumber(s)) => match number_literal(s, expected) {
            Ok(e) => Ok((e, p + 1)),
            Err(x) => Err((x, p + 1)),
        },
        Some(SpecToken::Identifier(name)) => if tok(ts, p + 1) == Some(SpecToken::OpenParen) {
            call(ts, p)
        } else {
            Ok((SpecExpression::Variable(name), p + 1))
        },
        Some(SpecToken::OpenParen) => match expression(ts, p + 1, expected) {
            Ok((e, q)) => match expect(ts, q, SpecToken::CloseParen) {
                Ok(r) => Ok((e, r)),
                Err(x) => Err(x),
            },
            Err(x) => Err(x),
        },
        Some(t) => Err((SpecParseError::UnexpectedTokenInExpression(Some(t)), p + 1)),
        None => Err((SpecParseError::UnexpectedTokenInExpression(None), p)),
    }
}

/// A call `name '(' arguments? ')'`.
pub open spec fn call(ts: Seq<SpecToken>, p: int) -> Parsed<SpecExpression>
    decreases ts.len() - p, 17int,
{
    match tok(ts, p) {
        Some(SpecToken::Identifier(name)) => match expect(ts, p + 1, SpecToken::OpenParen) {
            Ok(q) => {
                let args = if tok(ts, q) == Some(SpecToken::CloseParen) {
                    Ok((Seq::empty(), q))
                } else {
                    arguments(ts, q, Seq::empty())
                };
                match args {
                    Ok((a, r)) => match expect(ts, r, SpecToken::CloseParen) {
                        Ok(s) => Ok((SpecExpression::FunctionCall { name, arguments: a }, s)),
                        Err(x) => Err(x),
                    },
                    Err(x) => Err(x),
                }
            },
            Err(x) => Err(x),
        },
        other => Err((SpecParseError::ExpectedFunctionName(other), past(ts, p))),
    }
}

/// `expression ( ',' expression )*`, appended to `acc`.
pub open spec fn arguments(ts: Seq<SpecToken>, p: int, acc: Seq<SpecExpression>) -> Parsed<Seq<SpecExpression>>
    decreases ts.len() - p, 31int,
{
    match expression(ts, p, None) {
        Ok((e, q)) => if tok(ts, q) == Some(SpecToken::Comma) && p <= q {
            arguments(ts, q + 1, acc.push(e))
        } else {
            Ok((acc.push(e), q))
        },
        Err(x) => Err(x),
    }
}

/// A statement list, appended to `acc`: statements up to a `}` or `EOF`
/// (which is not taken).
pub open spec fn block(ts: Seq<SpecToken>, p: int, acc: Seq<SpecStatement>) -> Parsed<Seq<SpecStatement>>
    decreases ts.len() - p, 5int,
{
    if tok(ts, p) == Some(SpecToken::CloseBrace) || tok(ts, p) == Some(SpecToken::EOF) {
        Ok((acc, p))
    } else {
        match statement(ts, p) {
            Ok((st, q)) => if p < q <= ts.len() { block(ts, q, acc.push(st)) } else { Ok((acc.push(st), q)) },
            Err(x) => Err(x),
        }
    }
}

/// A statement, chosen by its first token (and, after an identifier, by the
/// token after that).
pub open spec fn statement(ts: Seq<SpecToken>, p: int) -> Parsed<SpecStatement>
    decreases ts.len() - p, 4int,
{
    match tok(ts, p) {
        Some(t) => if data_type_of(t) is Some {
            declaration(ts, p)
        } else {
            match t {
                SpecToken::If => if_statement(ts, p),
                SpecToken::For => for_statement(ts, p),
                SpecToken::While => while_statement(ts, p),
                SpecToken::Return => return_statement(ts, p),
                SpecToken::Identifier(name) => match tok(ts, p + 1) {
                    Some(SpecToken::Assign) => assignment(ts, p),
                    Some(SpecToken::Increment) => Ok((SpecStatement::Increment { variable_name: name }, p + 2)),
                    Some(SpecToken::Decrement) => Ok((SpecStatement::Decrement { variable_name: name }, p + 2)),
                    Some(SpecToken::OpenParen) => call_statement(ts, p),
                    other => Err((SpecParseError::UnexpectedTokenAfterIdentifier(other), p)),
                },
                _ => Err((SpecParseError::ExpectedStatement(Some(t)), p)),
            }
        },
        None => Err((SpecParseError::ExpectedStatement(None), p)),
    }
}

/// `type name '=' expression`, where number literals take the declared type.
pub open spec fn declaration(ts: Seq<SpecToken>, p: int) -> Parsed<SpecStatement> {
    match data_type(ts, p) {
        Ok((d, q)) => match tok(ts, q) {
            Some(SpecToken::Identifier(name)) => match expect(ts, q + 1, SpecToken::Assign) {
                Ok(r) => match expression(ts, r, Some(d)) {
                    Ok((e, s)) => Ok((SpecStatement::Declaration { data_type: d, variable_name: name, expression: e }, s)),
                    Err(x) => Err(x),
                },
                Err(x) => Err(x),
            },
            other => Err((SpecParseError::ExpectedVariableName(other), past(ts, q))),
        },
        Err(x) => Err(x),
    }
}

/// `name '=' expression`.
pub open spec fn assignment(ts: Seq<SpecToken>, p: int) -> Parsed<SpecStatement> {
    match tok(ts, p) {
        Some(SpecToken::Identifier(name)) => match expect(ts, p + 1, SpecToken::Assign) {
            Ok(r) => match expression(ts, r, None) {
                Ok((e, s)) => Ok((SpecStatement::Assignment { variable_name: name, expression: e }, s)),
                Err(x) => Err(x),
            },
            Err(x) => Err(x),
        },
        other => Err((SpecParseError::ExpectedVariableName(other), past(ts, p))),
    }
}

/// `'(' expression ')' '{' block '}'` from position `p` on: a condition and
/// the statements it guards.
pub open spec fn guarded_block(ts: Seq<SpecToken>, p: int) -> Parsed<(SpecExpression, Seq<SpecStatement>)>
    decreases ts.len() - p, 2int,
{
    match expect(ts, p, SpecToken::OpenParen) {
        Ok(p1) => match expression(ts, p1, None) {
            Ok((c, p2)) => match expect(ts, p2, SpecToken::CloseParen) {
                Ok(p3) => match expect(ts, p3, SpecToken::OpenBrace) {
                    Ok(p4) => if p < p4 <= ts.len() {
                        match block(ts, p4, Seq::empty()) {
                            Ok((b, p5)) => match expect(ts, p5, SpecToken::CloseBrace) {
                                Ok(p6) => Ok(((c, b), p6)),
                                Err(x) => Err(x),
                            },
                            Err(x) => Err(x),
                        }
                    } else {
                        Ok(((c, Seq::empty()), p4))
                    },
                    Err(x) => Err(x),
                },
                Err(x) => Err(x),
            },
            Err(x) => Err(x),
        },
        Err(x) => Err(x),
    }
}

/// `'{' block '}'` from position `p` on.
pub open spec fn braced_block(ts: Seq<SpecToken>, p: int) -> Parsed<Seq<SpecStatement>>
    decreases ts.len() - p, 2int,
{
    match expect(ts, p, SpecToken::OpenBrace) {
        Ok(p1) => match block(ts, p1, Seq::empty()) {
            Ok((b, p2)) => match expect(ts, p2, SpecToken::CloseBrace) {
                Ok(p3) => Ok((b, p3)),
                Err(x) => Err(x),
            },
            Err(x) => Err(x),
        },
        Err(x) => Err(x),
    }
}

/// `( 'elif' guarded_block )*`, appended to `acc`.
pub open spec fn elif_branches(
    ts: Seq<SpecToken>,
    p: int,
    acc: Seq<(SpecExpression, Seq<SpecStatement>)>,
) -> Parsed<Seq<(SpecExpression, Seq<SpecStatement>)>>
    decreases ts.len() - p, 3int,
{
    if tok(ts, p) == Some(SpecToken::Elif) {
        match guarded_block(ts, p + 1) {
            Ok((branch, q)) => if p < q <= ts.len() {
                elif_branches(ts, q, acc.push(branch))
            } else {
                Ok((acc.push(branch), q))
            },
            Err(x) => Err(x),
        }
    } else {
        Ok((acc, p))
    }
}

/// `( 'else' braced_block )?`.
pub open spec fn else_branch(ts: Seq<SpecToken>, p: int) -> Parsed<Option<Seq<SpecStatement>>>
    decreases ts.len() - p, 3int,
{
    if tok(ts, p) == Some(SpecToken::Else) {
        match braced_block(ts, p + 1) {
            Ok((b, q)) => Ok((Some(b), q)),
            Err(x) => Err(x),
        }
    } else {
        Ok((None, p))
    }
}

/// `'if' guarded_block ( 'elif' guarded_block )* ( 'else' braced_block )?`.
pub open spec fn if_statement(ts: Seq<SpecToken>, p: int) -> Parsed<SpecStatement>
    decreases ts.len() - p, 3int,
{
    match expect(ts, p, SpecToken::If) {
        Ok(p1) => match guarded_block(ts, p1) {
            Ok((first, p2)) => if p < p2 <= ts.len() {
                if_branches(ts, first, p2)
            } else {
                Ok((SpecStatement::If { condition: first.0, then_branch: first.1, elif_branches: Seq::empty(), else_branch: None }, p2))
            },
            Err(x) => Err(x),
        },
        Err(x) => Err(x),
    }
}

/// The `elif` and `else` parts of an `if` statement whose condition and
/// first branch are `first`.
pub open spec fn if_branches(ts: Seq<SpecToken>, first: (SpecExpression, Seq<SpecStatement>), p: int) -> Parsed<SpecStatement>
    decreases ts.len() - p, 6int,
{
    match elif_branches(ts, p, Seq::empty()) {
        Ok((elifs, q)) => if p <= q <= ts.len() {
            match else_branch(ts, q) {
                Ok((els, r)) => Ok((
                    SpecStatement::If { condition: first.0, then_branch: first.1, elif_branches: elifs, else_branch: els },
                    r,
                )),
                Err(x) => Err(x),
            }
        } else {
            Ok((SpecStatement::If { condition: first.0, then_branch: first.1, elif_branches: elifs, else_branch: None }, q))
        },
        Err(x) => Err(x),
    }
}

/// `'while' guarded_block`.
pub open spec fn while_statement(ts: Seq<SpecToken>, p: int) -> Parsed<SpecStatement>
    decreases ts.len() - p, 3int,
{
    match expect(ts, p, SpecToken::While) {
        Ok(p1) => match guarded_block(ts, p1) {
            Ok(((c, body), p2)) => Ok((SpecStatement::While { condition: c, body }, p2)),
            Err(x) => Err(x),
        },
        Err(x) => Err(x),
    }
}

/// `'for' '(' statement expression statement ')' braced_block`.
pub open spec fn for_statement(ts: Seq<SpecToken>, p: int) -> Parsed<SpecStatement>
    decreases ts.len() - p, 3int,
{
    match expect(ts, p, SpecToken::For) {
        Ok(p1) => match expect(ts, p1, SpecToken::OpenParen) {
            Ok(p2) => if p < p2 <= ts.len() {
                match statement(ts, p2) {
                    Ok((init, p3)) => if p < p3 <= ts.len() {
                        for_rest(ts, init, p3)
                    } else {
                        Err((SpecParseError::ExpectedStatement(None), p3))
                    },
                    Err(x) => Err(x),
                }
            } else {
                Err((SpecParseError::ExpectedStatement(None), p2))
            },
            Err(x) => Err(x),
        },
        Err(x) => Err(x),
    }
}

/// What follows the initialization of a `for` statement:
/// `expression statement ')' braced_block`.
pub open spec fn for_rest(ts: Seq<SpecToken>, init: SpecStatement, p: int) -> Parsed<SpecStatement>
    decreases ts.len() - p, 6int,
{
    match expression(ts, p, None) {
        Ok((c, p1)) => if p <= p1 <= ts.len() {
            match statement(ts, p1) {
                Ok((inc, p2)) => match expect(ts, p2, SpecToken::CloseParen) {
                    Ok(p3) => if p < p3 <= ts.len() {
                        match braced_block(ts, p3) {
                            Ok((body, p4)) => Ok((
                                SpecStatement::For {
                                    initialization: Box::new(init),
                                    condition: c,
                                    increment: Box::new(inc),
                                    body,
                                },
                                p4,
                            )),
                            Err(x) => Err(x),
                        }
                    } else {
                        Err((SpecParseError::ExpectedStatement(None), p3))
                    },
                    Err(x) => Err(x),
                },
                Err(x) => Err(x),
            }
        } else {
            Err((SpecParseError::ExpectedStatement(None), p1))
        },
        Err(x) => Err(x),
    }
}

/// `'return' '(' expression ')'`.
pub open spec fn return_statement(ts: Seq<SpecToken>, p: int) -> Parsed<SpecStatement> {
    match expect(ts, p, SpecToken::Return) {
        Ok(p1) => match expect(ts, p1, SpecToken::OpenParen) {
            Ok(p2) => match expression(ts, p2, None) {
                Ok((e, p3)) => match expect(ts, p3, SpecToken::CloseParen) {
                    Ok(p4) => Ok((SpecStatement::Return { expression: e }, p4)),
                    Err(x) => Err(x),
                },
                Err(x) => Err(x),
            },
            Err(x) => Err(x),
        },
        Err(x) => Err(x),
    }
}

/// `name '(' arguments? ')'` as a statement.
pub open spec fn call_statement(ts: Seq<SpecToken>, p: int) -> Parsed<SpecStatement> {
    match tok(ts, p) {
        Some(SpecToken::Identifier(name)) => match expect(ts, p + 1, SpecToken::OpenParen) {
            Ok(q) => {
                let args = if tok(ts, q) == Some(SpecToken::CloseParen) {
                    Ok((Seq::empty(), q))
                } else {
                    arguments(ts, q, Seq::empty())
                };
                match args {
                    Ok((a, r)) => match expect(ts, r, SpecToken::CloseParen) {
                        Ok(s) => Ok((SpecStatement::FunctionCall { name, arguments: a }, s)),
                        Err(x) => Err(x),
                    },
                    Err(x) => Err(x),
                }
            },
            Err(x) => Err(x),
        },
        other => Err((SpecParseError::ExpectedFunctionName(other), past(ts, p))),
    }
}

/// `type name ( ',' type name )*`, appended to `acc`.
pub open spec fn parameters(ts: Seq<SpecToken>, p: int, acc: Seq<(DataType, Seq<char>)>) -> Parsed<Seq<(DataType, Seq<char>)>>
    decreases ts.len() - p,
{
    match data_type(ts, p) {
        Ok((d, q)) => match tok(ts, q) {
            Some(SpecToken::Identifier(name)) => if tok(ts, q + 1) == Some(SpecToken::Comma) && p < q {
                parameters(ts, q + 2, acc.push((d, name)))
            } else {
                Ok((acc.push((d, name)), q + 1))
            },
            other => Err((SpecParseError::ExpectedParameterName(other), past(ts, q))),
        },
        Err(x) => Err(x),
    }
}

/// `'fn' name '(' parameters? ')' ( '->' type )? braced_block`.
pub open spec fn function_declaration(ts: Seq<SpecToken>, p: int) -> Parsed<SpecFunctionDeclaration> {
    match expect(ts, p, SpecToken::Fn) {
        Ok(p1) => match tok(ts, p1) {
            Some(SpecToken::Identifier(name)) => match expect(ts, p1 + 1, SpecToken::OpenParen) {
                Ok(p2) => {
                    let params = if tok(ts, p2) != Some(SpecToken::CloseParen) {
                        parameters(ts, p2, Seq::empty())
                    } else {
                        Ok((Seq::empty(), p2))
                    };
                    match params {
                        Ok((ps, p3)) => match expect(ts, p3, SpecToken::CloseParen) {
                            Ok(p4) => {
                                let ret = if tok(ts, p4) == Some(SpecToken::Arrow) {
                                    match data_type(ts, p4 + 1) {
                                        Ok((d, q)) => Ok((Some(d), q)),
                                        Err(x) => Err(x),
                                    }
                                } else {
                                    Ok((None, p4))
                                };
                                match ret {
                                    Ok((rt, p5)) => match braced_block(ts, p5) {
                                        Ok((body, p6)) => Ok((
                                            SpecFunctionDeclaration { name, parameters: ps, return_type: rt, body },
                                            p6,
                                        )),
                                        Err(x) => Err(x),
                                    },
                                    Err(x) => Err(x),
                                }
                            },
                            Err(x) => Err(x),
                        },
                        Err(x) => Err(x),
                    }
                },
                Err(x) => Err(x),
            },
            other => Err((SpecParseError::ExpectedFunctionName(other), past(ts, p1))),
        },
        Err(x) => Err(x),
    }
}

/// A program: function declarations up to the end of the tokens or an
/// `EOF` token, appended to `acc`.
pub open spec fn program(ts: Seq<SpecToken>, p: int, acc: Seq<SpecTopLevel>) -> Parsed<Seq<SpecTopLevel>>
    decreases ts.len() - p,
{
    match tok(ts, p) {
        Some(t) => if t == SpecToken::EOF {
            Ok((acc, p))
        } else if t == SpecToken::Fn {
            match function_declaration(ts, p) {
                Ok((f, q)) => if p < q <= ts.len() {
                    program(ts, q, acc.push(SpecTopLevel::Function(f)))
                } else {
                    Ok((acc.push(SpecTopLevel::Function(f)), q))
                },
                Err(x) => Err(x),
            }
        } else {
            Err((SpecParseError::ExpectedTopLevel(Some(t)), p))
        },
        None => Ok((acc, p)),
    }
}

} // verus!

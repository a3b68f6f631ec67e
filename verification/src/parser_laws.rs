//! Laws of the parser's typing of number literals, stated over the model in
//! [`crate::grammar`] that the parser's contracts speak of.

use vstd::prelude::*;

use crate::ast::{BinaryOp, ComparisonOp, DataType, LogicalOp, SpecExpression, UnaryOp};
use crate::grammar::{
    addition, addition_rest, comparison, comparison_rest, expression, logical_and,
    logical_and_rest, logical_or, logical_or_rest, multiplication, multiplication_rest,
    number_literal, number_with_type, primary, unary, declaration, statement,
};
use crate::ast::SpecStatement;
use crate::numbers::{all_digits, decimal_value, dot_count, exponent_mark, float_text_ok, lemma_decimal_value_nonneg};
use crate::token::SpecToken;

verus! {

/// The data type of a literal, for the literals that have one.
pub open spec fn literal_type(e: SpecExpression) -> Option<DataType> {
    match e {
        SpecExpression::LiteralU8(_) => Some(DataType::U8),
        SpecExpression::LiteralI8(_) => Some(DataType::I8),
        SpecExpression::LiteralU16(_) => Some(DataType::U16),
        SpecExpression::LiteralI16(_) => Some(DataType::I16),
        SpecExpression::LiteralF16(_) => Some(DataType::F16),
        SpecExpression::LiteralU32(_) => Some(DataType::U32),
        SpecExpression::LiteralI32(_) => Some(DataType::I32),
        SpecExpression::LiteralF32(_) => Some(DataType::F32),
        SpecExpression::LiteralBool(_) => Some(DataType::Bool),
        SpecExpression::LiteralU64(_) => Some(DataType::U64),
        SpecExpression::LiteralI64(_) => Some(DataType::I64),
        SpecExpression::LiteralF64(_) => Some(DataType::F64),
        SpecExpression::LiteralChar(_) => Some(DataType::Char),
        SpecExpression::LiteralString(_) => Some(DataType::String),
        _ => None,
    }
}

/// A number read where a type is expected becomes a literal of exactly that
/// type, or is refused.
pub proof fn law_literal_has_expected_type(text: Seq<char>, d: DataType)
    ensures
        number_with_type(text, d) matches Ok(e) ==> literal_type(e) == Some(d),
{
}

/// A number read where a type is expected is read by that type alone: what
/// the text looks like (a `.` in it, say) plays no other part.
pub proof fn law_expected_type_decides(text: Seq<char>, d: DataType)
    ensures
        number_literal(text, Some(d)) == number_with_type(text, d),
{
}

/// A number read where no type is expected becomes an `f64` exactly when it
/// holds a `.`, and otherwise an `i32` or, when too large for one, an `i64`.
pub proof fn law_untyped_literal_type(text: Seq<char>)
    ensures
        number_literal(text, None) matches Ok(e) ==> {
            &&& (literal_type(e) == Some(DataType::F64)) == text.contains('.')
            &&& !text.contains('.') ==> literal_type(e) == Some(DataType::I32) || literal_type(e) == Some(DataType::I64)
        },
{
}

/// Every number literal in `e`, outside the arguments of calls, is a
/// literal of type `d`: the literals of `e` are of type `d`, or are
/// `true`/`false`, char or string literals, which carry their own type.
pub open spec fn numbers_typed(e: SpecExpression, d: DataType) -> bool
    decreases e,
{
    match e {
        SpecExpression::LiteralBool(_) => true,
        SpecExpression::LiteralChar(_) => true,
        SpecExpression::LiteralString(_) => true,
        SpecExpression::Variable(_) => true,
        SpecExpression::FunctionCall { .. } => true,
        SpecExpression::BinaryOp { left, right, .. } => numbers_typed(*left, d) && numbers_typed(*right, d),
        SpecExpression::Comparison { left, right, .. } => numbers_typed(*left, d) && numbers_typed(*right, d),
        SpecExpression::LogicalOp { left, right, .. } => numbers_typed(*left, d) && numbers_typed(*right, d),
        SpecExpression::UnaryOp { expression, .. } => numbers_typed(*expression, d),
        SpecExpression::FieldAccess { expression, .. } => numbers_typed(*expression, d),
        SpecExpression::ArrayAccess { array, index } => numbers_typed(*array, d) && numbers_typed(*index, d),
        SpecExpression::Cast { expression, .. } => numbers_typed(*expression, d),
        _ => literal_type(e) == Some(d),
    }
}

/// An expression read where type `d` is expected (the expression of a
/// declaration of type `d`) gives every number literal in it type `d`, at
/// any depth and in any operand of arithmetic, comparison, logic, prefix
/// operators and parentheses; only the arguments of calls are read without
/// an expected type.
pub proof fn law_expected_type_reaches_every_number(ts: Seq<SpecToken>, p: int, d: DataType)
    ensures
        expression(ts, p, Some(d)) matches Ok((e, _)) ==> numbers_typed(e, d),
    decreases ts.len() - p, 30int,
{
    lemma_or_typed(ts, p, d);
}

proof fn lemma_or_typed(ts: Seq<SpecToken>, p: int, d: DataType)
    ensures
        logical_or(ts, p, Some(d)) matches Ok((e, _)) ==> numbers_typed(e, d),
    decreases ts.len() - p, 29int,
{
    lemma_and_typed(ts, p, d);
    if let Ok((left, q)) = logical_and(ts, p, Some(d)) {
        if p < q <= ts.len() {
            lemma_or_rest_typed(ts, q, d, left);
        }
    }
}

proof fn lemma_or_rest_typed(ts: Seq<SpecToken>, p: int, d: DataType, left: SpecExpression)
    requires
        numbers_typed(left, d),
    ensures
        logical_or_rest(ts, p, Some(d), left) matches Ok((e, _)) ==> numbers_typed(e, d),
    decreases ts.len() - p, 28int,
{
    if 0 <= p < ts.len() && ts[p] == SpecToken::Or {
        lemma_and_typed(ts, p + 1, d);
        if let Ok((right, q)) = logical_and(ts, p + 1, Some(d)) {
            let e = SpecExpression::LogicalOp { op: crate::ast::LogicalOp::Or, left: Box::new(left), right: Box::new(right) };
            assert(numbers_typed(e, d));
            if p < q <= ts.len() {
                lemma_or_rest_typed(ts, q, d, e);
            }
        }
    }
}

proof fn lemma_and_typed(ts: Seq<SpecToken>, p: int, d: DataType)
    ensures
        logical_and(ts, p, Some(d)) matches Ok((e, _)) ==> numbers_typed(e, d),
    decreases ts.len() - p, 27int,
{
    lemma_comparison_typed(ts, p, d);
    if let Ok((left, q)) = comparison(ts, p, Some(d)) {
        if p < q <= ts.len() {
            lemma_and_rest_typed(ts, q, d, left);
        }
    }
}

proof fn lemma_and_rest_typed(ts: Seq<SpecToken>, p: int, d: DataType, left: SpecExpression)
    requires
        numbers_typed(left, d),
    ensures
        logical_and_rest(ts, p, Some(d), left) matches Ok((e, _)) ==> numbers_typed(e, d),
    decreases ts.len() - p, 26int,
{
    if 0 <= p < ts.len() && ts[p] == SpecToken::And {
        lemma_comparison_typed(ts, p + 1, d);
        if let Ok((right, q)) = comparison(ts, p + 1, Some(d)) {
            let e = SpecExpression::LogicalOp { op: crate::ast::LogicalOp::And, left: Box::new(left), right: Box::new(right) };
            assert(numbers_typed(e, d));
            if p < q <= ts.len() {
                lemma_and_rest_typed(ts, q, d, e);
            }
        }
    }
}

proof fn lemma_comparison_typed(ts: Seq<SpecToken>, p: int, d: DataType)
    ensures
        comparison(ts, p, Some(d)) matches Ok((e, _)) ==> numbers_typed(e, d),
    decreases ts.len() - p, 25int,
{
    lemma_addition_typed(ts, p, d);
    if let Ok((left, q)) = addition(ts, p, Some(d)) {
        if p < q <= ts.len() {
            lemma_comparison_rest_typed(ts, q, d, left);
        }
    }
}

proof fn lemma_comparison_rest_typed(ts: Seq<SpecToken>, p: int, d: DataType, left: SpecExpression)
    requires
        numbers_typed(left, d),
    ensures
        comparison_rest(ts, p, Some(d), left) matches Ok((e, _)) ==> numbers_typed(e, d),
    decreases ts.len() - p, 24int,
{
    if 0 <= p < ts.len() && crate::grammar::comparison_op_of(ts[p]) is Some {
        lemma_addition_typed(ts, p + 1, d);
        if let Ok((right, q)) = addition(ts, p + 1, Some(d)) {
            let e = SpecExpression::Comparison {
                op: crate::grammar::comparison_op_of(ts[p])->Some_0,
                left: Box::new(left),
                right: Box::new(right),
            };
            assert(numbers_typed(e, d));
            if p < q <= ts.len() {
                lemma_comparison_rest_typed(ts, q, d, e);
            }
        }
    }
}

proof fn lemma_addition_typed(ts: Seq<SpecToken>, p: int, d: DataType)
    ensures
        addition(ts, p, Some(d)) matches Ok((e, _)) ==> numbers_typed(e, d),
    decreases ts.len() - p, 23int,
{
    lemma_multiplication_typed(ts, p, d);
    if let Ok((left, q)) = multiplication(ts, p, Some(d)) {
        if p < q <= ts.len() {
            lemma_addition_rest_typed(ts, q, d, left);
        }
    }
}

proof fn lemma_addition_rest_typed(ts: Seq<SpecToken>, p: int, d: DataType, left: SpecExpression)
    requires
        numbers_typed(left, d),
    ensures
        addition_rest(ts, p, Some(d), left) matches Ok((e, _)) ==> numbers_typed(e, d),
    decreases ts.len() - p, 22int,
{
    if 0 <= p < ts.len() && crate::grammar::additive_op_of(ts[p]) is Some {
        lemma_multiplication_typed(ts, p + 1, d);
        if let Ok((right, q)) = multiplication(ts, p + 1, Some(d)) {
            let e = SpecExpression::BinaryOp {
                op: crate::grammar::additive_op_of(ts[p])->Some_0,
                left: Box::new(left),
                right: Box::new(right),
            };
            assert(numbers_typed(e, d));
            if p < q <= ts.len() {
                lemma_addition_rest_typed(ts, q, d, e);
            }
        }
    }
}

proof fn lemma_multiplication_typed(ts: Seq<SpecToken>, p: int, d: DataType)
    ensures
        multiplication(ts, p, Some(d)) matches Ok((e, _)) ==> numbers_typed(e, d),
    decreases ts.len() - p, 21int,
{
    lemma_unary_typed(ts, p, d);
    if let Ok((left, q)) = unary(ts, p, Some(d)) {
        if p < q <= ts.len() {
            lemma_multiplication_rest_typed(ts, q, d, left);
        }
    }
}

proof fn lemma_multiplication_rest_typed(ts: Seq<SpecToken>, p: int, d: DataType, left: SpecExpression)
    requires
        numbers_typed(left, d),
    ensures
        multiplication_rest(ts, p, Some(d), left) matches Ok((e, _)) ==> numbers_typed(e, d),
    decreases ts.len() - p, 20int,
{
    if 0 <= p < ts.len() && crate::grammar::multiplicative_op_of(ts[p]) is Some {
        lemma_unary_typed(ts, p + 1, d);
        if let Ok((right, q)) = unary(ts, p + 1, Some(d)) {
            let e = SpecExpression::BinaryOp {
                op: crate::grammar::multiplicative_op_of(ts[p])->Some_0,
                left: Box::new(left),
                right: Box::new(right),
            };
            assert(numbers_typed(e, d));
            if p < q <= ts.len() {
                lemma_multiplication_rest_typed(ts, q, d, e);
            }
        }
    }
}

proof fn lemma_unary_typed(ts: Seq<SpecToken>, p: int, d: DataType)
    ensures
        unary(ts, p, Some(d)) matches Ok((e, _)) ==> numbers_typed(e, d),
    decreases ts.len() - p, 19int,
{
    if 0 <= p < ts.len() && crate::grammar::unary_op_of(ts[p]) is Some {
        lemma_unary_typed(ts, p + 1, d);
    } else {
        lemma_primary_typed(ts, p, d);
    }
}

proof fn lemma_primary_typed(ts: Seq<SpecToken>, p: int, d: DataType)
    ensures
        primary(ts, p, Some(d)) matches Ok((e, _)) ==> numbers_typed(e, d),
    decreases ts.len() - p, 18int,
{
    match crate::grammar::tok(ts, p) {
        Some(SpecToken::LiteralNumber(s)) => {
            law_literal_has_expected_type(s, d);
        },
        Some(SpecToken::OpenParen) => {
            law_expected_type_reaches_every_number(ts, p + 1, d);
        },
        _ => {},
    }
}

/// A declaration `d name = e` gives every number literal of `e`, outside
/// the arguments of calls, the declared type `d`.
pub proof fn law_declaration_types_its_numbers(ts: Seq<SpecToken>, p: int)
    ensures
        declaration(ts, p) matches Ok((SpecStatement::Declaration { data_type, expression, .. }, _))
            ==> numbers_typed(expression, data_type),
{
    if let Ok((d, q)) = crate::grammar::data_type(ts, p) {
        if let Some(SpecToken::Identifier(_)) = crate::grammar::tok(ts, q) {
            if let Ok(r) = crate::grammar::expect(ts, q + 1, SpecToken::Assign) {
                law_expected_type_reaches_every_number(ts, r, d);
            }
        }
    }
}

proof fn lemma_digits_no_exponent(s: Seq<char>, i: int)
    requires
        0 <= i <= s.len(),
        all_digits(s),
    ensures
        exponent_mark(s, i) == s.len(),
    decreases s.len() - i,
{
    if i < s.len() {
        lemma_digits_no_exponent(s, i + 1);
    }
}

proof fn lemma_digits_no_dot(s: Seq<char>)
    requires
        all_digits(s),
    ensures
        dot_count(s) == 0,
    decreases s.len(),
{
    if s.len() > 0 {
        assert(all_digits(s.drop_last()));
        lemma_digits_no_dot(s.drop_last());
    }
}

/// A number without sign, dot or exponent is float text.
pub proof fn law_digits_are_float_text(text: Seq<char>)
    requires
        text.len() > 0,
        all_digits(text),
    ensures
        float_text_ok(text),
{
    lemma_digits_no_exponent(text, 0);
    lemma_digits_no_dot(text);
    assert(text.take(text.len() as int) =~= text);
    assert(crate::text::is_digit_char(text[0]));
}

/// Read where a float type is expected, a number is a literal of that type,
/// holding its text, exactly when it is float text (as the standard library
/// reads floats); so a number of digits alone, `2` say, is accepted.
pub proof fn law_float_types_read_float_text(text: Seq<char>, d: DataType)
    requires
        d == DataType::F16 || d == DataType::F32 || d == DataType::F64,
    ensures
        number_with_type(text, d) is Ok <==> float_text_ok(text),
        d == DataType::F16 && float_text_ok(text) ==> number_with_type(text, d) == Ok::<SpecExpression, crate::grammar::SpecParseError>(SpecExpression::LiteralF16(text)),
        d == DataType::F32 && float_text_ok(text) ==> number_with_type(text, d) == Ok::<SpecExpression, crate::grammar::SpecParseError>(SpecExpression::LiteralF32(text)),
        d == DataType::F64 && float_text_ok(text) ==> number_with_type(text, d) == Ok::<SpecExpression, crate::grammar::SpecParseError>(SpecExpression::LiteralF64(text)),
        text.len() > 0 && all_digits(text) ==> number_with_type(text, d) is Ok,
{
    if text.len() > 0 && all_digits(text) {
        law_digits_are_float_text(text);
    }
}

/// The comparison `a op b` of two variables.
pub open spec fn compared(op: ComparisonOp, a: Seq<char>, b: Seq<char>) -> SpecExpression {
    SpecExpression::Comparison {
        op,
        left: Box::new(SpecExpression::Variable(a)),
        right: Box::new(SpecExpression::Variable(b)),
    }
}

/// A variable alone at `p`, followed by a token that continues no
/// arithmetic, reads as that variable at every level below comparison.
proof fn lemma_variable_operand(ts: Seq<SpecToken>, p: int)
    requires
        0 <= p < ts.len(),
        ts[p] is Identifier,
        p + 1 < ts.len() ==> (ts[p + 1] != SpecToken::OpenParen && crate::grammar::multiplicative_op_of(ts[p + 1]) is None
            && crate::grammar::additive_op_of(ts[p + 1]) is None),
    ensures
        addition(ts, p, None) == Ok::<(SpecExpression, int), (crate::grammar::SpecParseError, int)>(
            (SpecExpression::Variable(ts[p]->Identifier_0), p + 1),
        ),
{
    let v = SpecExpression::Variable(ts[p]->Identifier_0);
    assert(crate::grammar::unary_op_of(ts[p]) is None);
    assert(primary(ts, p, None) == Ok::<(SpecExpression, int), (crate::grammar::SpecParseError, int)>((v, p + 1)));
    assert(unary(ts, p, None) == primary(ts, p, None));
    assert(multiplication_rest(ts, p + 1, None, v) == Ok::<(SpecExpression, int), (crate::grammar::SpecParseError, int)>((v, p + 1)));
    assert(multiplication(ts, p, None) == Ok::<(SpecExpression, int), (crate::grammar::SpecParseError, int)>((v, p + 1)));
    assert(addition_rest(ts, p + 1, None, v) == Ok::<(SpecExpression, int), (crate::grammar::SpecParseError, int)>((v, p + 1)));
}

/// The tokens `a OP b`, for two names and a comparison token, read as the
/// comparison that the token spells: `==` is `Equals`, `!=` `NotEquals`,
/// `<` `LessThan`, `>` `GreaterThan`, `<=` `LessThanEquals` and `>=`
/// `GreaterThanEquals`, with `a` on the left and `b` on the right.
pub proof fn law_comparison_operator(a: Seq<char>, b: Seq<char>, t: SpecToken)
    requires
        t == SpecToken::Equals || t == SpecToken::NotEquals || t == SpecToken::LessThan
            || t == SpecToken::GreaterThan || t == SpecToken::LessThanEquals
            || t == SpecToken::GreaterThanEquals,
    ensures
        ({
            let r = expression(seq![SpecToken::Identifier(a), t, SpecToken::Identifier(b)], 0, None);
            &&& t == SpecToken::Equals ==> r == Ok::<(SpecExpression, int), (crate::grammar::SpecParseError, int)>((compared(ComparisonOp::Equals, a, b), 3))
            &&& t == SpecToken::NotEquals ==> r == Ok::<(SpecExpression, int), (crate::grammar::SpecParseError, int)>((compared(ComparisonOp::NotEquals, a, b), 3))
            &&& t == SpecToken::LessThan ==> r == Ok::<(SpecExpression, int), (crate::grammar::SpecParseError, int)>((compared(ComparisonOp::LessThan, a, b), 3))
            &&& t == SpecToken::GreaterThan ==> r == Ok::<(SpecExpression, int), (crate::grammar::SpecParseError, int)>((compared(ComparisonOp::GreaterThan, a, b), 3))
            &&& t == SpecToken::LessThanEquals ==> r == Ok::<(SpecExpression, int), (crate::grammar::SpecParseError, int)>((compared(ComparisonOp::LessThanEquals, a, b), 3))
            &&& t == SpecToken::GreaterThanEquals ==> r == Ok::<(SpecExpression, int), (crate::grammar::SpecParseError, int)>((compared(ComparisonOp::GreaterThanEquals, a, b), 3))
        }),
{
    let ts = seq![SpecToken::Identifier(a), t, SpecToken::Identifier(b)];
    lemma_variable_operand(ts, 0);
    lemma_variable_operand(ts, 2);
    let op = crate::grammar::comparison_op_of(t)->Some_0;
    let e = compared(op, a, b);
    assert(comparison_rest(ts, 3, None, e) == Ok::<(SpecExpression, int), (crate::grammar::SpecParseError, int)>((e, 3)));
    assert(comparison_rest(ts, 1, None, SpecExpression::Variable(a)) == Ok::<(SpecExpression, int), (crate::grammar::SpecParseError, int)>((e, 3)));
    assert(comparison(ts, 0, None) == Ok::<(SpecExpression, int), (crate::grammar::SpecParseError, int)>((e, 3)));
    assert(logical_and_rest(ts, 3, None, e) == Ok::<(SpecExpression, int), (crate::grammar::SpecParseError, int)>((e, 3)));
    assert(logical_and(ts, 0, None) == Ok::<(SpecExpression, int), (crate::grammar::SpecParseError, int)>((e, 3)));
    assert(logical_or_rest(ts, 3, None, e) == Ok::<(SpecExpression, int), (crate::grammar::SpecParseError, int)>((e, 3)));
    assert(logical_or(ts, 0, None) == Ok::<(SpecExpression, int), (crate::grammar::SpecParseError, int)>((e, 3)));
}

/// What a parse at any level yields: the expression and the position after it.
pub open spec fn parsed_as(e: SpecExpression, q: int) -> crate::grammar::Parsed<SpecExpression> {
    Ok((e, q))
}

/// A name alone at `p`, not called, reads as that variable at each level
/// whose operators do not follow it.
proof fn lemma_variable_levels(ts: Seq<SpecToken>, p: int)
    requires
        0 <= p < ts.len(),
        ts[p] is Identifier,
        crate::grammar::tok(ts, p + 1) != Some(SpecToken::OpenParen),
    ensures
        ({
            let v = SpecExpression::Variable(ts[p]->Identifier_0);
            let next = crate::grammar::tok(ts, p + 1);
            &&& unary(ts, p, None) == parsed_as(v, p + 1)
            &&& (next is None || crate::grammar::multiplicative_op_of(next->Some_0) is None)
                ==> multiplication(ts, p, None) == parsed_as(v, p + 1)
            &&& (next is None || (crate::grammar::multiplicative_op_of(next->Some_0) is None
                && crate::grammar::additive_op_of(next->Some_0) is None))
                ==> addition(ts, p, None) == parsed_as(v, p + 1)
            &&& (next is None || (crate::grammar::multiplicative_op_of(next->Some_0) is None
                && crate::grammar::additive_op_of(next->Some_0) is None
                && crate::grammar::comparison_op_of(next->Some_0) is None))
                ==> comparison(ts, p, None) == parsed_as(v, p + 1)
            &&& (next is None || (crate::grammar::multiplicative_op_of(next->Some_0) is None
                && crate::grammar::additive_op_of(next->Some_0) is None
                && crate::grammar::comparison_op_of(next->Some_0) is None
                && next->Some_0 != SpecToken::And))
                ==> logical_and(ts, p, None) == parsed_as(v, p + 1)
        }),
{
    let v = SpecExpression::Variable(ts[p]->Identifier_0);
    assert(crate::grammar::unary_op_of(ts[p]) is None);
    assert(primary(ts, p, None) == parsed_as(v, p + 1));
    assert(unary(ts, p, None) == parsed_as(v, p + 1));
}

/// At the end of the tokens every level's loop of operators stops, keeping
/// what stands to its left.
proof fn lemma_end_levels(ts: Seq<SpecToken>, e: SpecExpression)
    ensures
        multiplication_rest(ts, ts.len() as int, None, e) == parsed_as(e, ts.len() as int),
        addition_rest(ts, ts.len() as int, None, e) == parsed_as(e, ts.len() as int),
        comparison_rest(ts, ts.len() as int, None, e) == parsed_as(e, ts.len() as int),
        logical_and_rest(ts, ts.len() as int, None, e) == parsed_as(e, ts.len() as int),
        logical_or_rest(ts, ts.len() as int, None, e) == parsed_as(e, ts.len() as int),
{
}

/// The binary expression `a op b` of two variables.
pub open spec fn arithmetic(op: BinaryOp, a: Seq<char>, b: Seq<char>) -> SpecExpression {
    SpecExpression::BinaryOp {
        op,
        left: Box::new(SpecExpression::Variable(a)),
        right: Box::new(SpecExpression::Variable(b)),
    }
}

/// The logical expression `a op b` of two variables.
pub open spec fn connected(op: LogicalOp, a: Seq<char>, b: Seq<char>) -> SpecExpression {
    SpecExpression::LogicalOp {
        op,
        left: Box::new(SpecExpression::Variable(a)),
        right: Box::new(SpecExpression::Variable(b)),
    }
}

/// The tokens `a OP b`, for two names and an arithmetic or logical token,
/// read as the operation that the token spells: `+` is `Plus`, `-`
/// `Minus`, `*` `Multiply`, `/` `Divide`, `%` `Modulo`, `&&` `And` and `||`
/// `Or`, with `a` on the left and `b` on the right.
pub proof fn law_binary_operator(a: Seq<char>, b: Seq<char>, t: SpecToken)
    ensures
        ({
            let r = expression(seq![SpecToken::Identifier(a), t, SpecToken::Identifier(b)], 0, None);
            &&& t == SpecToken::Plus ==> r == parsed_as(arithmetic(BinaryOp::Plus, a, b), 3)
            &&& t == SpecToken::Minus ==> r == parsed_as(arithmetic(BinaryOp::Minus, a, b), 3)
            &&& t == SpecToken::Multiply ==> r == parsed_as(arithmetic(BinaryOp::Multiply, a, b), 3)
            &&& t == SpecToken::Divide ==> r == parsed_as(arithmetic(BinaryOp::Divide, a, b), 3)
            &&& t == SpecToken::Modulo ==> r == parsed_as(arithmetic(BinaryOp::Modulo, a, b), 3)
            &&& t == SpecToken::And ==> r == parsed_as(connected(LogicalOp::And, a, b), 3)
            &&& t == SpecToken::Or ==> r == parsed_as(connected(LogicalOp::Or, a, b), 3)
        }),
{
    let ts = seq![SpecToken::Identifier(a), t, SpecToken::Identifier(b)];
    lemma_variable_levels(ts, 2);
    let va = SpecExpression::Variable(a);
    let vb = SpecExpression::Variable(b);
    if t == SpecToken::Plus || t == SpecToken::Minus {
        lemma_variable_levels(ts, 0);
        let e = arithmetic(crate::grammar::additive_op_of(t)->Some_0, a, b);
        lemma_end_levels(ts, e);
        assert(addition_rest(ts, 1, None, va) == parsed_as(e, 3));
        assert(addition(ts, 0, None) == parsed_as(e, 3));
        assert(comparison(ts, 0, None) == parsed_as(e, 3));
        assert(logical_and(ts, 0, None) == parsed_as(e, 3));
        assert(logical_or(ts, 0, None) == parsed_as(e, 3));
    } else if t == SpecToken::Multiply || t == SpecToken::Divide || t == SpecToken::Modulo {
        lemma_variable_levels(ts, 0);
        let e = arithmetic(crate::grammar::multiplicative_op_of(t)->Some_0, a, b);
        lemma_end_levels(ts, e);
        assert(multiplication_rest(ts, 1, None, va) == parsed_as(e, 3));
        assert(multiplication(ts, 0, None) == parsed_as(e, 3));
        assert(addition(ts, 0, None) == parsed_as(e, 3));
        assert(comparison(ts, 0, None) == parsed_as(e, 3));
        assert(logical_and(ts, 0, None) == parsed_as(e, 3));
        assert(logical_or(ts, 0, None) == parsed_as(e, 3));
    } else if t == SpecToken::And {
        lemma_variable_levels(ts, 0);
        let e = connected(LogicalOp::And, a, b);
        lemma_end_levels(ts, e);
        assert(logical_and_rest(ts, 1, None, va) == parsed_as(e, 3));
        assert(logical_and(ts, 0, None) == parsed_as(e, 3));
        assert(logical_or(ts, 0, None) == parsed_as(e, 3));
    } else if t == SpecToken::Or {
        lemma_variable_levels(ts, 0);
        let e = connected(LogicalOp::Or, a, b);
        lemma_end_levels(ts, va);
        lemma_end_levels(ts, e);
        assert(logical_and_rest(ts, 1, None, va) == parsed_as(va, 1));
        assert(logical_and(ts, 0, None) == parsed_as(va, 1));
        assert(logical_or_rest(ts, 1, None, va) == parsed_as(e, 3));
        assert(logical_or(ts, 0, None) == parsed_as(e, 3));
    }
}

/// The tokens `OP a`, for a prefix token and a name, read as the prefix
/// operation the token spells: `-` is `Negate` and `!` is `Not`.
pub proof fn law_prefix_operator(a: Seq<char>, t: SpecToken)
    ensures
        ({
            let r = expression(seq![t, SpecToken::Identifier(a)], 0, None);
            let neg = SpecExpression::UnaryOp { op: UnaryOp::Negate, expression: Box::new(SpecExpression::Variable(a)) };
            let not = SpecExpression::UnaryOp { op: UnaryOp::Not, expression: Box::new(SpecExpression::Variable(a)) };
            &&& t == SpecToken::Minus ==> r == parsed_as(neg, 2)
            &&& t == SpecToken::Bang ==> r == parsed_as(not, 2)
        }),
{
    let ts = seq![t, SpecToken::Identifier(a)];
    if t == SpecToken::Minus || t == SpecToken::Bang {
        lemma_variable_levels(ts, 1);
        let e = SpecExpression::UnaryOp {
            op: crate::grammar::unary_op_of(t)->Some_0,
            expression: Box::new(SpecExpression::Variable(a)),
        };
        lemma_end_levels(ts, e);
        assert(unary(ts, 0, None) == parsed_as(e, 2));
        assert(multiplication(ts, 0, None) == parsed_as(e, 2));
        assert(addition(ts, 0, None) == parsed_as(e, 2));
        assert(comparison(ts, 0, None) == parsed_as(e, 2));
        assert(logical_and(ts, 0, None) == parsed_as(e, 2));
        assert(logical_or(ts, 0, None) == parsed_as(e, 2));
    }
}

/// A number written with digits alone, read as an integer type, is the
/// literal of its decimal value when that value fits the type (`u8` up to
/// 255, `u16` up to 65535, and so on; the signed types up to their largest
/// positive value), and is refused otherwise.
pub proof fn law_integer_types_read_decimal_value(text: Seq<char>)
    requires
        text.len() > 0,
        all_digits(text),
    ensures
        ({
            let v = decimal_value(text);
            &&& v >= 0
            &&& number_with_type(text, DataType::U8) is Ok <==> v <= 0xff
            &&& v <= 0xff ==> number_with_type(text, DataType::U8) == Ok::<SpecExpression, crate::grammar::SpecParseError>(SpecExpression::LiteralU8(v as u8))
            &&& number_with_type(text, DataType::U16) is Ok <==> v <= 0xffff
            &&& v <= 0xffff ==> number_with_type(text, DataType::U16) == Ok::<SpecExpression, crate::grammar::SpecParseError>(SpecExpression::LiteralU16(v as u16))
            &&& number_with_type(text, DataType::U32) is Ok <==> v <= 0xffff_ffff
            &&& v <= 0xffff_ffff ==> number_with_type(text, DataType::U32) == Ok::<SpecExpression, crate::grammar::SpecParseError>(SpecExpression::LiteralU32(v as u32))
            &&& number_with_type(text, DataType::U64) is Ok <==> v <= 0xffff_ffff_ffff_ffff
            &&& v <= 0xffff_ffff_ffff_ffff ==> number_with_type(text, DataType::U64) == Ok::<SpecExpression, crate::grammar::SpecParseError>(SpecExpression::LiteralU64(v as u64))
            &&& number_with_type(text, DataType::I8) is Ok <==> v <= 0x7f
            &&& v <= 0x7f ==> number_with_type(text, DataType::I8) == Ok::<SpecExpression, crate::grammar::SpecParseError>(SpecExpression::LiteralI8(v as i8))
            &&& number_with_type(text, DataType::I16) is Ok <==> v <= 0x7fff
            &&& v <= 0x7fff ==> number_with_type(text, DataType::I16) == Ok::<SpecExpression, crate::grammar::SpecParseError>(SpecExpression::LiteralI16(v as i16))
            &&& number_with_type(text, DataType::I32) is Ok <==> v <= 0x7fff_ffff
            &&& v <= 0x7fff_ffff ==> number_with_type(text, DataType::I32) == Ok::<SpecExpression, crate::grammar::SpecParseError>(SpecExpression::LiteralI32(v as i32))
            &&& number_with_type(text, DataType::I64) is Ok <==> v <= 0x7fff_ffff_ffff_ffff
            &&& v <= 0x7fff_ffff_ffff_ffff ==> number_with_type(text, DataType::I64) == Ok::<SpecExpression, crate::grammar::SpecParseError>(SpecExpression::LiteralI64(v as i64))
        }),
{
    lemma_decimal_value_nonneg(text);
    assert(crate::text::is_digit_char(text[0]));
}

/// A number written with digits alone and read with no expected type is
/// the `i32` literal of its value when that fits an `i32`, else the `i64`
/// literal when it fits an `i64`, and is refused when it fits neither.
pub proof fn law_untyped_integer_read(text: Seq<char>)
    requires
        text.len() > 0,
        all_digits(text),
    ensures
        ({
            let v = decimal_value(text);
            let r = number_literal(text, None);
            &&& v <= 0x7fff_ffff ==> r == Ok::<SpecExpression, crate::grammar::SpecParseError>(SpecExpression::LiteralI32(v as i32))
            &&& 0x7fff_ffff < v <= 0x7fff_ffff_ffff_ffff ==> r == Ok::<SpecExpression, crate::grammar::SpecParseError>(SpecExpression::LiteralI64(v as i64))
            &&& v > 0x7fff_ffff_ffff_ffff ==> r is Err
        }),
{
    lemma_decimal_value_nonneg(text);
    assert(crate::text::is_digit_char(text[0]));
    assert(!text.contains('.')) by {
        if text.contains('.') {
            let k = choose|k: int| 0 <= k < text.len() && text[k] == '.';
            assert(crate::text::is_digit_char(text[k]));
        }
    }
}

/// Each type name reads as the data type it names: `bool` as `Bool`, `u8`
/// as `U8`, and so on for `i8`, `u16`, `i16`, `f16`, `u32`, `i32`, `f32`,
/// `u64`, `i64`, `f64`, `char` and `string`.
pub proof fn law_type_names(t: SpecToken)
    ensures
        t == SpecToken::Bool ==> crate::grammar::data_type(seq![t], 0) == Ok::<(DataType, int), (crate::grammar::SpecParseError, int)>((DataType::Bool, 1)),
        t == SpecToken::U8 ==> crate::grammar::data_type(seq![t], 0) == Ok::<(DataType, int), (crate::grammar::SpecParseError, int)>((DataType::U8, 1)),
        t == SpecToken::I8 ==> crate::grammar::data_type(seq![t], 0) == Ok::<(DataType, int), (crate::grammar::SpecParseError, int)>((DataType::I8, 1)),
        t == SpecToken::U16 ==> crate::grammar::data_type(seq![t], 0) == Ok::<(DataType, int), (crate::grammar::SpecParseError, int)>((DataType::U16, 1)),
        t == SpecToken::I16 ==> crate::grammar::data_type(seq![t], 0) == Ok::<(DataType, int), (crate::grammar::SpecParseError, int)>((DataType::I16, 1)),
        t == SpecToken::F16 ==> crate::grammar::data_type(seq![t], 0) == Ok::<(DataType, int), (crate::grammar::SpecParseError, int)>((DataType::F16, 1)),
        t == SpecToken::U32 ==> crate::grammar::data_type(seq![t], 0) == Ok::<(DataType, int), (crate::grammar::SpecParseError, int)>((DataType::U32, 1)),
        t == SpecToken::I32 ==> crate::grammar::data_type(seq![t], 0) == Ok::<(DataType, int), (crate::grammar::SpecParseError, int)>((DataType::I32, 1)),
        t == SpecToken::F32 ==> crate::grammar::data_type(seq![t], 0) == Ok::<(DataType, int), (crate::grammar::SpecParseError, int)>((DataType::F32, 1)),
        t == SpecToken::U64 ==> crate::grammar::data_type(seq![t], 0) == Ok::<(DataType, int), (crate::grammar::SpecParseError, int)>((DataType::U64, 1)),
        t == SpecToken::I64 ==> crate::grammar::data_type(seq![t], 0) == Ok::<(DataType, int), (crate::grammar::SpecParseError, int)>((DataType::I64, 1)),
        t == SpecToken::F64 ==> crate::grammar::data_type(seq![t], 0) == Ok::<(DataType, int), (crate::grammar::SpecParseError, int)>((DataType::F64, 1)),
        t == SpecToken::Char ==> crate::grammar::data_type(seq![t], 0) == Ok::<(DataType, int), (crate::grammar::SpecParseError, int)>((DataType::Char, 1)),
        t == SpecToken::String ==> crate::grammar::data_type(seq![t], 0) == Ok::<(DataType, int), (crate::grammar::SpecParseError, int)>((DataType::String, 1)),
{
}

/// `name++` reads as an increment of `name` and `name--` as a decrement,
/// each two tokens long.
pub proof fn law_step_statements(name: Seq<char>)
    ensures
        statement(seq![SpecToken::Identifier(name), SpecToken::Increment], 0)
            == Ok::<(SpecStatement, int), (crate::grammar::SpecParseError, int)>((SpecStatement::Increment { variable_name: name }, 2)),
        statement(seq![SpecToken::Identifier(name), SpecToken::Decrement], 0)
            == Ok::<(SpecStatement, int), (crate::grammar::SpecParseError, int)>((SpecStatement::Decrement { variable_name: name }, 2)),
{
}

} // verus!

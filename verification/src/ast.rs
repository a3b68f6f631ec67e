//! The syntax tree that the parser builds, and its mathematical model.
//!
//! Float literals are kept as their decimal text, which the parser has
//! checked against the standard library's float grammar; the machine value
//! of a literal is what the standard library reads from that text.

use vstd::prelude::*;

verus! {

/// The data types of the language.
#[derive(Clone, Copy, Debug, PartialEq, Eq, Structural)]
pub enum DataType {
    U8,
    I8,
    U16,
    I16,
    F16,
    U32,
    I32,
    F32,
    Bool,
    U64,
    I64,
    F64,
    Char,
    String,
}

impl View for DataType {
    type V = DataType;

    open spec fn view(&self) -> DataType {
        *self
    }
}

/// Arithmetic operators.
#[derive(Clone, Copy, Debug, PartialEq, Eq, Structural)]
pub enum BinaryOp {
    Plus,
    Minus,
    Multiply,
    Divide,
    Modulo,
    Power,
}

/// Prefix operators.
#[derive(Clone, Copy, Debug, PartialEq, Eq, Structural)]
pub enum UnaryOp {
    Negate,
    Not,
}

/// Comparison operators.
#[derive(Clone, Copy, Debug, PartialEq, Eq, Structural)]
pub enum ComparisonOp {
    Equals,
    NotEquals,
    LessThan,
    GreaterThan,
    LessThanEquals,
    GreaterThanEquals,
}

/// Logical connectives.
#[derive(Clone, Copy, Debug, PartialEq, Eq, Structural)]
pub enum LogicalOp {
    And,
    Or,
}

/// An expression.
#[derive(Debug, PartialEq)]
#[allow(inconsistent_fields)]
pub enum Expression {
    LiteralU8(u8),
    LiteralI8(i8),
    LiteralU16(u16),
    LiteralI16(i16),
    /// The decimal text of an `f16` literal.
    LiteralF16(String),
    LiteralU32(u32),
    LiteralI32(i32),
    /// The decimal text of an `f32` literal.
    LiteralF32(String),
    LiteralBool(bool),
    LiteralU64(u64),
    LiteralI64(i64),
    /// The decimal text of an `f64` literal.
    LiteralF64(String),
    LiteralChar(char),
    LiteralString(String),
    Variable(String),
    BinaryOp { op: BinaryOp, left: Box<Expression>, right: Box<Expression> },
    UnaryOp { op: UnaryOp, expression: Box<Expression> },
    FunctionCall { name: String, arguments: Vec<Expression> },
    FieldAccess { expression: Box<Expression>, field_name: String },
    ArrayAccess { array: Box<Expression>, index: Box<Expression> },
    Comparison { op: ComparisonOp, left: Box<Expression>, right: Box<Expression> },
    LogicalOp { op: LogicalOp, left: Box<Expression>, right: Box<Expression> },
    Cast { data_type: DataType, expression: Box<Expression> },
}

/// The model of an [`Expression`]: strings as character sequences, argument
/// lists as sequences.
#[allow(inconsistent_fields)]
pub enum SpecExpression {
    LiteralU8(u8),
    LiteralI8(i8),
    LiteralU16(u16),
    LiteralI16(i16),
    LiteralF16(Seq<char>),
    LiteralU32(u32),
    LiteralI32(i32),
    LiteralF32(Seq<char>),
    LiteralBool(bool),
    LiteralU64(u64),
    LiteralI64(i64),
    LiteralF64(Seq<char>),
    LiteralChar(char),
    LiteralString(Seq<char>),
    Variable(Seq<char>),
    BinaryOp { op: BinaryOp, left: Box<SpecExpression>, right: Box<SpecExpression> },
    UnaryOp { op: UnaryOp, expression: Box<SpecExpression> },
    FunctionCall { name: Seq<char>, arguments: Seq<SpecExpression> },
    FieldAccess { expression: Box<SpecExpression>, field_name: Seq<char> },
    ArrayAccess { array: Box<SpecExpression>, index: Box<SpecExpression> },
    Comparison { op: ComparisonOp, left: Box<SpecExpression>, right: Box<SpecExpression> },
    LogicalOp { op: LogicalOp, left: Box<SpecExpression>, right: Box<SpecExpression> },
    Cast { data_type: DataType, expression: Box<SpecExpression> },
}

/// The model of an expression.
pub open spec fn expression_view(e: Expression) -> SpecExpression
    decreases e,
{
    match e {
        Expression::LiteralU8(v) => SpecExpression::LiteralU8(v),
        Expression::LiteralI8(v) => SpecExpression::LiteralI8(v),
        Expression::LiteralU16(v) => SpecExpression::LiteralU16(v),
        Expression::LiteralI16(v) => SpecExpression::LiteralI16(v),
        Expression::LiteralF16(s) => SpecExpression::LiteralF16(s@),
        Expression::LiteralU32(v) => SpecExpression::LiteralU32(v),
        Expression::LiteralI32(v) => SpecExpression::LiteralI32(v),
        Expression::LiteralF32(s) => SpecExpression::LiteralF32(s@),
        Expression::LiteralBool(v) => SpecExpression::LiteralBool(v),
        Expression::LiteralU64(v) => SpecExpression::LiteralU64(v),
        Expression::LiteralI64(v) => SpecExpression::LiteralI64(v),
        Expression::LiteralF64(s) => SpecExpression::LiteralF64(s@),
        Expression::LiteralChar(v) => SpecExpression::LiteralChar(v),
        Expression::LiteralString(s) => SpecExpression::LiteralString(s@),
        Expression::Variable(s) => SpecExpression::Variable(s@),
        Expression::BinaryOp { op, left, right } => SpecExpression::BinaryOp {
            op,
            left: Box::new(expression_view(*left)),
            right: Box::new(expression_view(*right)),
        },
        Expression::UnaryOp { op, expression } => SpecExpression::UnaryOp {
            op,
            expression: Box::new(expression_view(*expression)),
        },
        Expression::FunctionCall { name, arguments } => SpecExpression::FunctionCall {
            name: name@,
            arguments: Seq::new(
                arguments@.len(),
                |i: int|
                    if 0 <= i < arguments@.len() {
                        expression_view(arguments@[i])
                    } else {
                        SpecExpression::LiteralBool(false)
                    },
            ),
        },
        Expression::FieldAccess { expression, field_name } => SpecExpression::FieldAccess {
            expression: Box::new(expression_view(*expression)),
            field_name: field_name@,
        },
        Expression::ArrayAccess { array, index } => SpecExpression::ArrayAccess {
            array: Box::new(expression_view(*array)),
            index: Box::new(expression_view(*index)),
        },
        Expression::Comparison { op, left, right } => SpecExpression::Comparison {
            op,
            left: Box::new(expression_view(*left)),
            right: Box::new(expression_view(*right)),
        },
        Expression::LogicalOp { op, left, right } => SpecExpression::LogicalOp {
            op,
            left: Box::new(expression_view(*left)),
            right: Box::new(expression_view(*right)),
        },
        Expression::Cast { data_type, expression } => SpecExpression::Cast {
            data_type,
            expression: Box::new(expression_view(*expression)),
        },
    }
}

impl View for Expression {
    type V = SpecExpression;

    open spec fn view(&self) -> SpecExpression {
        expression_view(*self)
    }
}

/// The models of a sequence of expressions.
pub open spec fn expressions_view(es: Seq<Expression>) -> Seq<SpecExpression> {
    es.map_values(|e: Expression| e@)
}

/// A statement.
#[derive(Debug, PartialEq)]
pub enum Statement {
    Declaration { data_type: DataType, variable_name: String, expression: Expression },
    Assignment { variable_name: String, expression: Expression },
    Increment { variable_name: String },
    Decrement { variable_name: String },
    If {
        condition: Expression,
        then_branch: Vec<Statement>,
        elif_branches: Vec<(Expression, Vec<Statement>)>,
        else_branch: Option<Vec<Statement>>,
    },
    For {
        initialization: Box<Statement>,
        condition: Expression,
        increment: Box<Statement>,
        body: Vec<Statement>,
    },
    While { condition: Expression, body: Vec<Statement> },
    FunctionCall { name: String, arguments: Vec<Expression> },
    Return { expression: Expression },
}

/// The model of a [`Statement`].
pub enum SpecStatement {
    Declaration { data_type: DataType, variable_name: Seq<char>, expression: SpecExpression },
    Assignment { variable_name: Seq<char>, expression: SpecExpression },
    Increment { variable_name: Seq<char> },
    Decrement { variable_name: Seq<char> },
    If {
        condition: SpecExpression,
        then_branch: Seq<SpecStatement>,
        elif_branches: Seq<(SpecExpression, Seq<SpecStatement>)>,
        else_branch: Option<Seq<SpecStatement>>,
    },
    For {
        initialization: Box<SpecStatement>,
        condition: SpecExpression,
        increment: Box<SpecStatement>,
        body: Seq<SpecStatement>,
    },
    While { condition: SpecExpression, body: Seq<SpecStatement> },
    FunctionCall { name: Seq<char>, arguments: Seq<SpecExpression> },
    Return { expression: SpecExpression },
}

/// The models of a sequence of statements.
pub open spec fn statements_view(ss: Seq<Statement>) -> Seq<SpecStatement>
    decreases ss, 1int,
{
    Seq::new(
        ss.len(),
        |i: int|
            if 0 <= i < ss.len() {
                statement_view(ss[i])
            } else {
                SpecStatement::Increment { variable_name: Seq::empty() }
            },
    )
}

/// The model of a statement.
pub open spec fn statement_view(s: Statement) -> SpecStatement
    decreases s, 0int,
{
    match s {
        Statement::Declaration { data_type, variable_name, expression } =>
            SpecStatement::Declaration { data_type, variable_name: variable_name@, expression: expression@ },
        Statement::Assignment { variable_name, expression } =>
            SpecStatement::Assignment { variable_name: variable_name@, expression: expression@ },
        Statement::Increment { variable_name } => SpecStatement::Increment { variable_name: variable_name@ },
        Statement::Decrement { variable_name } => SpecStatement::Decrement { variable_name: variable_name@ },
        Statement::If { condition, then_branch, elif_branches, else_branch } => SpecStatement::If {
            condition: condition@,
            then_branch: statements_view(then_branch@),
            elif_branches: Seq::new(
                elif_branches@.len(),
                |i: int|
                    if 0 <= i < elif_branches@.len() {
                        (elif_branches@[i].0@, statements_view(elif_branches@[i].1@))
                    } else {
                        (SpecExpression::LiteralBool(false), Seq::empty())
                    },
            ),
            else_branch: match else_branch {
                Some(b) => Some(statements_view(b@)),
                None => None,
            },
        },
        Statement::For { initialization, condition, increment, body } => SpecStatement::For {
            initialization: Box::new(statement_view(*initialization)),
            condition: condition@,
            increment: Box::new(statement_view(*increment)),
            body: statements_view(body@),
        },
        Statement::While { condition, body } =>
            SpecStatement::While { condition: condition@, body: statements_view(body@) },
        Statement::FunctionCall { name, arguments } =>
            SpecStatement::FunctionCall { name: name@, arguments: expressions_view(arguments@) },
        Statement::Return { expression } => SpecStatement::Return { expression: expression@ },
    }
}

impl View for Statement {
    type V = SpecStatement;

    open spec fn view(&self) -> SpecStatement {
        statement_view(*self)
    }
}

/// A function declaration.
#[derive(Debug, PartialEq)]
pub struct FunctionDeclaration {
    pub name: String,
    pub parameters: Vec<(DataType, String)>,
    /// The declared return type, if any.
    pub return_type: Option<DataType>,
    pub body: Vec<Statement>,
}

/// The model of a [`FunctionDeclaration`].
pub struct SpecFunctionDeclaration {
    pub name: Seq<char>,
    pub parameters: Seq<(DataType, Seq<char>)>,
    pub return_type: Option<DataType>,
    pub body: Seq<SpecStatement>,
}

/// The models of a parameter list.
pub open spec fn parameters_view(ps: Seq<(DataType, String)>) -> Seq<(DataType, Seq<char>)> {
    ps.map_values(|p: (DataType, String)| (p.0, p.1@))
}

impl View for FunctionDeclaration {
    type V = SpecFunctionDeclaration;

    open spec fn view(&self) -> SpecFunctionDeclaration {
        SpecFunctionDeclaration {
            name: self.name@,
            parameters: parameters_view(self.parameters@),
            return_type: self.return_type,
            body: statements_view(self.body@),
        }
    }
}

/// An item at the top level of a program.
#[derive(Debug, PartialEq)]
pub enum TopLevel {
    Function(FunctionDeclaration),
}

/// The model of a [`TopLevel`] item.
pub enum SpecTopLevel {
    Function(SpecFunctionDeclaration),
}

impl View for TopLevel {
    type V = SpecTopLevel;

    open spec fn view(&self) -> SpecTopLevel {
        match self {
            TopLevel::Function(f) => SpecTopLevel::Function(f@),
        }
    }
}

/// The models of a sequence of top-level items.
pub open spec fn top_levels_view(ts: Seq<TopLevel>) -> Seq<SpecTopLevel> {
    ts.map_values(|t: TopLevel| t@)
}

} // verus!

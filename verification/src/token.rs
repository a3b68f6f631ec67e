//! Tokens produced by the lexer and read by the parser.

use vstd::prelude::*;

verus! {

/// A lexical token of the language.
///
/// Float literals are kept as their decimal text; their machine value is
/// whatever the standard library's float parser makes of that text.
#[derive(Debug, Clone, PartialEq)]
pub enum Token {
    /// fn
    Fn,
    /// if
    If,
    /// else
    Else,
    /// elif
    Elif,
    /// for
    For,
    /// while
    While,
    /// return
    Return,
    /// true
    True,
    /// false
    False,
    /// bool
    Bool,
    /// string
    String,
    /// char
    Char,
    /// u8
    U8,
    /// i8
    I8,
    /// u16
    U16,
    /// i16
    I16,
    /// f16
    F16,
    /// u32
    U32,
    /// i32
    I32,
    /// f32
    F32,
    /// u64
    U64,
    /// i64
    I64,
    /// f64
    F64,
    /// variable names, function names
    Identifier(String),
    /// boolean literal
    LiteralBool(bool),
    /// char literal
    LiteralChar(char),
    /// string literal
    LiteralString(String),
    /// 8-bit unsigned integer literal
    LiteralU8(u8),
    /// 8-bit signed integer literal
    LiteralI8(i8),
    /// 16-bit unsigned integer literal
    LiteralU16(u16),
    /// 16-bit signed integer literal
    LiteralI16(i16),
    /// 16-bit float literal, kept as its decimal text
    LiteralF16(String),
    /// 32-bit unsigned integer literal
    LiteralU32(u32),
    /// 32-bit signed integer literal
    LiteralI32(i32),
    /// 32-bit float literal, kept as its decimal text
    LiteralF32(String),
    /// number literal as written: digits and dots
    LiteralNumber(String),
    /// =
    Assign,
    /// +
    Plus,
    /// -
    Minus,
    /// *
    Multiply,
    /// /
    Divide,
    /// %
    Modulo,
    /// **
    Power,
    /// !
    Bang,
    /// ==
    Equals,
    /// !=
    NotEquals,
    /// <
    LessThan,
    /// >
    GreaterThan,
    /// <=
    LessThanEquals,
    /// >=
    GreaterThanEquals,
    /// &&
    And,
    /// ||
    Or,
    /// ++
    Increment,
    /// +=
    PlusEquals,
    /// --
    Decrement,
    /// -=
    MinusEquals,
    /// *=
    TimesEquals,
    /// /=
    DivideEquals,
    /// (
    OpenParen,
    /// )
    CloseParen,
    /// {
    OpenBrace,
    /// }
    CloseBrace,
    /// [
    OpenBracket,
    /// ]
    CloseBracket,
    /// ,
    Comma,
    /// -> (function return types)
    Arrow,
    /// end of input
    EOF,
}

/// The mathematical model of a [`Token`]: the same variants, with every
/// string payload seen as its sequence of characters.
pub enum SpecToken {
    Fn,
    If,
    Else,
    Elif,
    For,
    While,
    Return,
    True,
    False,
    Bool,
    String,
    Char,
    U8,
    I8,
    U16,
    I16,
    F16,
    U32,
    I32,
    F32,
    U64,
    I64,
    F64,
    Identifier(Seq<char>),
    LiteralBool(bool),
    LiteralChar(char),
    LiteralString(Seq<char>),
    LiteralU8(u8),
    LiteralI8(i8),
    LiteralU16(u16),
    LiteralI16(i16),
    LiteralF16(Seq<char>),
    LiteralU32(u32),
    LiteralI32(i32),
    LiteralF32(Seq<char>),
    LiteralNumber(Seq<char>),
    Assign,
    Plus,
    Minus,
    Multiply,
    Divide,
    Modulo,
    Power,
    Bang,
    Equals,
    NotEquals,
    LessThan,
    GreaterThan,
    LessThanEquals,
    GreaterThanEquals,
    And,
    Or,
    Increment,
    PlusEquals,
    Decrement,
    MinusEquals,
    TimesEquals,
    DivideEquals,
    OpenParen,
    CloseParen,
    OpenBrace,
    CloseBrace,
    OpenBracket,
    CloseBracket,
    Comma,
    Arrow,
    EOF,
}

impl View for Token {
    type V = SpecToken;

    open spec fn view(&self) -> SpecToken {
        match self {
            Token::Fn => SpecToken::Fn,
            Token::If => SpecToken::If,
            Token::Else => SpecToken::Else,
            Token::Elif => SpecToken::Elif,
            Token::For => SpecToken::For,
            Token::While => SpecToken::While,
            Token::Return => SpecToken::Return,
            Token::True => SpecToken::True,
            Token::False => SpecToken::False,
            Token::Bool => SpecToken::Bool,
            Token::String => SpecToken::String,
            Token::Char => SpecToken::Char,
            Token::U8 => SpecToken::U8,
            Token::I8 => SpecToken::I8,
            Token::U16 => SpecToken::U16,
            Token::I16 => SpecToken::I16,
            Token::F16 => SpecToken::F16,
            Token::U32 => SpecToken::U32,
            Token::I32 => SpecToken::I32,
            Token::F32 => SpecToken::F32,
            Token::U64 => SpecToken::U64,
            Token::I64 => SpecToken::I64,
            Token::F64 => SpecToken::F64,
            Token::Identifier(s) => SpecToken::Identifier(s@),
            Token::LiteralBool(v) => SpecToken::LiteralBool(*v),
            Token::LiteralChar(v) => SpecToken::LiteralChar(*v),
            Token::LiteralString(s) => SpecToken::LiteralString(s@),
            Token::LiteralU8(v) => SpecToken::LiteralU8(*v),
            Token::LiteralI8(v) => SpecToken::LiteralI8(*v),
            Token::LiteralU16(v) => SpecToken::LiteralU16(*v),
            Token::LiteralI16(v) => SpecToken::LiteralI16(*v),
            Token::LiteralF16(s) => SpecToken::LiteralF16(s@),
            Token::LiteralU32(v) => SpecToken::LiteralU32(*v),
            Token::LiteralI32(v) => SpecToken::LiteralI32(*v),
            Token::LiteralF32(s) => SpecToken::LiteralF32(s@),
            Token::LiteralNumber(s) => SpecToken::LiteralNumber(s@),
            Token::Assign => SpecToken::Assign,
            Token::Plus => SpecToken::Plus,
            Token::Minus => SpecToken::Minus,
            Token::Multiply => SpecToken::Multiply,
            Token::Divide => SpecToken::Divide,
            Token::Modulo => SpecToken::Modulo,
            Token::Power => SpecToken::Power,
            Token::Bang => SpecToken::Bang,
            Token::Equals => SpecToken::Equals,
            Token::NotEquals => SpecToken::NotEquals,
            Token::LessThan => SpecToken::LessThan,
            Token::GreaterThan => SpecToken::GreaterThan,
            Token::LessThanEquals => SpecToken::LessThanEquals,
            Token::GreaterThanEquals => SpecToken::GreaterThanEquals,
            Token::And => SpecToken::And,
            Token::Or => SpecToken::Or,
            Token::Increment => SpecToken::Increment,
            Token::PlusEquals => SpecToken::PlusEquals,
            Token::Decrement => SpecToken::Decrement,
            Token::MinusEquals => SpecToken::MinusEquals,
            Token::TimesEquals => SpecToken::TimesEquals,
            Token::DivideEquals => SpecToken::DivideEquals,
            Token::OpenParen => SpecToken::OpenParen,
            Token::CloseParen => SpecToken::CloseParen,
            Token::OpenBrace => SpecToken::OpenBrace,
            Token::CloseBrace => SpecToken::CloseBrace,
            Token::OpenBracket => SpecToken::OpenBracket,
            Token::CloseBracket => SpecToken::CloseBracket,
            Token::Comma => SpecToken::Comma,
            Token::Arrow => SpecToken::Arrow,
            Token::EOF => SpecToken::EOF,
        }
    }
}

impl Token {
    /// A copy of this token.
    pub fn duplicate(&self) -> (r: Token)
        ensures
            r@ == self@,
    {
        match self {
            Token::Fn => Token::Fn,
            Token::If => Token::If,
            Token::Else => Token::Else,
            Token::Elif => Token::Elif,
            Token::For => Token::For,
            Token::While => Token::While,
            Token::Return => Token::Return,
            Token::True => Token::True,
            Token::False => Token::False,
            Token::Bool => Token::Bool,
            Token::String => Token::String,
            Token::Char => Token::Char,
            Token::U8 => Token::U8,
            Token::I8 => Token::I8,
            Token::U16 => Token::U16,
            Token::I16 => Token::I16,
            Token::F16 => Token::F16,
            Token::U32 => Token::U32,
            Token::I32 => Token::I32,
            Token::F32 => Token::F32,
            Token::U64 => Token::U64,
            Token::I64 => Token::I64,
            Token::F64 => Token::F64,
            Token::Identifier(s) => Token::Identifier(s.clone()),
            Token::LiteralBool(v) => Token::LiteralBool(*v),
            Token::LiteralChar(v) => Token::LiteralChar(*v),
            Token::LiteralString(s) => Token::LiteralString(s.clone()),
            Token::LiteralU8(v) => Token::LiteralU8(*v),
            Token::LiteralI8(v) => Token::LiteralI8(*v),
            Token::LiteralU16(v) => Token::LiteralU16(*v),
            Token::LiteralI16(v) => Token::LiteralI16(*v),
            Token::LiteralF16(s) => Token::LiteralF16(s.clone()),
            Token::LiteralU32(v) => Token::LiteralU32(*v),
            Token::LiteralI32(v) => Token::LiteralI32(*v),
            Token::LiteralF32(s) => Token::LiteralF32(s.clone()),
            Token::LiteralNumber(s) => Token::LiteralNumber(s.clone()),
            Token::Assign => Token::Assign,
            Token::Plus => Token::Plus,
            Token::Minus => Token::Minus,
            Token::Multiply => Token::Multiply,
            Token::Divide => Token::Divide,
            Token::Modulo => Token::Modulo,
            Token::Power => Token::Power,
            Token::Bang => Token::Bang,
            Token::Equals => Token::Equals,
            Token::NotEquals => Token::NotEquals,
            Token::LessThan => Token::LessThan,
            Token::GreaterThan => Token::GreaterThan,
            Token::LessThanEquals => Token::LessThanEquals,
            Token::GreaterThanEquals => Token::GreaterThanEquals,
            Token::And => Token::And,
            Token::Or => Token::Or,
            Token::Increment => Token::Increment,
            Token::PlusEquals => Token::PlusEquals,
            Token::Decrement => Token::Decrement,
            Token::MinusEquals => Token::MinusEquals,
            Token::TimesEquals => Token::TimesEquals,
            Token::DivideEquals => Token::DivideEquals,
            Token::OpenParen => Token::OpenParen,
            Token::CloseParen => Token::CloseParen,
            Token::OpenBrace => Token::OpenBrace,
            Token::CloseBrace => Token::CloseBrace,
            Token::OpenBracket => Token::OpenBracket,
            Token::CloseBracket => Token::CloseBracket,
            Token::Comma => Token::Comma,
            Token::Arrow => Token::Arrow,
            Token::EOF => Token::EOF,
        }
    }

    /// Whether two tokens are the same token, payload included.
    pub fn same_as(&self, other: &Token) -> (r: bool)
        ensures
            r == (self@ == other@),
    {
        match self {
            Token::Fn => match other { Token::Fn => true, _ => false },
            Token::If => match other { Token::If => true, _ => false },
            Token::Else => match other { Token::Else => true, _ => false },
            Token::Elif => match other { Token::Elif => true, _ => false },
            Token::For => match other { Token::For => true, _ => false },
            Token::While => match other { Token::While => true, _ => false },
            Token::Return => match other { Token::Return => true, _ => false },
            Token::True => match other { Token::True => true, _ => false },
            Token::False => match other { Token::False => true, _ => false },
            Token::Bool => match other { Token::Bool => true, _ => false },
            Token::String => match other { Token::String => true, _ => false },
            Token::Char => match other { Token::Char => true, _ => false },
            Token::U8 => match other { Token::U8 => true, _ => false },
            Token::I8 => match other { Token::I8 => true, _ => false },
            Token::U16 => match other { Token::U16 => true, _ => false },
            Token::I16 => match other { Token::I16 => true, _ => false },
            Token::F16 => match other { Token::F16 => true, _ => false },
            Token::U32 => match other { Token::U32 => true, _ => false },
            Token::I32 => match other { Token::I32 => true, _ => false },
            Token::F32 => match other { Token::F32 => true, _ => false },
            Token::U64 => match other { Token::U64 => true, _ => false },
            Token::I64 => match other { Token::I64 => true, _ => false },
            Token::F64 => match other { Token::F64 => true, _ => false },
            Token::Identifier(x) => match other { Token::Identifier(y) => *x == *y, _ => false },
            Token::LiteralBool(x) => match other { Token::LiteralBool(y) => *x == *y, _ => false },
            Token::LiteralChar(x) => match other { Token::LiteralChar(y) => *x == *y, _ => false },
            Token::LiteralString(x) => match other { Token::LiteralString(y) => *x == *y, _ => false },
            Token::LiteralU8(x) => match other { Token::LiteralU8(y) => *x == *y, _ => false },
            Token::LiteralI8(x) => match other { Token::LiteralI8(y) => *x == *y, _ => false },
            Token::LiteralU16(x) => match other { Token::LiteralU16(y) => *x == *y, _ => false },
            Token::LiteralI16(x) => match other { Token::LiteralI16(y) => *x == *y, _ => false },
            Token::LiteralF16(x) => match other { Token::LiteralF16(y) => *x == *y, _ => false },
            Token::LiteralU32(x) => match other { Token::LiteralU32(y) => *x == *y, _ => false },
            Token::LiteralI32(x) => match other { Token::LiteralI32(y) => *x == *y, _ => false },
            Token::LiteralF32(x) => match other { Token::LiteralF32(y) => *x == *y, _ => false },
            Token::LiteralNumber(x) => match other { Token::LiteralNumber(y) => *x == *y, _ => false },
            Token::Assign => match other { Token::Assign => true, _ => false },
            Token::Plus => match other { Token::Plus => true, _ => false },
            Token::Minus => match other { Token::Minus => true, _ => false },
            Token::Multiply => match other { Token::Multiply => true, _ => false },
            Token::Divide => match other { Token::Divide => true, _ => false },
            Token::Modulo => match other { Token::Modulo => true, _ => false },
            Token::Power => match other { Token::Power => true, _ => false },
            Token::Bang => match other { Token::Bang => true, _ => false },
            Token::Equals => match other { Token::Equals => true, _ => false },
            Token::NotEquals => match other { Token::NotEquals => true, _ => false },
            Token::LessThan => match other { Token::LessThan => true, _ => false },
            Token::GreaterThan => match other { Token::GreaterThan => true, _ => false },
            Token::LessThanEquals => match other { Token::LessThanEquals => true, _ => false },
            Token::GreaterThanEquals => match other { Token::GreaterThanEquals => true, _ => false },
            Token::And => match other { Token::And => true, _ => false },
            Token::Or => match other { Token::Or => true, _ => false },
            Token::Increment => match other { Token::Increment => true, _ => false },
            Token::PlusEquals => match other { Token::PlusEquals => true, _ => false },
            Token::Decrement => match other { Token::Decrement => true, _ => false },
            Token::MinusEquals => match other { Token::MinusEquals => true, _ => false },
            Token::TimesEquals => match other { Token::TimesEquals => true, _ => false },
            Token::DivideEquals => match other { Token::DivideEquals => true, _ => false },
            Token::OpenParen => match other { Token::OpenParen => true, _ => false },
            Token::CloseParen => match other { Token::CloseParen => true, _ => false },
            Token::OpenBrace => match other { Token::OpenBrace => true, _ => false },
            Token::CloseBrace => match other { Token::CloseBrace => true, _ => false },
            Token::OpenBracket => match other { Token::OpenBracket => true, _ => false },
            Token::CloseBracket => match other { Token::CloseBracket => true, _ => false },
            Token::Comma => match other { Token::Comma => true, _ => false },
            Token::Arrow => match other { Token::Arrow => true, _ => false },
            Token::EOF => match other { Token::EOF => true, _ => false },
        }
    }
}

} // verus!


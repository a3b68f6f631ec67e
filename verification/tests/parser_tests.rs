use piru::ast::{
    BinaryOp, ComparisonOp, DataType, Expression, FunctionDeclaration, LogicalOp, Statement, TopLevel,
    UnaryOp,
};
use piru::lexer::Tokenizer;
use piru::parser::{ParseError, Parser};
use piru::token::Token;

fn tokens(code: &str) -> Vec<Token> {
    Tokenizer::new(code).tokenize().unwrap()
}

fn parse(code: &str) -> Result<Vec<TopLevel>, ParseError> {
    Parser::new(tokens(code)).parse()
}

/// The body of the only function of `code`.
fn body(code: &str) -> Vec<Statement> {
    let mut program = parse(code).unwrap();
    assert_eq!(program.len(), 1);
    match program.remove(0) {
        TopLevel::Function(f) => f.body,
    }
}

/// The expression returned by `fn f() { return(<expr>) }`.
fn returned(expr: &str) -> Expression {
    let mut statements = body(&format!("fn f() {{ return({}) }}", expr));
    assert_eq!(statements.len(), 1);
    match statements.remove(0) {
        Statement::Return { expression } => expression,
        other => panic!("not a return: {:?}", other),
    }
}

fn var(name: &str) -> Expression {
    Expression::Variable(name.to_string())
}

fn i32_lit(v: i32) -> Expression {
    Expression::LiteralI32(v)
}

fn bin(op: BinaryOp, left: Expression, right: Expression) -> Expression {
    Expression::BinaryOp { op, left: Box::new(left), right: Box::new(right) }
}

#[test]
fn empty_input_is_an_empty_program() {
    assert_eq!(Parser::new(vec![]).parse(), Ok(vec![]));
    assert_eq!(Parser::new(vec![Token::EOF, Token::Fn]).parse(), Ok(vec![]));
}

#[test]
fn a_function_with_declarations_and_a_return() {
    let program = parse("fn main() { u8 my_u8 = 123 i32 my_i32 = 456 f32 my_f32 = 3.14 return(my_i32) }").unwrap();
    assert_eq!(
        program,
        vec![TopLevel::Function(FunctionDeclaration {
            name: "main".to_string(),
            parameters: vec![],
            return_type: None,
            body: vec![
                Statement::Declaration {
                    data_type: DataType::U8,
                    variable_name: "my_u8".to_string(),
                    expression: Expression::LiteralU8(123),
                },
                Statement::Declaration {
                    data_type: DataType::I32,
                    variable_name: "my_i32".to_string(),
                    expression: Expression::LiteralI32(456),
                },
                Statement::Declaration {
                    data_type: DataType::F32,
                    variable_name: "my_f32".to_string(),
                    expression: Expression::LiteralF32("3.14".to_string()),
                },
                Statement::Return { expression: var("my_i32") },
            ],
        })]
    );
}

#[test]
fn the_compilers_own_program_fails_at_the_semicolon() {
    let code = "fn main() { u8 my_u8 = 123; i32 my_i32 = 456; f32 my_f32 = 3.14; return(my_i32); }";
    assert_eq!(parse(code), Err(ParseError::ExpectedStatement(None)));
}

#[test]
fn parameters_and_return_type() {
    let program = parse("fn add(i32 a, u8 b) -> i32 { return(a + b) }").unwrap();
    assert_eq!(
        program,
        vec![TopLevel::Function(FunctionDeclaration {
            name: "add".to_string(),
            parameters: vec![(DataType::I32, "a".to_string()), (DataType::U8, "b".to_string())],
            return_type: Some(DataType::I32),
            body: vec![Statement::Return { expression: bin(BinaryOp::Plus, var("a"), var("b")) }],
        })]
    );
}

#[test]
fn several_functions() {
    let program = parse("fn a() { } fn b() { }").unwrap();
    assert_eq!(program.len(), 2);
}

#[test]
fn multiplication_binds_tighter_than_addition() {
    assert_eq!(
        returned("1 + 2 * 3"),
        bin(BinaryOp::Plus, i32_lit(1), bin(BinaryOp::Multiply, i32_lit(2), i32_lit(3)))
    );
    assert_eq!(
        returned("(1 + 2) * 3"),
        bin(BinaryOp::Multiply, bin(BinaryOp::Plus, i32_lit(1), i32_lit(2)), i32_lit(3))
    );
}

#[test]
fn operators_group_to_the_left() {
    assert_eq!(
        returned("1 - 2 - 3"),
        bin(BinaryOp::Minus, bin(BinaryOp::Minus, i32_lit(1), i32_lit(2)), i32_lit(3))
    );
    assert_eq!(
        returned("8 / 4 % 3"),
        bin(BinaryOp::Modulo, bin(BinaryOp::Divide, i32_lit(8), i32_lit(4)), i32_lit(3))
    );
}

#[test]
fn comparison_and_logic() {
    let expected = Expression::LogicalOp {
        op: LogicalOp::Or,
        left: Box::new(Expression::LogicalOp {
            op: LogicalOp::And,
            left: Box::new(Expression::Comparison {
                op: ComparisonOp::LessThan,
                left: Box::new(var("a")),
                right: Box::new(var("b")),
            }),
            right: Box::new(Expression::Comparison {
                op: ComparisonOp::GreaterThanEquals,
                left: Box::new(var("c")),
                right: Box::new(i32_lit(1)),
            }),
        }),
        right: Box::new(var("d")),
    };
    assert_eq!(returned("a < b && c >= 1 || d"), expected);
}

#[test]
fn prefix_operators() {
    assert_eq!(
        returned("-!x"),
        Expression::UnaryOp {
            op: UnaryOp::Negate,
            expression: Box::new(Expression::UnaryOp { op: UnaryOp::Not, expression: Box::new(var("x")) }),
        }
    );
}

#[test]
fn literals_without_a_declared_type() {
    assert_eq!(returned("true"), Expression::LiteralBool(true));
    assert_eq!(returned("false"), Expression::LiteralBool(false));
    assert_eq!(returned("'c'"), Expression::LiteralChar('c'));
    assert_eq!(returned("\"s\""), Expression::LiteralString("s".to_string()));
    assert_eq!(returned("2147483647"), Expression::LiteralI32(2147483647));
    assert_eq!(returned("2147483648"), Expression::LiteralI64(2147483648));
    assert_eq!(returned("3.5"), Expression::LiteralF64("3.5".to_string()));
}

#[test]
fn numbers_that_fit_no_type() {
    let body_tokens = |n: &str| Parser::new(tokens(&format!("fn f() {{ return({}) }}", n))).parse();
    assert_eq!(
        body_tokens("99999999999999999999"),
        Err(ParseError::InvalidIntegerLiteral("99999999999999999999".to_string()))
    );
    assert_eq!(body_tokens("1.2.3"), Err(ParseError::InvalidFloatLiteral("1.2.3".to_string())));
}

#[test]
fn declared_types_give_number_literals_their_type() {
    let decl = |code: &str| match body(&format!("fn f() {{ {} }}", code)).remove(0) {
        Statement::Declaration { expression, .. } => expression,
        other => panic!("not a declaration: {:?}", other),
    };
    assert_eq!(decl("u8 x = 255"), Expression::LiteralU8(255));
    assert_eq!(decl("i8 x = 127"), Expression::LiteralI8(127));
    assert_eq!(decl("u16 x = 65535"), Expression::LiteralU16(65535));
    assert_eq!(decl("i16 x = 32767"), Expression::LiteralI16(32767));
    assert_eq!(decl("u32 x = 4294967295"), Expression::LiteralU32(4294967295));
    assert_eq!(decl("u64 x = 18446744073709551615"), Expression::LiteralU64(18446744073709551615));
    assert_eq!(decl("i64 x = 9223372036854775807"), Expression::LiteralI64(9223372036854775807));
    assert_eq!(decl("f16 x = 1.5"), Expression::LiteralF16("1.5".to_string()));
    assert_eq!(decl("f64 x = 2"), Expression::LiteralF64("2".to_string()));
    assert_eq!(decl("bool x = 1"), Expression::LiteralBool(true));
    assert_eq!(decl("bool x = 0"), Expression::LiteralBool(false));
    assert_eq!(
        decl("i8 x = -5"),
        Expression::UnaryOp { op: UnaryOp::Negate, expression: Box::new(Expression::LiteralI8(5)) }
    );
    assert_eq!(
        decl("u8 x = (2 + 3)"),
        bin(BinaryOp::Plus, Expression::LiteralU8(2), Expression::LiteralU8(3))
    );
}

#[test]
fn number_literals_out_of_their_type() {
    let err = |code: &str| Parser::new(tokens(&format!("fn f() {{ {} }}", code))).parse().unwrap_err();
    assert_eq!(
        err("u8 x = 256"),
        ParseError::InvalidLiteral { data_type: DataType::U8, text: "256".to_string() }
    );
    assert_eq!(
        err("i8 x = 128"),
        ParseError::InvalidLiteral { data_type: DataType::I8, text: "128".to_string() }
    );
    assert_eq!(
        err("f32 x = 1.2.3"),
        ParseError::InvalidLiteral { data_type: DataType::F32, text: "1.2.3".to_string() }
    );
    assert_eq!(err("bool x = 2"), ParseError::InvalidBoolLiteral("2".to_string()));
    assert_eq!(err("char x = 1"), ParseError::UnsupportedLiteralType(DataType::Char));
    assert_eq!(err("string x = 1"), ParseError::UnsupportedLiteralType(DataType::String));
}

#[test]
fn assignment_increment_decrement_and_calls() {
    assert_eq!(
        body("fn f() { x = 1 x++ y-- print(x, 2) g() }"),
        vec![
            Statement::Assignment { variable_name: "x".to_string(), expression: i32_lit(1) },
            Statement::Increment { variable_name: "x".to_string() },
            Statement::Decrement { variable_name: "y".to_string() },
            Statement::FunctionCall { name: "print".to_string(), arguments: vec![var("x"), i32_lit(2)] },
            Statement::FunctionCall { name: "g".to_string(), arguments: vec![] },
        ]
    );
}

#[test]
fn calls_inside_expressions() {
    assert_eq!(
        returned("max(a, 1 + 2)"),
        Expression::FunctionCall {
            name: "max".to_string(),
            arguments: vec![var("a"), bin(BinaryOp::Plus, i32_lit(1), i32_lit(2))],
        }
    );
}

#[test]
fn if_elif_else() {
    assert_eq!(
        body("fn f() { if (a) { x++ } elif (b) { y++ } elif (c) { } else { z++ } }"),
        vec![Statement::If {
            condition: var("a"),
            then_branch: vec![Statement::Increment { variable_name: "x".to_string() }],
            elif_branches: vec![
                (var("b"), vec![Statement::Increment { variable_name: "y".to_string() }]),
                (var("c"), vec![]),
            ],
            else_branch: Some(vec![Statement::Increment { variable_name: "z".to_string() }]),
        }]
    );
}

#[test]
fn while_and_for_loops() {
    assert_eq!(
        body("fn f() { while (i < 10) { i++ } for (i32 i = 0 i < 3 i++) { g(i) } }"),
        vec![
            Statement::While {
                condition: Expression::Comparison {
                    op: ComparisonOp::LessThan,
                    left: Box::new(var("i")),
                    right: Box::new(i32_lit(10)),
                },
                body: vec![Statement::Increment { variable_name: "i".to_string() }],
            },
            Statement::For {
                initialization: Box::new(Statement::Declaration {
                    data_type: DataType::I32,
                    variable_name: "i".to_string(),
                    expression: i32_lit(0),
                }),
                condition: Expression::Comparison {
                    op: ComparisonOp::LessThan,
                    left: Box::new(var("i")),
                    right: Box::new(i32_lit(3)),
                },
                increment: Box::new(Statement::Increment { variable_name: "i".to_string() }),
                body: vec![Statement::FunctionCall { name: "g".to_string(), arguments: vec![var("i")] }],
            },
        ]
    );
}

#[test]
fn errors_name_what_was_expected() {
    assert_eq!(parse("x"), Err(ParseError::ExpectedTopLevel(Some(Token::Identifier("x".to_string())))));
    assert_eq!(parse("fn ( ) { }"), Err(ParseError::ExpectedFunctionName(Some(Token::OpenParen))));
    assert_eq!(parse("fn"), Err(ParseError::ExpectedFunctionName(None)));
    assert_eq!(
        parse("fn f { }"),
        Err(ParseError::Expected { expected: Token::OpenParen, found: Token::OpenBrace })
    );
    assert_eq!(parse("fn f("), Err(ParseError::ExpectedDataType));
    assert_eq!(parse("fn f(x) { }"), Err(ParseError::InvalidDataType(Token::Identifier("x".to_string()))));
    assert_eq!(parse("fn f(i32) { }"), Err(ParseError::ExpectedParameterName(Some(Token::CloseParen))));
    assert_eq!(parse("fn f() { i32 = 1 }"), Err(ParseError::ExpectedVariableName(Some(Token::Assign))));
    assert_eq!(
        parse("fn f() { x y }"),
        Err(ParseError::UnexpectedTokenAfterIdentifier(Some(Token::Identifier("y".to_string()))))
    );
    assert_eq!(parse("fn f() { x"), Err(ParseError::UnexpectedTokenAfterIdentifier(None)));
    assert_eq!(parse("fn f() { ( }"), Err(ParseError::ExpectedStatement(Some(Token::OpenParen))));
    assert_eq!(
        parse("fn f() { return(,) }"),
        Err(ParseError::UnexpectedTokenInExpression(Some(Token::Comma)))
    );
    assert_eq!(parse("fn f() { return("), Err(ParseError::UnexpectedTokenInExpression(None)));
    assert_eq!(parse("fn f() { return(1"), Err(ParseError::ExpectedButEof { expected: Token::CloseParen }));
    assert_eq!(parse("fn f() { }  fn"), Err(ParseError::ExpectedFunctionName(None)));
}

#[test]
fn an_expected_type_alone_decides_how_a_number_is_read() {
    let err = |code: &str| Parser::new(tokens(&format!("fn f() {{ {} }}", code))).parse().unwrap_err();
    assert_eq!(
        err("i32 x = 1.5"),
        ParseError::InvalidLiteral { data_type: DataType::I32, text: "1.5".to_string() }
    );
    assert_eq!(
        err("u64 x = 2.0"),
        ParseError::InvalidLiteral { data_type: DataType::U64, text: "2.0".to_string() }
    );
}

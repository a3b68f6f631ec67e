use piru::lexer::{LexError, Tokenizer};
use piru::token::Token;

fn lex(code: &str) -> Result<Vec<Token>, LexError> {
    let mut tokenizer = Tokenizer::new(code);
    tokenizer.tokenize()
}

fn ident(s: &str) -> Token {
    Token::Identifier(s.to_string())
}

fn number(s: &str) -> Token {
    Token::LiteralNumber(s.to_string())
}

#[test]
fn program_of_the_compiler_stops_at_the_first_semicolon() {
    let code = "fn main() { u8 my_u8 = 123; i32 my_i32 = 456; f32 my_f32 = 3.14; return(my_i32); }";
    let tokens = lex(code).unwrap();
    assert_eq!(
        tokens,
        vec![
            Token::Fn,
            ident("main"),
            Token::OpenParen,
            Token::CloseParen,
            Token::OpenBrace,
            Token::U8,
            ident("my_u8"),
            Token::Assign,
            number("123"),
        ]
    );
}

#[test]
fn operators_take_the_longest_match() {
    let tokens = lex("== = ++ += + -- -= -> - ** *= * /= / % != ! <= < >= > && ||").unwrap();
    assert_eq!(
        tokens,
        vec![
            Token::Equals,
            Token::Assign,
            Token::Increment,
            Token::PlusEquals,
            Token::Plus,
            Token::Decrement,
            Token::MinusEquals,
            Token::Arrow,
            Token::Minus,
            Token::Power,
            Token::TimesEquals,
            Token::Multiply,
            Token::DivideEquals,
            Token::Divide,
            Token::Modulo,
            Token::NotEquals,
            Token::Bang,
            Token::LessThanEquals,
            Token::LessThan,
            Token::GreaterThanEquals,
            Token::GreaterThan,
            Token::And,
            Token::Or,
        ]
    );
}

#[test]
fn delimiters() {
    let tokens = lex("( ) { } [ ] ,").unwrap();
    assert_eq!(
        tokens,
        vec![
            Token::OpenParen,
            Token::CloseParen,
            Token::OpenBrace,
            Token::CloseBrace,
            Token::OpenBracket,
            Token::CloseBracket,
            Token::Comma,
        ]
    );
}

#[test]
fn operators_need_no_spaces() {
    let tokens = lex("a+=b--(c)").unwrap();
    assert_eq!(
        tokens,
        vec![ident("a"), Token::PlusEquals, ident("b"), Token::Decrement, Token::OpenParen, ident("c"), Token::CloseParen]
    );
}

#[test]
fn every_keyword() {
    let tokens = lex(
        "fn if else elif for while return true false bool string char u8 i8 u16 i16 f16 u32 i32 f32 u64 i64 f64",
    )
    .unwrap();
    assert_eq!(
        tokens,
        vec![
            Token::Fn,
            Token::If,
            Token::Else,
            Token::Elif,
            Token::For,
            Token::While,
            Token::Return,
            Token::True,
            Token::False,
            Token::Bool,
            Token::String,
            Token::Char,
            Token::U8,
            Token::I8,
            Token::U16,
            Token::I16,
            Token::F16,
            Token::U32,
            Token::I32,
            Token::F32,
            Token::U64,
            Token::I64,
            Token::F64,
        ]
    );
}

#[test]
fn words_that_start_with_a_keyword_are_identifiers() {
    let tokens = lex("fnx iff u88 returned my_var2 x_").unwrap();
    assert_eq!(
        tokens,
        vec![ident("fnx"), ident("iff"), ident("u88"), ident("returned"), ident("my_var2"), ident("x_")]
    );
}

#[test]
fn numbers_keep_their_digits_and_dots() {
    let tokens = lex("3.14 1.2.3 42 7.").unwrap();
    assert_eq!(tokens, vec![number("3.14"), number("1.2.3"), number("42"), number("7.")]);
}

#[test]
fn string_and_char_literals() {
    let tokens = lex("\"hello world\" 'x' \"\"").unwrap();
    assert_eq!(
        tokens,
        vec![
            Token::LiteralString("hello world".to_string()),
            Token::LiteralChar('x'),
            Token::LiteralString(String::new()),
        ]
    );
}

#[test]
fn line_comments_are_skipped() {
    let tokens = lex("a // a comment ( ) {\nb // to the end").unwrap();
    assert_eq!(tokens, vec![ident("a"), ident("b")]);
}

#[test]
fn a_character_that_starts_no_token_ends_the_input() {
    let tokens = lex("a @ b").unwrap();
    assert_eq!(tokens, vec![ident("a")]);
    let tokens = lex("_x").unwrap();
    assert_eq!(tokens, Vec::<Token>::new());
}

#[test]
fn whitespace_alone_is_the_end() {
    assert_eq!(lex("  \n\t  ").unwrap(), Vec::<Token>::new());
    assert_eq!(lex("").unwrap(), Vec::<Token>::new());
    let mut tokenizer = Tokenizer::new("   ");
    assert_eq!(tokenizer.next_token(), Token::EOF);
    assert_eq!(tokenizer.next_token(), Token::EOF);
}

#[test]
fn a_single_ampersand_or_bar_is_an_error() {
    assert_eq!(lex("a & b"), Err(LexError::UnexpectedCharacter('&')));
    assert_eq!(lex("a |"), Err(LexError::UnexpectedCharacter('|')));
}

#[test]
fn an_unterminated_string_is_an_error() {
    assert_eq!(lex("x = \"abc"), Err(LexError::UnterminatedString));
}

#[test]
fn a_malformed_char_literal_is_an_error() {
    assert_eq!(lex("'ab'"), Err(LexError::InvalidCharLiteral));
    assert_eq!(lex("'a"), Err(LexError::InvalidCharLiteral));
    assert_eq!(lex("'"), Err(LexError::ExpectedCharacter));
}

#[test]
fn next_token_error_tells_when_next_token_may_be_called() {
    let mut tokenizer = Tokenizer::new("x && y & z");
    assert_eq!(tokenizer.next_token_error(), None);
    assert_eq!(tokenizer.next_token(), ident("x"));
    assert_eq!(tokenizer.next_token_error(), None);
    assert_eq!(tokenizer.next_token(), Token::And);
    assert_eq!(tokenizer.next_token(), ident("y"));
    assert_eq!(tokenizer.next_token_error(), Some(LexError::UnexpectedCharacter('&')));
}

#[test]
fn next_token_reads_one_token_at_a_time() {
    let mut tokenizer = Tokenizer::new("return(x)");
    assert_eq!(tokenizer.next_token(), Token::Return);
    assert_eq!(tokenizer.next_token(), Token::OpenParen);
    assert_eq!(tokenizer.next_token(), ident("x"));
    assert_eq!(tokenizer.next_token(), Token::CloseParen);
    assert_eq!(tokenizer.next_token(), Token::EOF);
}

#[test]
fn non_ascii_letters_make_identifiers() {
    let tokens = lex("größe = 1").unwrap();
    assert_eq!(tokens, vec![ident("größe"), Token::Assign, number("1")]);
}

#[test]
fn unicode_whitespace_separates_tokens() {
    let tokens = lex("a\u{3000}b\u{85}c\u{a0}d\u{2009}e\u{b}f").unwrap();
    assert_eq!(tokens, vec![ident("a"), ident("b"), ident("c"), ident("d"), ident("e"), ident("f")]);
}

#[test]
fn which_whitespace_separates_tokens_makes_no_difference() {
    let tight = lex("fn f(i32 x) -> i32 { return(x + 1) }").unwrap();
    let loose = lex("  fn\tf(i32\n\n x)  ->  i32\r\n{ return( x\u{3000}+ 1 ) }\n").unwrap();
    assert_eq!(tight, loose);
    let mut joined = lex("x = 1").unwrap();
    joined.extend(lex("y++").unwrap());
    assert_eq!(lex("x = 1 \t y++").unwrap(), joined);
}

#[test]
fn after_the_input_every_call_is_eof() {
    let mut tokenizer = Tokenizer::new("a b");
    assert_eq!(tokenizer.next_token(), ident("a"));
    assert_eq!(tokenizer.next_token(), ident("b"));
    for _ in 0..5 {
        assert_eq!(tokenizer.next_token(), Token::EOF);
    }
}

#[test]
fn reading_goes_on_after_a_character_that_starts_no_token() {
    let mut tokenizer = Tokenizer::new("a @ b");
    assert_eq!(tokenizer.next_token(), ident("a"));
    assert_eq!(tokenizer.next_token(), Token::EOF);
    assert_eq!(tokenizer.next_token(), ident("b"));
    assert_eq!(tokenizer.next_token(), Token::EOF);
}

#[test]
fn a_failure_before_whitespace_is_the_same_whatever_the_whitespace() {
    assert_eq!(lex("a & b"), Err(LexError::UnexpectedCharacter('&')));
    assert_eq!(lex("a &\t\u{3000}\nb"), Err(LexError::UnexpectedCharacter('&')));
    assert_eq!(lex("x | "), lex("x |\r\n"));
}

#[test]
fn try_next_token_reads_or_reports() {
    let mut tokenizer = Tokenizer::new("x & y");
    assert_eq!(tokenizer.try_next_token(), Ok(ident("x")));
    assert_eq!(tokenizer.try_next_token(), Err(LexError::UnexpectedCharacter('&')));
    assert_eq!(tokenizer.try_next_token(), Err(LexError::UnexpectedCharacter('&')));
    let mut tokenizer = Tokenizer::new("'a' '");
    assert_eq!(tokenizer.try_next_token(), Ok(Token::LiteralChar('a')));
    assert_eq!(tokenizer.try_next_token(), Err(LexError::ExpectedCharacter));
    let mut tokenizer = Tokenizer::new("");
    assert_eq!(tokenizer.try_next_token(), Ok(Token::EOF));
}

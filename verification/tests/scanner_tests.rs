use lox::error::LexicalError;
use lox::number::Number;
use lox::scanner::Scanner;
use lox::token::{Operator, Structure, TokenKind};

#[test]
fn tokenise_symbols() {
    let input = "{ } ( ) , . - + ; *";
    let mut scanner = Scanner::new(input);
    let tokens: Vec<_> = scanner
        .scan_all()
        .into_iter()
        .map(|token| token.unwrap().kind)
        .collect();

    let expected = [
        TokenKind::Structure(Structure::LeftBrace),
        TokenKind::Structure(Structure::RightBrace),
        TokenKind::Structure(Structure::LeftParen),
        TokenKind::Structure(Structure::RightParen),
        TokenKind::Structure(Structure::Comma),
        TokenKind::Structure(Structure::Dot),
        TokenKind::Operator(Operator::Minus),
        TokenKind::Operator(Operator::Plus),
        TokenKind::Structure(Structure::SemiColon),
        TokenKind::Operator(Operator::Star),
    ];

    assert_eq!(&expected[..], &tokens[..]);
}

#[test]
fn tokenise_compound_symbols() {
    let mut scanner = Scanner::new("== != <= >=");

    let tokens: Vec<_> = scanner
        .scan_all()
        .into_iter()
        .map(|token| token.unwrap().kind)
        .collect();

    let expected = [
        Operator::EqualEqual,
        Operator::BangEqual,
        Operator::LessEqual,
        Operator::GreaterEqual,
    ]
    .map(TokenKind::Operator);

    assert_eq!(&expected[..], &tokens[..]);
}

#[test]
fn tokenise_ignoring_comments() {
    let input = r#"
        // this is a comment
        ({ })
        "#;

    let mut scanner = Scanner::new(input);

    let tokens: Vec<_> = scanner
        .scan_all()
        .into_iter()
        .map(|token| token.unwrap().kind)
        .collect();

    let expected = [
        Structure::LeftParen,
        Structure::LeftBrace,
        Structure::RightBrace,
        Structure::RightParen,
    ]
    .map(TokenKind::Structure);

    assert_eq!(&expected[..], &tokens[..]);
}

#[test]
fn parse_strings() {
    let mut scanner = Scanner::new("\"hello\" \"world\"");

    let tokens: Vec<_> = scanner
        .scan_all()
        .into_iter()
        .map(|token| token.unwrap().kind)
        .collect();

    let expected = ["hello", "world"].map(TokenKind::String);

    assert_eq!(&expected[..], &tokens[..]);
}

#[test]
fn parse_unterminated_string() {
    let mut scanner = Scanner::new("\"hello\" \"world");

    let tokens: Vec<_> = scanner
        .scan_all()
        .into_iter()
        .map(|r| r.map(|t| t.kind))
        .collect();

    let expected = [
        Ok(TokenKind::String("hello")),
        Err(LexicalError::UnterminatedString(1, 9)),
    ];

    assert_eq!(&expected[..], &tokens[..]);
}

#[test]
fn parse_int() {
    let mut scanner = Scanner::new("123");
    let tokens: Vec<_> = scanner
        .scan_all()
        .into_iter()
        .map(|t| t.unwrap().kind)
        .collect();

    let expected = [TokenKind::Number(Number::from_int(123))];

    assert_eq!(tokens[..], expected[..])
}

#[test]
fn parse_float() {
    let mut scanner = Scanner::new("420.69");
    let tokens: Vec<_> = scanner
        .scan_all()
        .into_iter()
        .map(|t| t.unwrap().kind)
        .collect();

    let expected = [TokenKind::Number(Number::new(42069, 100))];

    assert_eq!(tokens[..], expected[..])
}

#[test]
fn lex_some_complex_code() {
    let input = r#"
fun hello(name) {
    print "hello ";
    print name;
    var cond = true;
    if (cond) {
        print 123 + 456;
    }
}
"#
    .trim();
    let mut scanner = Scanner::new(input);
    let tokens: Vec<_> = scanner
        .scan_all()
        .into_iter()
        .collect::<Result<Vec<_>, _>>()
        .unwrap();

    for token in tokens {
        println!("{token:?}")
    }
}

#[test]
fn scanner_parse_strings() {
    let mut scanner = Scanner::new("\"hello\" \"world\"");

    let tokens: Vec<_> = scanner
        .scan_all()
        .into_iter()
        .map(|token| token.unwrap().kind)
        .collect();

    let expected = ["hello", "world"].map(TokenKind::String);

    assert_eq!(&expected[..], &tokens[..]);
}

#[test]
fn scanner_parse_unterminated_string() {
    let mut scanner = Scanner::new("\"hello\" \"world");

    let tokens: Vec<_> = scanner
        .scan_all()
        .into_iter()
        .map(|r| r.map(|t| t.kind))
        .collect();

    let expected = [
        Ok(TokenKind::String("hello")),
        Err(LexicalError::UnterminatedString(1, 9)),
    ];

    assert_eq!(&expected[..], &tokens[..]);
}

#[test]
fn scanner_parse_int() {
    let mut scanner = Scanner::new("123");
    let tokens: Vec<_> = scanner
        .scan_all()
        .into_iter()
        .map(|t| t.unwrap().kind)
        .collect();

    let expected = [TokenKind::Number(Number::from_int(123))];

    assert_eq!(tokens[..], expected[..])
}

#[test]
fn scanner_parse_float() {
    let mut scanner = Scanner::new("420.69");
    let tokens: Vec<_> = scanner
        .scan_all()
        .into_iter()
        .map(|t| t.unwrap().kind)
        .collect();

    let expected = [TokenKind::Number(Number::new(42069, 100))];

    assert_eq!(tokens[..], expected[..])
}

#[test]
fn scanner_lex_some_complex_code() {
    let input = r#"
fun hello(name) {
    print "hello ";
    print name;
}
        "#;
    let mut scanner = Scanner::new(input);
    let tokens: Vec<_> = scanner
        .scan_all()
        .into_iter()
        .collect::<Result<Vec<_>, _>>()
        .unwrap();

    for token in tokens {
        println!("{token:?}")
    }
}

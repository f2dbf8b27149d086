use lox::error::{InterpreterError, LexicalError, LoxParserError};
use lox::printer::{ASTPrinter, LispAstPrinter};
use lox::syntax::{BinOp, Binary, Expr, Grouping, Literal as AstLiteral, UnOp, Unary};
use lox::interpreter::Interpreter;
use lox::lexer::{Symbol, Tokens};
use lox::number::Number;
use lox::parser::Parser;
use lox::printer::SExpr;
use lox::scanner::Scanner;
use lox::token::{Keyword, LangToken, Literal, Operator, Structure, TokenKind, TokenMeta};
use lox::value::Value;
use lox::Lox;

#[test]
fn precedence_multiplication_before_addition_before_equality() {
    let mut lox = Lox::new();
    let value = lox.run("1 + 2 * 3 == 7").unwrap();
    assert_eq!(value, Value::Bool(true));
}

#[test]
fn string_concatenation_then_equality() {
    let mut lox = Lox::new();
    let value = lox.run("\"hello, \" + \"world!\" == \"hello, world!\"").unwrap();
    assert_eq!(value, Value::Bool(true));
}

#[test]
fn add_number_and_string_names_the_left_operand() {
    let mut lox = Lox::new();
    let err = lox.run("1 + \"x\"").unwrap_err();
    assert!(matches!(
        err,
        InterpreterError::TypeError(Value::Number(n)) if n == Number::from_int(1)
    ));
    assert_eq!(err.message(), "Type error: 1");
}

#[test]
fn add_string_and_number_names_the_string_operand() {
    let mut lox = Lox::new();
    let err = lox.run("\"x\" + 1").unwrap_err();
    assert!(matches!(err, InterpreterError::TypeError(Value::String(s)) if s == "x"));
}

#[test]
fn division_by_zero_is_an_error() {
    let mut lox = Lox::new();
    let err = lox.run("1 / 0").unwrap_err();
    assert!(matches!(err, InterpreterError::DivisionByZero));
    assert_eq!(err.message(), "Division by zero");
}

#[test]
fn addition_overflow_is_an_error() {
    let mut lox = Lox::new();
    let err = lox.run("9223372036854775807 + 1").unwrap_err();
    assert!(matches!(err, InterpreterError::ArithmeticOverflow));
}

#[test]
fn oversized_literal_is_a_number_parse_error() {
    let mut lox = Lox::new();
    let err = lox.run("99999999999999999999").unwrap_err();
    assert!(matches!(
        err,
        InterpreterError::ParserError(LoxParserError::LexicalError(
            LexicalError::ParseNumberError(1, 1)
        ))
    ));
}

#[test]
fn identifier_evaluation_is_an_undefined_reference() {
    let mut lox = Lox::new();
    let err = lox.run("foo").unwrap_err();
    assert!(matches!(err, InterpreterError::UndefinedReference(name) if name == "foo"));
}

#[test]
fn var_statement_is_rejected_as_unsupported() {
    let err = Parser::new("var x;").parse().unwrap_err();
    assert_eq!(err, LoxParserError::Unsupported);
}

#[test]
fn missing_semicolon_is_a_structural_error() {
    let err = Parser::new("123").parse().unwrap_err();
    assert_eq!(err, LoxParserError::EndOfFileConsume);

    let err = Parser::new("123 456;").parse().unwrap_err();
    assert_eq!(err, LoxParserError::BadStructure(None));
}

#[test]
fn missing_close_paren_is_a_structural_error() {
    let err = Parser::new("(1 + 2").parse_expression().unwrap_err();
    assert_eq!(err, LoxParserError::EndOfFileConsume);

    let err = Parser::new("(1 + 2;").parse_expression().unwrap_err();
    assert_eq!(err, LoxParserError::BadStructure(None));
}

#[test]
fn leading_operator_is_a_bad_operator() {
    let err = Parser::new("* 1").parse_expression().unwrap_err();
    assert_eq!(err, LoxParserError::BadOperator(Some(Operator::Star)));
}

#[test]
fn exhausted_input_is_end_of_file() {
    let err = Parser::new("1 +").parse_expression().unwrap_err();
    assert_eq!(err, LoxParserError::EndOfFile);
}

#[test]
fn logical_operators_evaluate_truthiness() {
    let mut lox = Lox::new();
    assert_eq!(lox.run("true and false").unwrap(), Value::Bool(false));
    assert_eq!(lox.run("true or false").unwrap(), Value::Bool(true));
    assert_eq!(lox.run("!nil").unwrap(), Value::Bool(true));
    assert_eq!(lox.run("!0").unwrap(), Value::Bool(false));
}

#[test]
fn cross_variant_equality_is_false_not_an_error() {
    let mut lox = Lox::new();
    assert_eq!(lox.run("1 == \"1\"").unwrap(), Value::Bool(false));
    assert_eq!(lox.run("1 != \"1\"").unwrap(), Value::Bool(true));
    assert_eq!(lox.run("nil == nil").unwrap(), Value::Bool(true));
}

#[test]
fn numbers_compare_as_exact_rationals() {
    let mut lox = Lox::new();
    assert_eq!(lox.run("1 / 2 == 2 / 4").unwrap(), Value::Bool(true));
    assert_eq!(lox.run("1 / 3 < 1 / 2").unwrap(), Value::Bool(true));
    assert_eq!(lox.run("0.5 == 1 / 2").unwrap(), Value::Bool(true));
    assert_eq!(lox.run("2 >= 2").unwrap(), Value::Bool(true));
}

#[test]
fn number_text_renders_decimals_exactly() {
    assert_eq!(Number::from_int(7).text(), "7");
    assert_eq!(Number::new(42069, 100).text(), "420.69");
    assert_eq!(Number::new(-5, 10).text(), "-0.5");
    assert_eq!(Number::new(45670, 1000).text(), "45.67");
    assert_eq!(Number::new(420, 10).text(), "42");
    assert_eq!(Number::new(1, 3).text(), "1/3");
}

#[test]
fn value_render_follows_the_number_text() {
    let mut lox = Lox::new();
    assert_eq!(lox.run("2 / 4").unwrap().render(), "2/4");
    assert_eq!(lox.run("1 + 2").unwrap().render(), "3");
    assert_eq!(lox.run("\"hi\"").unwrap().render(), "hi");
    assert_eq!(lox.run("nil").unwrap().render(), "nil");
}

#[test]
fn scanning_twice_yields_identical_token_sequences() {
    let input = "print 1 + 2; // comment\n\"s\" 4.25 foo";
    let first: Vec<_> = Scanner::new(input).scan_all();
    let second: Vec<_> = Scanner::new(input).scan_all();
    assert_eq!(first, second);
}

#[test]
fn parsing_twice_yields_structurally_identical_trees() {
    let input = "true == (1 + 2) * 3;";
    let first = Parser::new(input).parse().unwrap();
    let second = Parser::new(input).parse().unwrap();
    assert_eq!(first.len(), second.len());
    assert_eq!(
        first[0].display_lisp().render(),
        second[0].display_lisp().render()
    );
}

#[test]
fn identifiers_continue_over_alphanumerics() {
    let mut scanner = Scanner::new("hello world123");
    let kinds: Vec<_> = scanner
        .scan_all()
        .into_iter()
        .map(|t| t.unwrap().kind)
        .collect();
    assert_eq!(
        kinds,
        vec![
            TokenKind::Identifier("hello"),
            TokenKind::Identifier("world123"),
        ]
    );
}

#[test]
fn words_classify_into_operators_literals_and_keywords() {
    let input = "and or true false nil class else fun for if print return super this var while id";
    let mut scanner = Scanner::new(input);
    let kinds: Vec<_> = scanner
        .scan_all()
        .into_iter()
        .map(|t| t.unwrap().kind)
        .collect();
    assert_eq!(
        kinds,
        vec![
            TokenKind::Operator(Operator::And),
            TokenKind::Operator(Operator::Or),
            TokenKind::Literal(Literal::True),
            TokenKind::Literal(Literal::False),
            TokenKind::Literal(Literal::Nil),
            TokenKind::Keyword(Keyword::Class),
            TokenKind::Keyword(Keyword::Else),
            TokenKind::Keyword(Keyword::Fun),
            TokenKind::Keyword(Keyword::For),
            TokenKind::Keyword(Keyword::If),
            TokenKind::Keyword(Keyword::Print),
            TokenKind::Keyword(Keyword::Return),
            TokenKind::Keyword(Keyword::Super),
            TokenKind::Keyword(Keyword::This),
            TokenKind::Keyword(Keyword::Var),
            TokenKind::Keyword(Keyword::While),
            TokenKind::Identifier("id"),
        ]
    );
}

#[test]
fn token_positions_track_rows_and_columns() {
    let mut scanner = Scanner::new("a\n bb");
    let metas: Vec<TokenMeta> = scanner
        .scan_all()
        .into_iter()
        .map(|t| t.unwrap().meta)
        .collect();
    assert_eq!(metas, vec![TokenMeta { row: 1, col: 1 }, TokenMeta { row: 2, col: 2 }]);
}

#[test]
fn unexpected_char_reports_its_own_position() {
    let mut scanner = Scanner::new("ab #");
    let items = scanner.scan_all();
    assert_eq!(
        items[1..],
        vec![Err(LexicalError::UnexpectedChar('#', 1, 4))]
    );
}

#[test]
fn string_literals_may_span_lines_and_print_escaped() {
    let expr = Parser::new("\"a\nb\"").parse_expression().unwrap();
    assert_eq!(SExpr::new(&expr).render(), "\"a\\nb\"");
}

#[test]
fn error_messages_carry_position_and_kind() {
    assert_eq!(
        LexicalError::UnterminatedString(1, 9).message(),
        "[1:9] starts a string that is not terminated"
    );
    assert_eq!(
        LexicalError::UnexpectedChar('#', 1, 4).message(),
        "[1:4] LexicalError: Unexpected '#'"
    );
    assert_eq!(
        LexicalError::ParseNumberError(2, 7).message(),
        "[2:7] is an invalid number"
    );
    assert_eq!(
        LoxParserError::BadOperator(Some(Operator::Star)).message(),
        "ParserError: BadOperator *"
    );
    assert_eq!(
        InterpreterError::TooManyArgs.message(),
        "Error: Too many arguments"
    );
}

#[test]
fn interpreter_error_equality_holds_only_for_too_many_args() {
    assert_eq!(InterpreterError::TooManyArgs, InterpreterError::TooManyArgs);
    assert_ne!(
        InterpreterError::DivisionByZero,
        InterpreterError::DivisionByZero
    );
}

#[test]
fn interpret_collects_printed_lines_in_order() {
    let statements = Parser::new("print 1 + 1; 4; print \"hi\";").parse().unwrap();
    let mut interpreter = Interpreter::new();
    let lines = interpreter.interpret(&statements).unwrap();
    assert_eq!(lines, vec!["2".to_string(), "hi".to_string()]);
}

#[test]
fn interpret_stops_at_the_first_error() {
    let statements = Parser::new("print 1; print 1 + nil; print 2;").parse().unwrap();
    let mut interpreter = Interpreter::new();
    let err = interpreter.interpret(&statements).unwrap_err();
    assert!(matches!(err, InterpreterError::TypeError(Value::Nil)));
}

#[test]
fn negation_requires_a_number() {
    let mut lox = Lox::new();
    let err = lox.run("-\"x\"").unwrap_err();
    assert!(matches!(err, InterpreterError::TypeError(Value::String(_))));
}

#[test]
fn flat_token_stream_maps_every_fixed_lexeme_to_a_symbol() {
    let mut tokens = Tokens::new("print 1.5;");
    let first = tokens.next().unwrap();
    assert!(matches!(first.kind, lox::lexer::TokenKind::Symbol(Symbol::Print)));
    assert_eq!(first.line, 1);
    let second = tokens.next().unwrap();
    assert!(
        matches!(second.kind, lox::lexer::TokenKind::Number(n) if n == Number::new(15, 10))
    );
    let third = tokens.next().unwrap();
    assert!(matches!(third.kind, lox::lexer::TokenKind::Symbol(Symbol::Semicolon)));
    assert!(tokens.next().is_none());
}

#[test]
fn fixed_lexemes_render_their_spelling() {
    assert_eq!(Structure::LeftParen.text(), "(");
    assert_eq!(Operator::BangEqual.text(), "!=");
    assert_eq!(Keyword::While.text(), "while");
    assert_eq!(Literal::Nil.text(), "nil");
    assert_eq!(LangToken::Operator(Operator::And).text(), "and");
    assert_eq!(lox::syntax::BinOp::Le.text(), "<=");
    assert_eq!(lox::syntax::UnOp::Not.text(), "!");
}

#[test]
fn values_compare_by_the_language_rules() {
    assert_eq!(
        Value::Number(Number::new(1, 2)),
        Value::Number(Number::new(2, 4))
    );
    assert_ne!(Value::Number(Number::from_int(1)), Value::Bool(true));
    assert_eq!(Value::String("a".into()), Value::String("a".into()));
}

#[test]
fn print_statements_render_with_their_own_form() {
    let statements = Parser::new("print 1 + 2;").parse().unwrap();
    assert_eq!(statements[0].display_lisp().render(), "(print (+ 1 2))");
}

#[test]
fn flat_token_stream_stops_at_the_first_lexical_error() {
    let mut tokens = Tokens::new("1 # 2");
    let first = tokens.next().unwrap();
    assert!(matches!(first.kind, lox::lexer::TokenKind::Number(n) if n == Number::from_int(1)));
    assert!(tokens.next().is_none());
}

#[test]
fn printer_visit_methods_render_each_node_kind() {
    let mut printer = ASTPrinter {};
    let binary = Binary {
        left: Expr::from_number(Number::from_int(1)),
        operator: BinOp::Add,
        right: Expr::from_number(Number::from_int(2)),
    };
    assert_eq!(printer.visit_binary(&binary), "(+ 1 2)");
    let group = Grouping {
        expression: Expr::from_bool(true),
    };
    assert_eq!(printer.visit_group(&group), "(group true)");
    assert_eq!(printer.visit_literal(&AstLiteral::Nil), "nil");
    let unary = Unary {
        operator: UnOp::Not,
        expression: Expr::from_bool(false),
    };
    assert_eq!(printer.visit_unary(&unary), "(! false)");

    let mut lisp = LispAstPrinter {};
    assert_eq!(lisp.visit_print(&Expr::from_nil()), "(print nil)");
    assert_eq!(lisp.visit_expr(&Expr::from_ident("x".into())), "`x`");
}

use lox::parser::Parser;
use lox::printer::SExpr;
use lox::syntax::Stmt;

#[test]
fn parse_number() {
    let input = "123.456";
    let expected = "123.456";

    let expr = Parser::new(input).parse_expression().unwrap();
    assert_eq!(expected, SExpr::new(&expr).render());
}

#[test]
fn parse_nested_expression() {
    let input = "true == (123 > 42 == -4 + 6 / (4 - 2))";
    let expected = "(== true (group (== (> 123 42) (+ (- 4) (/ 6 (group (- 4 2)))))))";

    let expr = Parser::new(input).parse_expression().unwrap();
    assert_eq!(expected, SExpr::new(&expr).render());
}

#[test]
fn parse_double_unary() {
    let input = "!-123";
    let expected = "(! (- 123))";

    let expr = Parser::new(input).parse_expression().unwrap();
    assert_eq!(expected, SExpr::new(&expr).render());
}

#[test]
fn parser_parse_number() {
    let input = "123.456;";
    let expected = "123.456";

    let syntax = Parser::new(input).parse().unwrap();
    assert_eq!(expected, syntax[0].display_lisp().render());
}

#[test]
fn parser_parse_nested_expression() {
    let input = "true == (123 > 42 == -4 + 6 / (4 - 2));";
    let expected = "(== true (group (== (> 123 42) (+ (- 4) (/ 6 (group (- 4 2)))))))";

    let syntax = Parser::new(input).parse().unwrap();
    assert_eq!(expected, syntax[0].display_lisp().render());
}

#[test]
fn parser_parse_double_unary() {
    let input = "!-123;";
    let expected = "(! (- 123))";

    let syntax = Parser::new(input).parse().unwrap();
    assert_eq!(expected, syntax[0].display_lisp().render());
}

#[test]
fn new_parser_parse_number() {
    let input = "123.456";
    let expected = "123.456";

    let expr = Parser::new(input)
        .parse_expression()
        .expect("Successful parse of number");
    let syntax = vec![Stmt::Expr(expr)];
    assert_eq!(expected, syntax[0].display_lisp().render());
}

#[test]
fn new_parser_parse_nested_expression() {
    let input = "true == (123 > 42 == -4 + 6 / (4 - 2))";
    let expected = "(== true (group (== (> 123 42) (+ (- 4) (/ 6 (group (- 4 2)))))))";

    let expr = Parser::new(input)
        .parse_expression()
        .expect("Parse nested expression");
    let syntax = vec![Stmt::Expr(expr)];
    assert_eq!(expected, syntax[0].display_lisp().render());
}

#[test]
fn new_parser_parse_double_unary() {
    let input = "!-123";
    let expected = "(! (- 123))";

    let expr = Parser::new(input).parse_expression().unwrap();
    let syntax = vec![Stmt::Expr(expr)];
    assert_eq!(expected, syntax[0].display_lisp().render());
}

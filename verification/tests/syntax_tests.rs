use lox::number::Number;
use lox::printer::Lisp;
use lox::syntax::{BinOp, Expr, Stmt, UnOp};

#[test]
fn debug_expression_tree() {
    let e1 = Expr::from_unary(UnOp::Neg, Expr::from_number(Number::from_int(123)));
    let e2 = Expr::from_grouping(Expr::from_number(Number::new(4567, 100)));
    let expr = Expr::from_binary(e1, BinOp::Mul, e2);
    let stmt = Stmt::Expr(expr);
    let s_expr = Lisp::new(&stmt);

    let expected = "(* (- 123) (group 45.67))";

    assert_eq!(s_expr.render(), expected);
}

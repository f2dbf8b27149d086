//! The expression and statement trees the parser builds and the evaluator
//! walks.

use vstd::prelude::*;

use crate::number::Number;

verus! {

/// The closed set of binary operators.
#[derive(Debug, PartialEq, Eq, Structural, Clone, Copy)]
pub enum BinOp {
    Eq,
    Ne,
    Lt,
    Gt,
    Le,
    Ge,
    Add,
    Sub,
    Mul,
    Div,
    And,
    Or,
}

/// The spelling of a binary operator.
pub open spec fn binop_text(op: BinOp) -> Seq<char> {
    match op {
        BinOp::Eq => "=="@,
        BinOp::Ne => "!="@,
        BinOp::Lt => "<"@,
        BinOp::Gt => ">"@,
        BinOp::Le => "<="@,
        BinOp::Ge => ">="@,
        BinOp::Add => "+"@,
        BinOp::Sub => "-"@,
        BinOp::Mul => "*"@,
        BinOp::Div => "/"@,
        BinOp::And => "and"@,
        BinOp::Or => "or"@,
    }
}

impl BinOp {
    /// Renders the operator's spelling.
    pub fn text(&self) -> (r: &'static str)
        ensures
            r@ == binop_text(*self),
    {
        match self {
            BinOp::Eq => "==",
            BinOp::Ne => "!=",
            BinOp::Lt => "<",
            BinOp::Gt => ">",
            BinOp::Le => "<=",
            BinOp::Ge => ">=",
            BinOp::Add => "+",
            BinOp::Sub => "-",
            BinOp::Mul => "*",
            BinOp::Div => "/",
            BinOp::And => "and",
            BinOp::Or => "or",
        }
    }
}

/// The unary operators: numeric negation and logical not.
#[derive(Debug, PartialEq, Eq, Structural, Clone, Copy)]
pub enum UnOp {
    Neg,
    Not,
}

/// The spelling of a unary operator.
pub open spec fn unop_text(op: UnOp) -> Seq<char> {
    match op {
        UnOp::Neg => "-"@,
        UnOp::Not => "!"@,
    }
}

impl UnOp {
    /// Renders the operator's spelling.
    pub fn text(&self) -> (r: &'static str)
        ensures
            r@ == unop_text(*self),
    {
        match self {
            UnOp::Neg => "-",
            UnOp::Not => "!",
        }
    }
}

/// A binary application; the operands own their subtrees.
#[derive(Debug)]
pub struct Binary {
    pub left: Expr,
    pub operator: BinOp,
    pub right: Expr,
}

/// A parenthesized sub-expression, transparent except for precedence.
#[derive(Debug)]
pub struct Grouping {
    pub expression: Expr,
}

/// A leaf of the expression tree.
#[derive(Debug)]
pub enum Literal {
    String(String),
    Identifier(String),
    Number(Number),
    True,
    False,
    Nil,
}

/// A unary application.
#[derive(Debug)]
pub struct Unary {
    pub operator: UnOp,
    pub expression: Expr,
}

/// A statement: an expression evaluated for its effect, a `print`
/// statement, or a `var` declaration (reserved; the parser rejects it and
/// the evaluator does not run it).
#[derive(Debug)]
pub enum Stmt {
    Expr(Expr),
    Print(Expr),
    Var(String, Expr),
}

/// An expression tree.
#[derive(Debug)]
pub enum Expr {
    Binary(Box<Binary>),
    Grouping(Box<Grouping>),
    Literal(Literal),
    Unary(Box<Unary>),
}

/// The mathematical image of a literal.
pub enum LiteralView {
    String(Seq<char>),
    Identifier(Seq<char>),
    Number(Number),
    True,
    False,
    Nil,
}

/// The mathematical image of an expression tree.
pub enum ExprView {
    Binary(Box<ExprView>, BinOp, Box<ExprView>),
    Grouping(Box<ExprView>),
    Literal(LiteralView),
    Unary(UnOp, Box<ExprView>),
}

/// The mathematical image of a statement.
pub enum StmtView {
    Expr(ExprView),
    Print(ExprView),
    Var(Seq<char>, ExprView),
}

/// The image of a literal.
pub open spec fn literal_view(l: Literal) -> LiteralView {
    match l {
        Literal::String(s) => LiteralView::String(s@),
        Literal::Identifier(s) => LiteralView::Identifier(s@),
        Literal::Number(n) => LiteralView::Number(n),
        Literal::True => LiteralView::True,
        Literal::False => LiteralView::False,
        Literal::Nil => LiteralView::Nil,
    }
}

/// The image of an expression tree.
pub open spec fn expr_view(e: Expr) -> ExprView
    decreases e,
{
    match e {
        Expr::Binary(b) => ExprView::Binary(
            Box::new(expr_view(b.left)),
            b.operator,
            Box::new(expr_view(b.right)),
        ),
        Expr::Grouping(g) => ExprView::Grouping(Box::new(expr_view(g.expression))),
        Expr::Literal(l) => ExprView::Literal(literal_view(l)),
        Expr::Unary(u) => ExprView::Unary(u.operator, Box::new(expr_view(u.expression))),
    }
}

impl View for Expr {
    type V = ExprView;

    open spec fn view(&self) -> ExprView {
        expr_view(*self)
    }
}

impl View for Stmt {
    type V = StmtView;

    open spec fn view(&self) -> StmtView {
        match *self {
            Stmt::Expr(ref e) => StmtView::Expr(expr_view(*e)),
            Stmt::Print(ref e) => StmtView::Print(expr_view(*e)),
            Stmt::Var(ref name, ref e) => StmtView::Var(name@, expr_view(*e)),
        }
    }
}

impl Expr {
    /// A binary application of `operator` to two operands.
    pub fn from_binary(left: Expr, operator: BinOp, right: Expr) -> (r: Expr)
        ensures
            r@ == ExprView::Binary(Box::new(left@), operator, Box::new(right@)),
    {
        Expr::Binary(Box::new(Binary { left, operator, right }))
    }

    /// A parenthesized group around `expression`.
    pub fn from_grouping(expression: Expr) -> (r: Expr)
        ensures
            r@ == ExprView::Grouping(Box::new(expression@)),
    {
        Expr::Grouping(Box::new(Grouping { expression }))
    }

    /// A unary application of `operator` to an operand.
    pub fn from_unary(operator: UnOp, expression: Expr) -> (r: Expr)
        ensures
            r@ == ExprView::Unary(operator, Box::new(expression@)),
    {
        Expr::Unary(Box::new(Unary { operator, expression }))
    }

    /// A numeric literal.
    pub fn from_number(n: Number) -> (r: Expr)
        ensures
            r@ == ExprView::Literal(LiteralView::Number(n)),
    {
        Expr::Literal(Literal::Number(n))
    }

    /// A string literal.
    pub fn from_string(s: String) -> (r: Expr)
        ensures
            r@ == ExprView::Literal(LiteralView::String(s@)),
    {
        Expr::Literal(Literal::String(s))
    }

    /// An identifier leaf.
    pub fn from_ident(id: String) -> (r: Expr)
        ensures
            r@ == ExprView::Literal(LiteralView::Identifier(id@)),
    {
        Expr::Literal(Literal::Identifier(id))
    }

    /// A boolean literal.
    pub fn from_bool(b: bool) -> (r: Expr)
        ensures
            r@ == ExprView::Literal(
                if b {
                    LiteralView::True
                } else {
                    LiteralView::False
                },
            ),
    {
        Expr::Literal(
            if b {
                Literal::True
            } else {
                Literal::False
            },
        )
    }

    /// The `nil` literal.
    pub fn from_nil() -> (r: Expr)
        ensures
            r@ == ExprView::Literal(LiteralView::Nil),
    {
        Expr::Literal(Literal::Nil)
    }
}

} // verus!

//! The canonical parenthesized-prefix rendering of expression and statement
//! trees: `!-123` prints as `(! (- 123))`.

use vstd::prelude::*;
use vstd::string::StringExecFns;

use crate::number::number_text;
use crate::syntax::{
    binop_text, unop_text, Binary, Expr, ExprView, Grouping, Literal, LiteralView, Stmt, StmtView,
    Unary,
};
use crate::text::{escaped_text, push_char, push_escaped};

verus! {

/// The rendering of a literal leaf: strings quoted and escaped, identifiers
/// in backquotes, numbers in decimal, the keyword literals spelled out.
pub open spec fn lisp_literal(l: LiteralView) -> Seq<char> {
    match l {
        LiteralView::String(s) => seq!['"'] + escaped_text(s) + seq!['"'],
        LiteralView::Identifier(id) => seq!['`'] + id + seq!['`'],
        LiteralView::Number(n) => number_text(n.num as int, n.den as int),
        LiteralView::True => "true"@,
        LiteralView::False => "false"@,
        LiteralView::Nil => "nil"@,
    }
}

/// The canonical prefix rendering of an expression.
pub open spec fn lisp_expr(e: ExprView) -> Seq<char>
    decreases e,
{
    match e {
        ExprView::Binary(l, op, r) => seq!['('] + binop_text(op) + seq![' '] + lisp_expr(*l)
            + seq![' '] + lisp_expr(*r) + seq![')'],
        ExprView::Grouping(inner) => "(group "@ + lisp_expr(*inner) + seq![')'],
        ExprView::Literal(l) => lisp_literal(l),
        ExprView::Unary(op, inner) => seq!['('] + unop_text(op) + seq![' '] + lisp_expr(*inner)
            + seq![')'],
    }
}

/// The canonical prefix rendering of a statement.
pub open spec fn lisp_stmt(st: StmtView) -> Seq<char> {
    match st {
        StmtView::Expr(e) => lisp_expr(e),
        StmtView::Print(e) => "(print "@ + lisp_expr(e) + seq![')'],
        StmtView::Var(name, e) => "(var `"@ + name + "` "@ + lisp_expr(e) + seq![')'],
    }
}

/// Appends the rendering of a literal.
fn push_literal(out: &mut String, l: &Literal)
    ensures
        final(out)@ == old(out)@ + lisp_literal(crate::syntax::literal_view(*l)),
{
    match l {
        Literal::String(s) => {
            push_char(out, '"');
            push_escaped(out, s.as_str());
            push_char(out, '"');
        },
        Literal::Identifier(id) => {
            push_char(out, '`');
            out.append(id.as_str());
            push_char(out, '`');
        },
        Literal::Number(n) => {
            let t = n.text();
            out.append(t.as_str());
        },
        Literal::True => {
            out.append("true");
        },
        Literal::False => {
            out.append("false");
        },
        Literal::Nil => {
            out.append("nil");
        },
    }
    proof {
        assert(final(out)@ =~= old(out)@ + lisp_literal(crate::syntax::literal_view(*l)));
    }
}

/// Appends the rendering of an expression.
fn push_expr(out: &mut String, e: &Expr)
    ensures
        final(out)@ == old(out)@ + lisp_expr(e@),
    decreases *e,
{
    match e {
        Expr::Binary(b) => {
            push_char(out, '(');
            out.append(b.operator.text());
            push_char(out, ' ');
            push_expr(out, &b.left);
            push_char(out, ' ');
            push_expr(out, &b.right);
            push_char(out, ')');
        },
        Expr::Grouping(g) => {
            out.append("(group ");
            push_expr(out, &g.expression);
            push_char(out, ')');
        },
        Expr::Literal(l) => {
            push_literal(out, l);
        },
        Expr::Unary(u) => {
            push_char(out, '(');
            out.append(u.operator.text());
            push_char(out, ' ');
            push_expr(out, &u.expression);
            push_char(out, ')');
        },
    }
    proof {
        assert(final(out)@ =~= old(out)@ + lisp_expr(e@));
    }
}

/// Appends the rendering of a statement.
fn push_stmt(out: &mut String, st: &Stmt)
    ensures
        final(out)@ == old(out)@ + lisp_stmt(st@),
{
    match st {
        Stmt::Expr(e) => {
            push_expr(out, e);
        },
        Stmt::Print(e) => {
            out.append("(print ");
            push_expr(out, e);
            push_char(out, ')');
        },
        Stmt::Var(name, e) => {
            out.append("(var `");
            out.append(name.as_str());
            out.append("` ");
            push_expr(out, e);
            push_char(out, ')');
        },
    }
    proof {
        assert(final(out)@ =~= old(out)@ + lisp_stmt(st@));
    }
}

/// A printer over expression nodes, one visit method per node kind.
pub struct ASTPrinter {}

impl ASTPrinter {
    /// Renders a binary node.
    pub fn visit_binary(&mut self, binary: &Binary) -> (r: String)
        ensures
            r@ == lisp_expr(
                ExprView::Binary(
                    Box::new(binary.left@),
                    binary.operator,
                    Box::new(binary.right@),
                ),
            ),
    {
        let mut out = String::new();
        push_char(&mut out, '(');
        out.append(binary.operator.text());
        push_char(&mut out, ' ');
        push_expr(&mut out, &binary.left);
        push_char(&mut out, ' ');
        push_expr(&mut out, &binary.right);
        push_char(&mut out, ')');
        proof {
            assert(out@ =~= lisp_expr(
                ExprView::Binary(
                    Box::new(binary.left@),
                    binary.operator,
                    Box::new(binary.right@),
                ),
            ));
        }
        out
    }

    /// Renders a group node.
    pub fn visit_group(&mut self, group: &Grouping) -> (r: String)
        ensures
            r@ == lisp_expr(ExprView::Grouping(Box::new(group.expression@))),
    {
        let mut out = String::new();
        out.append("(group ");
        push_expr(&mut out, &group.expression);
        push_char(&mut out, ')');
        proof {
            assert(out@ =~= lisp_expr(ExprView::Grouping(Box::new(group.expression@))));
        }
        out
    }

    /// Renders a literal leaf.
    pub fn visit_literal(&mut self, lit: &Literal) -> (r: String)
        ensures
            r@ == lisp_literal(crate::syntax::literal_view(*lit)),
    {
        let mut out = String::new();
        push_literal(&mut out, lit);
        out
    }

    /// Renders a unary node.
    pub fn visit_unary(&mut self, unary: &Unary) -> (r: String)
        ensures
            r@ == lisp_expr(ExprView::Unary(unary.operator, Box::new(unary.expression@))),
    {
        let mut out = String::new();
        push_char(&mut out, '(');
        out.append(unary.operator.text());
        push_char(&mut out, ' ');
        push_expr(&mut out, &unary.expression);
        push_char(&mut out, ')');
        proof {
            assert(out@ =~= lisp_expr(
                ExprView::Unary(unary.operator, Box::new(unary.expression@)),
            ));
        }
        out
    }
}

/// A printer over statements, delegating to the expression printer.
pub struct LispAstPrinter {}

impl LispAstPrinter {
    /// Renders a binary node.
    pub fn visit_binary(&mut self, binary: &Binary) -> (r: String)
        ensures
            r@ == lisp_expr(
                ExprView::Binary(
                    Box::new(binary.left@),
                    binary.operator,
                    Box::new(binary.right@),
                ),
            ),
    {
        let mut printer = ASTPrinter {  };
        printer.visit_binary(binary)
    }

    /// Renders a group node.
    pub fn visit_group(&mut self, group: &Grouping) -> (r: String)
        ensures
            r@ == lisp_expr(ExprView::Grouping(Box::new(group.expression@))),
    {
        let mut printer = ASTPrinter {  };
        printer.visit_group(group)
    }

    /// Renders a literal leaf.
    pub fn visit_literal(&mut self, lit: &Literal) -> (r: String)
        ensures
            r@ == lisp_literal(crate::syntax::literal_view(*lit)),
    {
        let mut printer = ASTPrinter {  };
        printer.visit_literal(lit)
    }

    /// Renders a unary node.
    pub fn visit_unary(&mut self, unary: &Unary) -> (r: String)
        ensures
            r@ == lisp_expr(ExprView::Unary(unary.operator, Box::new(unary.expression@))),
    {
        let mut printer = ASTPrinter {  };
        printer.visit_unary(unary)
    }

    /// Renders an expression statement.
    pub fn visit_expr(&mut self, expr: &Expr) -> (r: String)
        ensures
            r@ == lisp_expr(expr@),
    {
        let mut out = String::new();
        push_expr(&mut out, expr);
        out
    }

    /// Renders a print statement.
    pub fn visit_print(&mut self, expr: &Expr) -> (r: String)
        ensures
            r@ == lisp_stmt(StmtView::Print(expr@)),
    {
        let mut out = String::new();
        out.append("(print ");
        push_expr(&mut out, expr);
        push_char(&mut out, ')');
        proof {
            assert(out@ =~= lisp_stmt(StmtView::Print(expr@)));
        }
        out
    }
}

/// The prefix rendering of one expression.
pub struct SExpr<'b> {
    expr: &'b Expr,
}

impl<'b> SExpr<'b> {
    /// The image of the wrapped expression.
    pub closed spec fn subject(self) -> ExprView {
        self.expr@
    }

    /// Wraps an expression for rendering.
    pub fn new(expr: &'b Expr) -> (r: SExpr<'b>)
        ensures
            r.subject() == expr@,
    {
        SExpr { expr }
    }

    /// Renders the wrapped expression.
    pub fn render(&self) -> (r: String)
        ensures
            r@ == lisp_expr(self.subject()),
    {
        let mut out = String::new();
        push_expr(&mut out, self.expr);
        out
    }
}

/// The prefix rendering of one statement.
pub struct Lisp<'b> {
    stmt: &'b Stmt,
}

impl<'b> Lisp<'b> {
    /// The image of the wrapped statement.
    pub closed spec fn subject(self) -> StmtView {
        self.stmt@
    }

    /// Wraps a statement for rendering.
    pub fn new(stmt: &'b Stmt) -> (r: Lisp<'b>)
        ensures
            r.subject() == stmt@,
    {
        Lisp { stmt }
    }

    /// Renders the wrapped statement.
    pub fn render(&self) -> (r: String)
        ensures
            r@ == lisp_stmt(self.subject()),
    {
        let mut out = String::new();
        push_stmt(&mut out, self.stmt);
        out
    }
}

impl Stmt {
    /// The statement wrapped for prefix rendering.
    pub fn display_lisp(&self) -> (r: Lisp<'_>)
        ensures
            r.subject() == self@,
    {
        Lisp::new(self)
    }
}

} // verus!

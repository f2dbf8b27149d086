//! The recursive-descent parser: it drives the scanner with one token of
//! lookahead and builds statements by precedence climbing, failing fast on
//! the first malformed construct.
//!
//! The grammar, tightest first: `primary`, `unary`, `factor` (`*` `/`),
//! `term` (`+` `-`), `comparison` (`<` `<=` `>` `>=`), `equality` (`==`
//! `!=`), `logical` (`and` `or`). Binary levels are left-associative; unary
//! is right-associative. Each statement ends with `;`.

use vstd::prelude::*;
use vstd::string::StringExecFns;

use crate::error::{LexicalError, LexicalErrorView, LoxParserError, LoxParserErrorView};
use crate::scanner::{item_view, scan_items, Scanner};
use crate::syntax::{BinOp, Expr, ExprView, LiteralView, Stmt, StmtView, UnOp};
use crate::token::{
    Keyword, Literal, Operator, Structure, Token, TokenKind, TokenKindView, TokenView,
};

verus! {

/// An equality operator token, as a binary operator.
pub open spec fn spec_eq_op(k: TokenKindView) -> Option<BinOp> {
    match k {
        TokenKindView::Operator(Operator::BangEqual) => Some(BinOp::Ne),
        TokenKindView::Operator(Operator::EqualEqual) => Some(BinOp::Eq),
        _ => None,
    }
}

/// A comparison operator token, as a binary operator.
pub open spec fn spec_cmp_op(k: TokenKindView) -> Option<BinOp> {
    match k {
        TokenKindView::Operator(Operator::Greater) => Some(BinOp::Gt),
        TokenKindView::Operator(Operator::GreaterEqual) => Some(BinOp::Ge),
        TokenKindView::Operator(Operator::Less) => Some(BinOp::Lt),
        TokenKindView::Operator(Operator::LessEqual) => Some(BinOp::Le),
        _ => None,
    }
}

/// An additive operator token, as a binary operator.
pub open spec fn spec_term_op(k: TokenKindView) -> Option<BinOp> {
    match k {
        TokenKindView::Operator(Operator::Minus) => Some(BinOp::Sub),
        TokenKindView::Operator(Operator::Plus) => Some(BinOp::Add),
        _ => None,
    }
}

/// A multiplicative operator token, as a binary operator.
pub open spec fn spec_factor_op(k: TokenKindView) -> Option<BinOp> {
    match k {
        TokenKindView::Operator(Operator::Slash) => Some(BinOp::Div),
        TokenKindView::Operator(Operator::Star) => Some(BinOp::Mul),
        _ => None,
    }
}

/// A word-operator token (`and`, `or`), as a binary operator.
pub open spec fn spec_logical_op(k: TokenKindView) -> Option<BinOp> {
    match k {
        TokenKindView::Operator(Operator::And) => Some(BinOp::And),
        TokenKindView::Operator(Operator::Or) => Some(BinOp::Or),
        _ => None,
    }
}

/// A unary operator token.
pub open spec fn spec_unary_op(k: TokenKindView) -> Option<UnOp> {
    match k {
        TokenKindView::Operator(Operator::Bang) => Some(UnOp::Not),
        TokenKindView::Operator(Operator::Minus) => Some(UnOp::Neg),
        _ => None,
    }
}

/// What parsing a primary expression yields from the front of the item
/// stream: a literal leaf, a parenthesized group, or the error the offending
/// item deserves.
pub open spec fn p_primary(its: Seq<Result<TokenView, LexicalErrorView>>) -> Result<
    (ExprView, Seq<Result<TokenView, LexicalErrorView>>),
    LoxParserErrorView,
>
    decreases its.len(), 0int,
{
    if its.len() == 0 {
        Err(LoxParserErrorView::EndOfFile)
    } else {
        match its[0] {
            Err(e) => Err(LoxParserErrorView::LexicalError(e)),
            Ok(t) => match t.kind {
                TokenKindView::Literal(Literal::True) => Ok(
                    (ExprView::Literal(LiteralView::True), its.drop_first()),
                ),
                TokenKindView::Literal(Literal::False) => Ok(
                    (ExprView::Literal(LiteralView::False), its.drop_first()),
                ),
                TokenKindView::Literal(Literal::Nil) => Ok(
                    (ExprView::Literal(LiteralView::Nil), its.drop_first()),
                ),
                TokenKindView::Number(n) => Ok(
                    (ExprView::Literal(LiteralView::Number(n)), its.drop_first()),
                ),
                TokenKindView::String(s) => Ok(
                    (ExprView::Literal(LiteralView::String(s)), its.drop_first()),
                ),
                TokenKindView::Identifier(id) => Ok(
                    (ExprView::Literal(LiteralView::Identifier(id)), its.drop_first()),
                ),
                TokenKindView::Operator(op) => Err(LoxParserErrorView::BadOperator(Some(op))),
                TokenKindView::Keyword(_) => Err(LoxParserErrorView::Unsupported),
                TokenKindView::Structure(Structure::LeftParen) => match p_expression(
                    its.drop_first(),
                ) {
                    Err(e) => Err(e),
                    Ok((inner, rest)) => match p_close_paren(inner, rest) {
                        Err(e) => Err(e),
                        Ok(done) => Ok(done),
                    },
                },
                TokenKindView::Structure(st) => Err(LoxParserErrorView::BadStructure(Some(st))),
            },
        }
    }
}

/// Consuming the closing parenthesis after a grouped expression.
pub open spec fn p_close_paren(
    inner: ExprView,
    rest: Seq<Result<TokenView, LexicalErrorView>>,
) -> Result<(ExprView, Seq<Result<TokenView, LexicalErrorView>>), LoxParserErrorView> {
    if rest.len() == 0 {
        Err(LoxParserErrorView::EndOfFileConsume)
    } else {
        match rest[0] {
            Err(e) => Err(LoxParserErrorView::LexicalError(e)),
            Ok(t2) => if t2.kind is Structure && t2.kind->Structure_0 is RightParen {
                Ok((ExprView::Grouping(Box::new(inner)), rest.drop_first()))
            } else {
                Err(LoxParserErrorView::BadStructure(None))
            },
        }
    }
}

/// What parsing a unary expression yields: a chain of `!`/`-` applications
/// over a primary.
pub open spec fn p_unary(its: Seq<Result<TokenView, LexicalErrorView>>) -> Result<
    (ExprView, Seq<Result<TokenView, LexicalErrorView>>),
    LoxParserErrorView,
>
    decreases its.len(), 1int,
{
    if its.len() > 0 && (its[0] matches Ok(t) && spec_unary_op(t.kind) is Some) {
        match its[0] {
            Ok(t) => match spec_unary_op(t.kind) {
                Some(op) => match p_unary(its.drop_first()) {
                    Err(e) => Err(e),
                    Ok((e, rest)) => Ok((ExprView::Unary(op, Box::new(e)), rest)),
                },
                None => p_primary(its),
            },
            Err(_) => p_primary(its),
        }
    } else {
        p_primary(its)
    }
}

/// The left-associative chain of multiplicative operators over `left`.
pub open spec fn p_factor_tail(
    left: ExprView,
    its: Seq<Result<TokenView, LexicalErrorView>>,
) -> Result<(ExprView, Seq<Result<TokenView, LexicalErrorView>>), LoxParserErrorView>
    decreases its.len(), 3int,
{
    if its.len() == 0 {
        Ok((left, its))
    } else {
        match its[0] {
            Err(e) => Err(LoxParserErrorView::LexicalError(e)),
            Ok(t) => match spec_factor_op(t.kind) {
                None => Ok((left, its)),
                Some(op) => match p_unary(its.drop_first()) {
                    Err(e) => Err(e),
                    Ok((right, rest)) => if rest.len() < its.len() {
                        p_factor_tail(
                            ExprView::Binary(Box::new(left), op, Box::new(right)),
                            rest,
                        )
                    } else {
                        Err(LoxParserErrorView::EndOfFile)
                    },
                },
            },
        }
    }
}

/// What parsing a factor (`*`, `/`) yields.
pub open spec fn p_factor(its: Seq<Result<TokenView, LexicalErrorView>>) -> Result<
    (ExprView, Seq<Result<TokenView, LexicalErrorView>>),
    LoxParserErrorView,
>
    decreases its.len(), 2int,
{
    match p_unary(its) {
        Err(e) => Err(e),
        Ok((e, rest)) => if rest.len() < its.len() {
            p_factor_tail(e, rest)
        } else {
            Err(LoxParserErrorView::EndOfFile)
        },
    }
}

/// The left-associative chain of additive operators over `left`.
pub open spec fn p_term_tail(
    left: ExprView,
    its: Seq<Result<TokenView, LexicalErrorView>>,
) -> Result<(ExprView, Seq<Result<TokenView, LexicalErrorView>>), LoxParserErrorView>
    decreases its.len(), 5int,
{
    if its.len() == 0 {
        Ok((left, its))
    } else {
        match its[0] {
            Err(e) => Err(LoxParserErrorView::LexicalError(e)),
            Ok(t) => match spec_term_op(t.kind) {
                None => Ok((left, its)),
                Some(op) => match p_factor(its.drop_first()) {
                    Err(e) => Err(e),
                    Ok((right, rest)) => if rest.len() < its.len() {
                        p_term_tail(ExprView::Binary(Box::new(left), op, Box::new(right)), rest)
                    } else {
                        Err(LoxParserErrorView::EndOfFile)
                    },
                },
            },
        }
    }
}

/// What parsing a term (`+`, `-`) yields.
pub open spec fn p_term(its: Seq<Result<TokenView, LexicalErrorView>>) -> Result<
    (ExprView, Seq<Result<TokenView, LexicalErrorView>>),
    LoxParserErrorView,
>
    decreases its.len(), 4int,
{
    match p_factor(its) {
        Err(e) => Err(e),
        Ok((e, rest)) => if rest.len() < its.len() {
            p_term_tail(e, rest)
        } else {
            Err(LoxParserErrorView::EndOfFile)
        },
    }
}

/// The left-associative chain of comparison operators over `left`.
pub open spec fn p_comparison_tail(
    left: ExprView,
    its: Seq<Result<TokenView, LexicalErrorView>>,
) -> Result<(ExprView, Seq<Result<TokenView, LexicalErrorView>>), LoxParserErrorView>
    decreases its.len(), 7int,
{
    if its.len() == 0 {
        Ok((left, its))
    } else {
        match its[0] {
            Err(e) => Err(LoxParserErrorView::LexicalError(e)),
            Ok(t) => match spec_cmp_op(t.kind) {
                None => Ok((left, its)),
                Some(op) => match p_term(its.drop_first()) {
                    Err(e) => Err(e),
                    Ok((right, rest)) => if rest.len() < its.len() {
                        p_comparison_tail(
                            ExprView::Binary(Box::new(left), op, Box::new(right)),
                            rest,
                        )
                    } else {
                        Err(LoxParserErrorView::EndOfFile)
                    },
                },
            },
        }
    }
}

/// What parsing a comparison yields.
pub open spec fn p_comparison(its: Seq<Result<TokenView, LexicalErrorView>>) -> Result<
    (ExprView, Seq<Result<TokenView, LexicalErrorView>>),
    LoxParserErrorView,
>
    decreases its.len(), 6int,
{
    match p_term(its) {
        Err(e) => Err(e),
        Ok((e, rest)) => if rest.len() < its.len() {
            p_comparison_tail(e, rest)
        } else {
            Err(LoxParserErrorView::EndOfFile)
        },
    }
}

/// The left-associative chain of equality operators over `left`.
pub open spec fn p_equality_tail(
    left: ExprView,
    its: Seq<Result<TokenView, LexicalErrorView>>,
) -> Result<(ExprView, Seq<Result<TokenView, LexicalErrorView>>), LoxParserErrorView>
    decreases its.len(), 9int,
{
    if its.len() == 0 {
        Ok((left, its))
    } else {
        match its[0] {
            Err(e) => Err(LoxParserErrorView::LexicalError(e)),
            Ok(t) => match spec_eq_op(t.kind) {
                None => Ok((left, its)),
                Some(op) => match p_comparison(its.drop_first()) {
                    Err(e) => Err(e),
                    Ok((right, rest)) => if rest.len() < its.len() {
                        p_equality_tail(
                            ExprView::Binary(Box::new(left), op, Box::new(right)),
                            rest,
                        )
                    } else {
                        Err(LoxParserErrorView::EndOfFile)
                    },
                },
            },
        }
    }
}

/// What parsing an equality yields.
pub open spec fn p_equality(its: Seq<Result<TokenView, LexicalErrorView>>) -> Result<
    (ExprView, Seq<Result<TokenView, LexicalErrorView>>),
    LoxParserErrorView,
>
    decreases its.len(), 8int,
{
    match p_comparison(its) {
        Err(e) => Err(e),
        Ok((e, rest)) => if rest.len() < its.len() {
            p_equality_tail(e, rest)
        } else {
            Err(LoxParserErrorView::EndOfFile)
        },
    }
}

/// The left-associative chain of word operators (`and`, `or`) over `left`.
pub open spec fn p_logical_tail(
    left: ExprView,
    its: Seq<Result<TokenView, LexicalErrorView>>,
) -> Result<(ExprView, Seq<Result<TokenView, LexicalErrorView>>), LoxParserErrorView>
    decreases its.len(), 11int,
{
    if its.len() == 0 {
        Ok((left, its))
    } else {
        match its[0] {
            Err(e) => Err(LoxParserErrorView::LexicalError(e)),
            Ok(t) => match spec_logical_op(t.kind) {
                None => Ok((left, its)),
                Some(op) => match p_equality(its.drop_first()) {
                    Err(e) => Err(e),
                    Ok((right, rest)) => if rest.len() < its.len() {
                        p_logical_tail(
                            ExprView::Binary(Box::new(left), op, Box::new(right)),
                            rest,
                        )
                    } else {
                        Err(LoxParserErrorView::EndOfFile)
                    },
                },
            },
        }
    }
}

/// What parsing a logical expression yields.
pub open spec fn p_logical(its: Seq<Result<TokenView, LexicalErrorView>>) -> Result<
    (ExprView, Seq<Result<TokenView, LexicalErrorView>>),
    LoxParserErrorView,
>
    decreases its.len(), 10int,
{
    match p_equality(its) {
        Err(e) => Err(e),
        Ok((e, rest)) => if rest.len() < its.len() {
            p_logical_tail(e, rest)
        } else {
            Err(LoxParserErrorView::EndOfFile)
        },
    }
}

/// What parsing a whole expression yields: the loosest tier.
pub open spec fn p_expression(its: Seq<Result<TokenView, LexicalErrorView>>) -> Result<
    (ExprView, Seq<Result<TokenView, LexicalErrorView>>),
    LoxParserErrorView,
>
    decreases its.len(), 12int,
{
    p_logical(its)
}

/// Consuming the `;` that ends a statement.
pub open spec fn p_semicolon(rest: Seq<Result<TokenView, LexicalErrorView>>) -> Result<
    Seq<Result<TokenView, LexicalErrorView>>,
    LoxParserErrorView,
> {
    if rest.len() == 0 {
        Err(LoxParserErrorView::EndOfFileConsume)
    } else {
        match rest[0] {
            Err(e) => Err(LoxParserErrorView::LexicalError(e)),
            Ok(t) => if t.kind is Structure && t.kind->Structure_0 is SemiColon {
                Ok(rest.drop_first())
            } else {
                Err(LoxParserErrorView::BadStructure(None))
            },
        }
    }
}

/// What parsing one statement yields: a `print` statement or an expression
/// statement, each ended by `;`; a `var` declaration is rejected as
/// unsupported.
pub open spec fn p_statement(its: Seq<Result<TokenView, LexicalErrorView>>) -> Result<
    (StmtView, Seq<Result<TokenView, LexicalErrorView>>),
    LoxParserErrorView,
> {
    if its.len() == 0 {
        Err(LoxParserErrorView::EndOfFile)
    } else {
        match its[0] {
            Err(e) => Err(LoxParserErrorView::LexicalError(e)),
            Ok(t) => if t.kind is Keyword && t.kind->Keyword_0 is Var {
                Err(LoxParserErrorView::Unsupported)
            } else if t.kind is Keyword && t.kind->Keyword_0 is Print {
                match p_expression(its.drop_first()) {
                    Err(e) => Err(e),
                    Ok((e, rest)) => match p_semicolon(rest) {
                        Err(pe) => Err(pe),
                        Ok(after) => Ok((StmtView::Print(e), after)),
                    },
                }
            } else {
                match p_expression(its) {
                    Err(e) => Err(e),
                    Ok((e, rest)) => match p_semicolon(rest) {
                        Err(pe) => Err(pe),
                        Ok(after) => Ok((StmtView::Expr(e), after)),
                    },
                }
            },
        }
    }
}

/// What parsing a whole program yields: statements until the input is
/// exhausted, aborting at the first error.
pub open spec fn p_program(its: Seq<Result<TokenView, LexicalErrorView>>) -> Result<
    Seq<StmtView>,
    LoxParserErrorView,
>
    decreases its.len(),
{
    if its.len() == 0 {
        Ok(Seq::empty())
    } else {
        match its[0] {
            Err(e) => Err(LoxParserErrorView::LexicalError(e)),
            Ok(_) => match p_statement(its) {
                Err(e) => Err(e),
                Ok((st, rest)) => if rest.len() < its.len() {
                    match p_program(rest) {
                        Err(e) => Err(e),
                        Ok(more) => Ok(seq![st] + more),
                    }
                } else {
                    Err(LoxParserErrorView::EndOfFile)
                },
            },
        }
    }
}

/// A successful primary parse consumes at least one item.
proof fn lemma_primary_progress(its: Seq<Result<TokenView, LexicalErrorView>>)
    ensures
        p_primary(its) matches Ok(pair) ==> pair.1.len() < its.len(),
    decreases its.len(), 0int,
{
    if its.len() > 0 {
        if its[0] matches Ok(t) && t.kind is Structure && t.kind->Structure_0 is LeftParen {
            lemma_expression_progress(its.drop_first());
        }
    }
}

/// A successful unary parse consumes at least one item.
proof fn lemma_unary_progress(its: Seq<Result<TokenView, LexicalErrorView>>)
    ensures
        p_unary(its) matches Ok(pair) ==> pair.1.len() < its.len(),
    decreases its.len(), 1int,
{
    if its.len() > 0 && (its[0] matches Ok(t) && spec_unary_op(t.kind) is Some) {
        lemma_unary_progress(its.drop_first());
    } else {
        lemma_primary_progress(its);
    }
}

/// A successful factor chain never grows the stream.
proof fn lemma_factor_tail_progress(left: ExprView, its: Seq<Result<TokenView, LexicalErrorView>>)
    ensures
        p_factor_tail(left, its) matches Ok(pair) ==> pair.1.len() <= its.len(),
    decreases its.len(), 3int,
{
    if its.len() > 0 {
        if its[0] matches Ok(t) && spec_factor_op(t.kind) is Some {
            lemma_unary_progress(its.drop_first());            match p_unary(its.drop_first()) {
                Ok(inner) => {
                if inner.1.len() < its.len() {
                    lemma_factor_tail_progress(
                        ExprView::Binary(
                            Box::new(left),
                            spec_factor_op(its[0]->Ok_0.kind)->0,
                            Box::new(inner.0),
                        ),
                        inner.1,
                    );
                }
                },
                _ => {},
            }
        }
    }
}

/// A successful factor parse consumes at least one item.
proof fn lemma_factor_progress(its: Seq<Result<TokenView, LexicalErrorView>>)
    ensures
        p_factor(its) matches Ok(pair) ==> pair.1.len() < its.len(),
    decreases its.len(), 2int,
{
    lemma_unary_progress(its);    match p_unary(its) {
        Ok(inner) => {
        if inner.1.len() < its.len() {
            lemma_factor_tail_progress(inner.0, inner.1);
        }
        },
        _ => {},
    }
}

/// A successful term chain never grows the stream.
proof fn lemma_term_tail_progress(left: ExprView, its: Seq<Result<TokenView, LexicalErrorView>>)
    ensures
        p_term_tail(left, its) matches Ok(pair) ==> pair.1.len() <= its.len(),
    decreases its.len(), 5int,
{
    if its.len() > 0 {
        if its[0] matches Ok(t) && spec_term_op(t.kind) is Some {
            lemma_factor_progress(its.drop_first());            match p_factor(its.drop_first()) {
                Ok(inner) => {
                if inner.1.len() < its.len() {
                    lemma_term_tail_progress(
                        ExprView::Binary(
                            Box::new(left),
                            spec_term_op(its[0]->Ok_0.kind)->0,
                            Box::new(inner.0),
                        ),
                        inner.1,
                    );
                }
                },
                _ => {},
            }
        }
    }
}

/// A successful term parse consumes at least one item.
proof fn lemma_term_progress(its: Seq<Result<TokenView, LexicalErrorView>>)
    ensures
        p_term(its) matches Ok(pair) ==> pair.1.len() < its.len(),
    decreases its.len(), 4int,
{
    lemma_factor_progress(its);    match p_factor(its) {
        Ok(inner) => {
        if inner.1.len() < its.len() {
            lemma_term_tail_progress(inner.0, inner.1);
        }
        },
        _ => {},
    }
}

/// A successful comparison chain never grows the stream.
proof fn lemma_comparison_tail_progress(
    left: ExprView,
    its: Seq<Result<TokenView, LexicalErrorView>>,
)
    ensures
        p_comparison_tail(left, its) matches Ok(pair) ==> pair.1.len() <= its.len(),
    decreases its.len(), 7int,
{
    if its.len() > 0 {
        if its[0] matches Ok(t) && spec_cmp_op(t.kind) is Some {
            lemma_term_progress(its.drop_first());            match p_term(its.drop_first()) {
                Ok(inner) => {
                if inner.1.len() < its.len() {
                    lemma_comparison_tail_progress(
                        ExprView::Binary(
                            Box::new(left),
                            spec_cmp_op(its[0]->Ok_0.kind)->0,
                            Box::new(inner.0),
                        ),
                        inner.1,
                    );
                }
                },
                _ => {},
            }
        }
    }
}

/// A successful comparison parse consumes at least one item.
proof fn lemma_comparison_progress(its: Seq<Result<TokenView, LexicalErrorView>>)
    ensures
        p_comparison(its) matches Ok(pair) ==> pair.1.len() < its.len(),
    decreases its.len(), 6int,
{
    lemma_term_progress(its);    match p_term(its) {
        Ok(inner) => {
        if inner.1.len() < its.len() {
            lemma_comparison_tail_progress(inner.0, inner.1);
        }
        },
        _ => {},
    }
}

/// A successful equality chain never grows the stream.
proof fn lemma_equality_tail_progress(
    left: ExprView,
    its: Seq<Result<TokenView, LexicalErrorView>>,
)
    ensures
        p_equality_tail(left, its) matches Ok(pair) ==> pair.1.len() <= its.len(),
    decreases its.len(), 9int,
{
    if its.len() > 0 {
        if its[0] matches Ok(t) && spec_eq_op(t.kind) is Some {
            lemma_comparison_progress(its.drop_first());            match p_comparison(its.drop_first()) {
                Ok(inner) => {
                if inner.1.len() < its.len() {
                    lemma_equality_tail_progress(
                        ExprView::Binary(
                            Box::new(left),
                            spec_eq_op(its[0]->Ok_0.kind)->0,
                            Box::new(inner.0),
                        ),
                        inner.1,
                    );
                }
                },
                _ => {},
            }
        }
    }
}

/// A successful equality parse consumes at least one item.
proof fn lemma_equality_progress(its: Seq<Result<TokenView, LexicalErrorView>>)
    ensures
        p_equality(its) matches Ok(pair) ==> pair.1.len() < its.len(),
    decreases its.len(), 8int,
{
    lemma_comparison_progress(its);    match p_comparison(its) {
        Ok(inner) => {
        if inner.1.len() < its.len() {
            lemma_equality_tail_progress(inner.0, inner.1);
        }
        },
        _ => {},
    }
}

/// A successful logical chain never grows the stream.
proof fn lemma_logical_tail_progress(
    left: ExprView,
    its: Seq<Result<TokenView, LexicalErrorView>>,
)
    ensures
        p_logical_tail(left, its) matches Ok(pair) ==> pair.1.len() <= its.len(),
    decreases its.len(), 11int,
{
    if its.len() > 0 {
        if its[0] matches Ok(t) && spec_logical_op(t.kind) is Some {
            lemma_equality_progress(its.drop_first());            match p_equality(its.drop_first()) {
                Ok(inner) => {
                if inner.1.len() < its.len() {
                    lemma_logical_tail_progress(
                        ExprView::Binary(
                            Box::new(left),
                            spec_logical_op(its[0]->Ok_0.kind)->0,
                            Box::new(inner.0),
                        ),
                        inner.1,
                    );
                }
                },
                _ => {},
            }
        }
    }
}

/// A successful logical parse consumes at least one item.
proof fn lemma_logical_progress(its: Seq<Result<TokenView, LexicalErrorView>>)
    ensures
        p_logical(its) matches Ok(pair) ==> pair.1.len() < its.len(),
    decreases its.len(), 10int,
{
    lemma_equality_progress(its);    match p_equality(its) {
        Ok(inner) => {
        if inner.1.len() < its.len() {
            lemma_logical_tail_progress(inner.0, inner.1);
        }
        },
        _ => {},
    }
}

/// A successful expression parse consumes at least one item.
proof fn lemma_expression_progress(its: Seq<Result<TokenView, LexicalErrorView>>)
    ensures
        p_expression(its) matches Ok(pair) ==> pair.1.len() < its.len(),
    decreases its.len(), 12int,
{
    lemma_logical_progress(its);
}

/// A successful statement parse consumes at least one item.
proof fn lemma_statement_progress(its: Seq<Result<TokenView, LexicalErrorView>>)
    ensures
        p_statement(its) matches Ok(pair) ==> pair.1.len() < its.len(),
{
    if its.len() > 0 {
        lemma_expression_progress(its);
        lemma_expression_progress(its.drop_first());
    }
}


/// What a finished program parse leaves after statements already built.
pub open spec fn p_program_after(
    done: Seq<StmtView>,
    its: Seq<Result<TokenView, LexicalErrorView>>,
) -> Result<Seq<StmtView>, LoxParserErrorView> {
    match p_program(its) {
        Ok(more) => Ok(done + more),
        Err(e) => Err(e),
    }
}

/// The `print` keyword, where a statement may start with it.
pub fn print_match(t: &TokenKind<'_>) -> (r: Option<()>)
    ensures
        r is Some <==> (t@ is Keyword && t@->Keyword_0 is Print),
{
    if let TokenKind::Keyword(Keyword::Print) = t {
        Some(())
    } else {
        None
    }
}

/// The `var` keyword, where a statement may start with it.
pub fn var_match(t: &TokenKind<'_>) -> (r: Option<()>)
    ensures
        r is Some <==> (t@ is Keyword && t@->Keyword_0 is Var),
{
    if let TokenKind::Keyword(Keyword::Var) = t {
        Some(())
    } else {
        None
    }
}

/// An equality operator token, as executable code.
pub fn eq_op(t: &TokenKind<'_>) -> (r: Option<BinOp>)
    ensures
        r == spec_eq_op(t@),
{
    match t {
        TokenKind::Operator(Operator::BangEqual) => Some(BinOp::Ne),
        TokenKind::Operator(Operator::EqualEqual) => Some(BinOp::Eq),
        _ => None,
    }
}

/// A comparison operator token, as executable code.
pub fn cmp_op(t: &TokenKind<'_>) -> (r: Option<BinOp>)
    ensures
        r == spec_cmp_op(t@),
{
    match t {
        TokenKind::Operator(Operator::Greater) => Some(BinOp::Gt),
        TokenKind::Operator(Operator::GreaterEqual) => Some(BinOp::Ge),
        TokenKind::Operator(Operator::Less) => Some(BinOp::Lt),
        TokenKind::Operator(Operator::LessEqual) => Some(BinOp::Le),
        _ => None,
    }
}

/// An additive operator token, as executable code.
pub fn term_op(t: &TokenKind<'_>) -> (r: Option<BinOp>)
    ensures
        r == spec_term_op(t@),
{
    match t {
        TokenKind::Operator(Operator::Minus) => Some(BinOp::Sub),
        TokenKind::Operator(Operator::Plus) => Some(BinOp::Add),
        _ => None,
    }
}

/// A multiplicative operator token, as executable code.
pub fn factor_op(t: &TokenKind<'_>) -> (r: Option<BinOp>)
    ensures
        r == spec_factor_op(t@),
{
    match t {
        TokenKind::Operator(Operator::Slash) => Some(BinOp::Div),
        TokenKind::Operator(Operator::Star) => Some(BinOp::Mul),
        _ => None,
    }
}

/// A word-operator token, as executable code.
pub fn logical_op(t: &TokenKind<'_>) -> (r: Option<BinOp>)
    ensures
        r == spec_logical_op(t@),
{
    match t {
        TokenKind::Operator(Operator::And) => Some(BinOp::And),
        TokenKind::Operator(Operator::Or) => Some(BinOp::Or),
        _ => None,
    }
}

/// A unary operator token, as executable code.
pub fn unary_op(t: &TokenKind<'_>) -> (r: Option<UnOp>)
    ensures
        r == spec_unary_op(t@),
{
    match t {
        TokenKind::Operator(Operator::Bang) => Some(UnOp::Not),
        TokenKind::Operator(Operator::Minus) => Some(UnOp::Neg),
        _ => None,
    }
}

/// The parser: the scanner it drives and the one buffered lookahead item.
pub struct Parser<'a> {
    pub(crate) tokens: Scanner<'a>,
    pub(crate) peeked: Option<Option<Result<Token<'a>, LexicalError>>>,
}

impl<'a> Parser<'a> {
    /// The scanner is well formed, and a buffered end of input means the
    /// scanner really is exhausted.
    pub closed spec fn wf(self) -> bool {
        &&& self.tokens.wf()
        &&& (self.peeked matches Some(None) ==> self.tokens.items().len() == 0)
    }

    /// The items still to be consumed: the buffered one, then the scanner's.
    pub closed spec fn items(self) -> Seq<Result<TokenView, LexicalErrorView>> {
        match self.peeked {
            Some(Some(item)) => seq![item_view(item)] + self.tokens.items(),
            _ => self.tokens.items(),
        }
    }

    /// Builds a parser over `input`.
    pub fn new(input: &'a str) -> (r: Parser<'a>)
        requires
            input@.len() < usize::MAX,
        ensures
            r.wf(),
            r.items() == scan_items(input@, 0, 1, 1),
    {
        Parser { tokens: Scanner::new(input), peeked: None }
    }

    /// The next item, without consuming it.
    fn peek(&mut self) -> (r: Result<Option<Token<'a>>, LexicalError>)
        requires
            old(self).wf(),
        ensures
            final(self).wf(),
            final(self).items() == old(self).items(),
            match r {
                Ok(None) => old(self).items().len() == 0,
                Ok(Some(t)) => old(self).items().len() > 0 && old(self).items()[0] == item_view(
                    Ok(t),
                ),
                Err(e) => old(self).items().len() > 0 && old(self).items()[0] == Err::<TokenView, LexicalErrorView>(e@),
            },
    {
        if self.peeked.is_none() {
            let item = self.tokens.scan_token();
            self.peeked = Some(item);
        }
        match self.peeked {
            Some(Some(Ok(t))) => Ok(Some(t)),
            Some(Some(Err(e))) => Err(e),
            _ => Ok(None),
        }
    }

    /// Consumes and returns the next item.
    fn advance(&mut self) -> (r: Result<Option<Token<'a>>, LexicalError>)
        requires
            old(self).wf(),
        ensures
            final(self).wf(),
            match r {
                Ok(None) => old(self).items().len() == 0 && final(self).items() == old(self).items(),
                Ok(Some(t)) => old(self).items().len() > 0 && old(self).items()[0] == item_view(
                    Ok(t),
                ) && final(self).items() == old(self).items().drop_first(),
                Err(e) => old(self).items().len() > 0 && old(self).items()[0] == Err::<TokenView, LexicalErrorView>(e@) && final(self).items() == old(self).items().drop_first(),
            },
    {
        let buffered = self.peeked;
        self.peeked = None;
        let item = match buffered {
            Some(it) => it,
            None => self.tokens.scan_token(),
        };
        match item {
            None => Ok(None),
            Some(Ok(t)) => Ok(Some(t)),
            Some(Err(e)) => Err(e),
        }
    }

    /// Consumes one token and reports whether it is the expected one.
    fn consume(&mut self, token_kind: TokenKind<'a>) -> (r: Result<bool, LoxParserError>)
        requires
            old(self).wf(),
        ensures
            final(self).wf(),
            match r {
                Ok(b) => {
                    &&& old(self).items().len() > 0
                    &&& old(self).items()[0] matches Ok(tv) && b == crate::token::token_kind_eq(
                        token_kind@,
                        tv.kind,
                    )
                    &&& final(self).items() == old(self).items().drop_first()
                },
                Err(pe) => {
                    ||| (old(self).items().len() == 0 && pe@
                        == LoxParserErrorView::EndOfFileConsume)
                    ||| (old(self).items().len() > 0 && (old(self).items()[0] matches Err(le)
                        && pe@ == LoxParserErrorView::LexicalError(le)))
                },
            },
    {
        match self.advance() {
            Err(e) => Err(LoxParserError::LexicalError(e)),
            Ok(None) => Err(LoxParserError::EndOfFileConsume),
            Ok(Some(t)) => Ok(token_kind == t.kind),
        }
    }

    /// Parses a primary expression: a literal leaf or a parenthesized
    /// group.
    fn primary(&mut self) -> (r: Result<Expr, LoxParserError>)
        requires
            old(self).wf(),
        ensures
            final(self).wf(),
            match r {
                Ok(e) => p_primary(old(self).items()) matches Ok(pair) && pair.0 == e@ && pair.1
                    == final(self).items(),
                Err(pe) => p_primary(old(self).items()) matches Err(ev) && ev == pe@,
            },
        decreases self.items().len(), 0int,
    {
        let t = match self.advance() {
            Err(e) => {
                return Err(LoxParserError::LexicalError(e));
            },
            Ok(None) => {
                return Err(LoxParserError::EndOfFile);
            },
            Ok(Some(t)) => t,
        };
        match t.kind {
            TokenKind::Literal(Literal::True) => Ok(Expr::from_bool(true)),
            TokenKind::Literal(Literal::False) => Ok(Expr::from_bool(false)),
            TokenKind::Literal(Literal::Nil) => Ok(Expr::from_nil()),
            TokenKind::Number(n) => Ok(Expr::from_number(n)),
            TokenKind::String(sl) => Ok(Expr::from_string(String::from_str(sl))),
            TokenKind::Identifier(id) => Ok(Expr::from_ident(String::from_str(id))),
            TokenKind::Operator(op) => Err(LoxParserError::BadOperator(Some(op))),
            TokenKind::Keyword(_) => Err(LoxParserError::Unsupported),
            TokenKind::Structure(Structure::LeftParen) => {
                let inner = match self.expression() {
                    Ok(e) => e,
                    Err(pe) => {
                        return Err(pe);
                    },
                };
                let closed = match self.consume(
                    TokenKind::Structure(Structure::RightParen),
                ) {
                    Ok(b) => b,
                    Err(pe) => {
                        return Err(pe);
                    },
                };
                if !closed {
                    Err(LoxParserError::BadStructure(None))
                } else {
                    Ok(Expr::from_grouping(inner))
                }
            },
            TokenKind::Structure(st) => Err(LoxParserError::BadStructure(Some(st))),
        }
    }

    /// Parses a unary expression: `!`/`-` chains over a primary.
    fn unary(&mut self) -> (r: Result<Expr, LoxParserError>)
        requires
            old(self).wf(),
        ensures
            final(self).wf(),
            match r {
                Ok(e) => p_unary(old(self).items()) matches Ok(pair) && pair.0 == e@ && pair.1
                    == final(self).items(),
                Err(pe) => p_unary(old(self).items()) matches Err(ev) && ev == pe@,
            },
        decreases self.items().len(), 1int,
    {
        let ahead = match self.peek() {
            Err(e) => {
                proof {
                    assert(p_unary(old(self).items()) == p_primary(old(self).items()));
                }
                return Err(LoxParserError::LexicalError(e));
            },
            Ok(opt) => opt,
        };
        if let Some(t) = ahead {
            if let Some(op) = unary_op(&t.kind) {
                let _ = self.advance();
                let e = match self.unary() {
                    Ok(e) => e,
                    Err(pe) => {
                        return Err(pe);
                    },
                };
                return Ok(Expr::from_unary(op, e));
            }
        }
        self.primary()
    }

    /// Parses a factor: `*` and `/` chains over unary operands.
    fn factor(&mut self) -> (r: Result<Expr, LoxParserError>)
        requires
            old(self).wf(),
        ensures
            final(self).wf(),
            match r {
                Ok(e) => p_factor(old(self).items()) matches Ok(pair) && pair.0 == e@ && pair.1
                    == final(self).items(),
                Err(pe) => p_factor(old(self).items()) matches Err(ev) && ev == pe@,
            },
        decreases self.items().len(), 2int,
    {
        let mut expr = match self.unary() {
            Ok(e) => e,
            Err(pe) => {
                return Err(pe);
            },
        };
        proof {
            lemma_unary_progress(old(self).items());
        }
        let ghost target = p_factor_tail(expr@, self.items());
        loop
            invariant_except_break
                self.wf(),
                p_factor_tail(expr@, self.items()) == target,
                p_factor(old(self).items()) == target,
                self.items().len() < old(self).items().len(),
            ensures
                self.wf(),
                p_factor(old(self).items()) == target,
                target matches Ok(pair) && pair.0 == expr@ && pair.1 == self.items(),
            decreases self.items().len(),
        {
            let ahead = match self.peek() {
                Err(e) => {
                    return Err(LoxParserError::LexicalError(e));
                },
                Ok(None) => {
                    break ;
                },
                Ok(Some(t)) => t,
            };
            let op = match factor_op(&ahead.kind) {
                None => {
                    break ;
                },
                Some(op) => op,
            };
            let _ = self.advance();
            let ghost before_right = self.items();
            let right = match self.unary() {
                Ok(e) => e,
                Err(pe) => {
                    return Err(pe);
                },
            };
            proof {
                lemma_unary_progress(before_right);
            }
            expr = Expr::from_binary(expr, op, right);
        }
        Ok(expr)
    }

    /// Parses a term: `+` and `-` chains over factors.
    fn term(&mut self) -> (r: Result<Expr, LoxParserError>)
        requires
            old(self).wf(),
        ensures
            final(self).wf(),
            match r {
                Ok(e) => p_term(old(self).items()) matches Ok(pair) && pair.0 == e@ && pair.1
                    == final(self).items(),
                Err(pe) => p_term(old(self).items()) matches Err(ev) && ev == pe@,
            },
        decreases self.items().len(), 4int,
    {
        let mut expr = match self.factor() {
            Ok(e) => e,
            Err(pe) => {
                return Err(pe);
            },
        };
        proof {
            lemma_factor_progress(old(self).items());
        }
        let ghost target = p_term_tail(expr@, self.items());
        loop
            invariant_except_break
                self.wf(),
                p_term_tail(expr@, self.items()) == target,
                p_term(old(self).items()) == target,
                self.items().len() < old(self).items().len(),
            ensures
                self.wf(),
                p_term(old(self).items()) == target,
                target matches Ok(pair) && pair.0 == expr@ && pair.1 == self.items(),
            decreases self.items().len(),
        {
            let ahead = match self.peek() {
                Err(e) => {
                    return Err(LoxParserError::LexicalError(e));
                },
                Ok(None) => {
                    break ;
                },
                Ok(Some(t)) => t,
            };
            let op = match term_op(&ahead.kind) {
                None => {
                    break ;
                },
                Some(op) => op,
            };
            let _ = self.advance();
            let ghost before_right = self.items();
            let right = match self.factor() {
                Ok(e) => e,
                Err(pe) => {
                    return Err(pe);
                },
            };
            proof {
                lemma_factor_progress(before_right);
            }
            expr = Expr::from_binary(expr, op, right);
        }
        Ok(expr)
    }

    /// Parses a comparison: `<` `<=` `>` `>=` chains over terms.
    fn comparison(&mut self) -> (r: Result<Expr, LoxParserError>)
        requires
            old(self).wf(),
        ensures
            final(self).wf(),
            match r {
                Ok(e) => p_comparison(old(self).items()) matches Ok(pair) && pair.0 == e@ && pair.1
                    == final(self).items(),
                Err(pe) => p_comparison(old(self).items()) matches Err(ev) && ev == pe@,
            },
        decreases self.items().len(), 6int,
    {
        let mut expr = match self.term() {
            Ok(e) => e,
            Err(pe) => {
                return Err(pe);
            },
        };
        proof {
            lemma_term_progress(old(self).items());
        }
        let ghost target = p_comparison_tail(expr@, self.items());
        loop
            invariant_except_break
                self.wf(),
                p_comparison_tail(expr@, self.items()) == target,
                p_comparison(old(self).items()) == target,
                self.items().len() < old(self).items().len(),
            ensures
                self.wf(),
                p_comparison(old(self).items()) == target,
                target matches Ok(pair) && pair.0 == expr@ && pair.1 == self.items(),
            decreases self.items().len(),
        {
            let ahead = match self.peek() {
                Err(e) => {
                    return Err(LoxParserError::LexicalError(e));
                },
                Ok(None) => {
                    break ;
                },
                Ok(Some(t)) => t,
            };
            let op = match cmp_op(&ahead.kind) {
                None => {
                    break ;
                },
                Some(op) => op,
            };
            let _ = self.advance();
            let ghost before_right = self.items();
            let right = match self.term() {
                Ok(e) => e,
                Err(pe) => {
                    return Err(pe);
                },
            };
            proof {
                lemma_term_progress(before_right);
            }
            expr = Expr::from_binary(expr, op, right);
        }
        Ok(expr)
    }

    /// Parses an equality: `==` and `!=` chains over comparisons.
    fn equality(&mut self) -> (r: Result<Expr, LoxParserError>)
        requires
            old(self).wf(),
        ensures
            final(self).wf(),
            match r {
                Ok(e) => p_equality(old(self).items()) matches Ok(pair) && pair.0 == e@ && pair.1
                    == final(self).items(),
                Err(pe) => p_equality(old(self).items()) matches Err(ev) && ev == pe@,
            },
        decreases self.items().len(), 8int,
    {
        let mut expr = match self.comparison() {
            Ok(e) => e,
            Err(pe) => {
                return Err(pe);
            },
        };
        proof {
            lemma_comparison_progress(old(self).items());
        }
        let ghost target = p_equality_tail(expr@, self.items());
        loop
            invariant_except_break
                self.wf(),
                p_equality_tail(expr@, self.items()) == target,
                p_equality(old(self).items()) == target,
                self.items().len() < old(self).items().len(),
            ensures
                self.wf(),
                p_equality(old(self).items()) == target,
                target matches Ok(pair) && pair.0 == expr@ && pair.1 == self.items(),
            decreases self.items().len(),
        {
            let ahead = match self.peek() {
                Err(e) => {
                    return Err(LoxParserError::LexicalError(e));
                },
                Ok(None) => {
                    break ;
                },
                Ok(Some(t)) => t,
            };
            let op = match eq_op(&ahead.kind) {
                None => {
                    break ;
                },
                Some(op) => op,
            };
            let _ = self.advance();
            let ghost before_right = self.items();
            let right = match self.comparison() {
                Ok(e) => e,
                Err(pe) => {
                    return Err(pe);
                },
            };
            proof {
                lemma_comparison_progress(before_right);
            }
            expr = Expr::from_binary(expr, op, right);
        }
        Ok(expr)
    }

    /// Parses a logical expression: `and` and `or` chains over equalities.
    fn logical(&mut self) -> (r: Result<Expr, LoxParserError>)
        requires
            old(self).wf(),
        ensures
            final(self).wf(),
            match r {
                Ok(e) => p_logical(old(self).items()) matches Ok(pair) && pair.0 == e@ && pair.1
                    == final(self).items(),
                Err(pe) => p_logical(old(self).items()) matches Err(ev) && ev == pe@,
            },
        decreases self.items().len(), 10int,
    {
        let mut expr = match self.equality() {
            Ok(e) => e,
            Err(pe) => {
                return Err(pe);
            },
        };
        proof {
            lemma_equality_progress(old(self).items());
        }
        let ghost target = p_logical_tail(expr@, self.items());
        loop
            invariant_except_break
                self.wf(),
                p_logical_tail(expr@, self.items()) == target,
                p_logical(old(self).items()) == target,
                self.items().len() < old(self).items().len(),
            ensures
                self.wf(),
                p_logical(old(self).items()) == target,
                target matches Ok(pair) && pair.0 == expr@ && pair.1 == self.items(),
            decreases self.items().len(),
        {
            let ahead = match self.peek() {
                Err(e) => {
                    return Err(LoxParserError::LexicalError(e));
                },
                Ok(None) => {
                    break ;
                },
                Ok(Some(t)) => t,
            };
            let op = match logical_op(&ahead.kind) {
                None => {
                    break ;
                },
                Some(op) => op,
            };
            let _ = self.advance();
            let ghost before_right = self.items();
            let right = match self.equality() {
                Ok(e) => e,
                Err(pe) => {
                    return Err(pe);
                },
            };
            proof {
                lemma_equality_progress(before_right);
            }
            expr = Expr::from_binary(expr, op, right);
        }
        Ok(expr)
    }

    /// Parses a whole expression.
    fn expression(&mut self) -> (r: Result<Expr, LoxParserError>)
        requires
            old(self).wf(),
        ensures
            final(self).wf(),
            match r {
                Ok(e) => p_expression(old(self).items()) matches Ok(pair) && pair.0 == e@ && pair.1
                    == final(self).items(),
                Err(pe) => p_expression(old(self).items()) matches Err(ev) && ev == pe@,
            },
        decreases self.items().len(), 12int,
    {
        self.logical()
    }

    /// Parses one expression and leaves whatever follows it unread.
    pub fn parse_expression(&mut self) -> (r: Result<Expr, LoxParserError>)
        requires
            old(self).wf(),
        ensures
            final(self).wf(),
            match r {
                Ok(e) => p_expression(old(self).items()) matches Ok(pair) && pair.0 == e@ && pair.1
                    == final(self).items(),
                Err(pe) => p_expression(old(self).items()) matches Err(ev) && ev == pe@,
            },
    {
        self.expression()
    }

    /// Parses one statement, including its terminating `;`.
    fn statement(&mut self) -> (r: Result<Stmt, LoxParserError>)
        requires
            old(self).wf(),
        ensures
            final(self).wf(),
            match r {
                Ok(st) => p_statement(old(self).items()) matches Ok(pair) && pair.0 == st@
                    && pair.1 == final(self).items(),
                Err(pe) => p_statement(old(self).items()) matches Err(ev) && ev == pe@,
            },
    {
        let ahead = match self.peek() {
            Err(e) => {
                return Err(LoxParserError::LexicalError(e));
            },
            Ok(None) => {
                return Err(LoxParserError::EndOfFile);
            },
            Ok(Some(t)) => t,
        };
        if var_match(&ahead.kind).is_some() {
            return self.var_statement();
        }
        if print_match(&ahead.kind).is_some() {
            let _ = self.advance();
            return self.print_statement();
        }
        self.expression_statement()
    }

    /// A `var` declaration is reserved and rejected as unsupported.
    fn var_statement(&mut self) -> (r: Result<Stmt, LoxParserError>)
        ensures
            *final(self) == *old(self),
            r matches Err(pe) && pe@ == LoxParserErrorView::Unsupported,
    {
        Err(LoxParserError::Unsupported)
    }

    /// Parses the expression and `;` of a `print` statement whose keyword
    /// has been consumed.
    fn print_statement(&mut self) -> (r: Result<Stmt, LoxParserError>)
        requires
            old(self).wf(),
        ensures
            final(self).wf(),
            match r {
                Ok(st) => {
                    &&& p_expression(old(self).items()) matches Ok(pair)
                    &&& p_semicolon(pair.1) matches Ok(after)
                    &&& st@ == StmtView::Print(pair.0)
                    &&& final(self).items() == after
                },
                Err(pe) => {
                    ||| (p_expression(old(self).items()) matches Err(ev) && ev == pe@)
                    ||| (p_expression(old(self).items()) matches Ok(pair) && p_semicolon(pair.1)
                        matches Err(ev) && ev == pe@)
                },
            },
    {
        let e = match self.expression() {
            Ok(e) => e,
            Err(pe) => {
                return Err(pe);
            },
        };
        let ended = match self.consume(TokenKind::Structure(Structure::SemiColon)) {
            Ok(b) => b,
            Err(pe) => {
                return Err(pe);
            },
        };
        if !ended {
            return Err(LoxParserError::BadStructure(None));
        }
        Ok(Stmt::Print(e))
    }

    /// Parses an expression statement, including its `;`.
    fn expression_statement(&mut self) -> (r: Result<Stmt, LoxParserError>)
        requires
            old(self).wf(),
        ensures
            final(self).wf(),
            match r {
                Ok(st) => {
                    &&& p_expression(old(self).items()) matches Ok(pair)
                    &&& p_semicolon(pair.1) matches Ok(after)
                    &&& st@ == StmtView::Expr(pair.0)
                    &&& final(self).items() == after
                },
                Err(pe) => {
                    ||| (p_expression(old(self).items()) matches Err(ev) && ev == pe@)
                    ||| (p_expression(old(self).items()) matches Ok(pair) && p_semicolon(pair.1)
                        matches Err(ev) && ev == pe@)
                },
            },
    {
        let e = match self.expression() {
            Ok(e) => e,
            Err(pe) => {
                return Err(pe);
            },
        };
        let ended = match self.consume(TokenKind::Structure(Structure::SemiColon)) {
            Ok(b) => b,
            Err(pe) => {
                return Err(pe);
            },
        };
        if !ended {
            return Err(LoxParserError::BadStructure(None));
        }
        Ok(Stmt::Expr(e))
    }

    /// Parses the whole input as a sequence of statements, stopping at the
    /// first error with no partial result.
    pub fn parse(&mut self) -> (r: Result<Vec<Stmt>, LoxParserError>)
        requires
            old(self).wf(),
        ensures
            final(self).wf(),
            match r {
                Ok(stmts) => p_program(old(self).items()) == Ok::<
                    Seq<StmtView>,
                    LoxParserErrorView,
                >(stmts@.map_values(|st: Stmt| st@)),
                Err(pe) => p_program(old(self).items()) matches Err(ev) && ev == pe@,
            },
    {
        let mut statements: Vec<Stmt> = Vec::new();
        proof {
            assert(statements@.map_values(|st: Stmt| st@)
                =~= Seq::<StmtView>::empty());
        }
        loop
            invariant_except_break
                self.wf(),
                p_program_after(statements@.map_values(|st: Stmt| st@), self.items())
                    == p_program(old(self).items()),
            ensures
                self.wf(),
                self.items().len() == 0,
                p_program_after(statements@.map_values(|st: Stmt| st@), self.items())
                    == p_program(old(self).items()),
            decreases self.items().len(),
        {
            let ahead = match self.peek() {
                Err(e) => {
                    return Err(LoxParserError::LexicalError(e));
                },
                Ok(None) => {
                    break ;
                },
                Ok(Some(t)) => t,
            };
            let ghost before = self.items();
            let ghost done = statements@.map_values(|st: Stmt| st@);
            let st = match self.statement() {
                Ok(st) => st,
                Err(pe) => {
                    return Err(pe);
                },
            };
            proof {
                lemma_statement_progress(before);
            }
            statements.push(st);
            proof {
                assert(statements@.map_values(|st: Stmt| st@) =~= done + seq![st@]);
                assert(done + (seq![st@] + (match p_program(self.items()) {
                    Ok(more) => more,
                    Err(_) => Seq::empty(),
                })) =~= (done + seq![st@]) + (match p_program(self.items()) {
                    Ok(more) => more,
                    Err(_) => Seq::empty(),
                }));
            }
        }
        proof {
            assert(statements@.map_values(|st: Stmt| st@) + Seq::<StmtView>::empty()
                =~= statements@.map_values(|st: Stmt| st@));
        }
        Ok(statements)
    }
}

} // verus!

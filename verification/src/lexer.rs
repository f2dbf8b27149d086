//! A flat token shape for exchange with other tools: every fixed lexeme is
//! one `Symbol`, and a token carries only its line number. `Tokens` adapts
//! the scanner to this shape.

use vstd::prelude::*;
use vstd::string::StringExecFns;

use crate::number::Number;
use crate::scanner::{scan_items, Scanner};
use crate::token::{Keyword, Operator, Structure, TokenKindView, TokenView};

verus! {

/// Every fixed lexeme of the language as one flat enumeration.
#[derive(Debug, PartialEq, Eq, Structural, Clone, Copy)]
pub enum Symbol {
    OpenParen,
    CloseParen,
    OpenBrace,
    CloseBrace,
    Comma,
    Dot,
    Minus,
    Plus,
    Semicolon,
    Slash,
    Star,
    Bang,
    BangEq,
    Eq,
    EqEq,
    Greater,
    GreaterEq,
    Less,
    LessEq,
    And,
    Class,
    Else,
    False,
    Fun,
    For,
    If,
    Nil,
    Or,
    Print,
    Return,
    Super,
    This,
    True,
    Var,
    While,
}

/// The classification of a flat token.
#[derive(Debug, Clone)]
pub enum TokenKind {
    Symbol(Symbol),
    Identifier(String),
    String(String),
    Number(Number),
}

/// A flat token with the line it starts on.
#[derive(Debug, Clone)]
pub struct Token {
    pub kind: TokenKind,
    pub line: usize,
}

/// The mathematical image of a flat token kind.
pub enum FlatKindView {
    Symbol(Symbol),
    Identifier(Seq<char>),
    String(Seq<char>),
    Number(Number),
}

impl View for TokenKind {
    type V = FlatKindView;

    open spec fn view(&self) -> FlatKindView {
        match *self {
            TokenKind::Symbol(s) => FlatKindView::Symbol(s),
            TokenKind::Identifier(ref s) => FlatKindView::Identifier(s@),
            TokenKind::String(ref s) => FlatKindView::String(s@),
            TokenKind::Number(n) => FlatKindView::Number(n),
        }
    }
}

/// The flat form of a scanner token kind.
pub open spec fn flat_kind(k: TokenKindView) -> FlatKindView {
    match k {
        TokenKindView::Identifier(s) => FlatKindView::Identifier(s),
        TokenKindView::String(s) => FlatKindView::String(s),
        TokenKindView::Number(n) => FlatKindView::Number(n),
        TokenKindView::Literal(l) => FlatKindView::Symbol(
            match l {
                crate::token::Literal::True => Symbol::True,
                crate::token::Literal::False => Symbol::False,
                crate::token::Literal::Nil => Symbol::Nil,
            },
        ),
        TokenKindView::Structure(s) => FlatKindView::Symbol(
            match s {
                Structure::LeftParen => Symbol::OpenParen,
                Structure::RightParen => Symbol::CloseParen,
                Structure::LeftBrace => Symbol::OpenBrace,
                Structure::RightBrace => Symbol::CloseBrace,
                Structure::Comma => Symbol::Comma,
                Structure::Dot => Symbol::Dot,
                Structure::SemiColon => Symbol::Semicolon,
            },
        ),
        TokenKindView::Operator(op) => FlatKindView::Symbol(
            match op {
                Operator::Minus => Symbol::Minus,
                Operator::Plus => Symbol::Plus,
                Operator::Slash => Symbol::Slash,
                Operator::Star => Symbol::Star,
                Operator::Bang => Symbol::Bang,
                Operator::BangEqual => Symbol::BangEq,
                Operator::Equal => Symbol::Eq,
                Operator::EqualEqual => Symbol::EqEq,
                Operator::Greater => Symbol::Greater,
                Operator::GreaterEqual => Symbol::GreaterEq,
                Operator::Less => Symbol::Less,
                Operator::LessEqual => Symbol::LessEq,
                Operator::And => Symbol::And,
                Operator::Or => Symbol::Or,
            },
        ),
        TokenKindView::Keyword(k) => FlatKindView::Symbol(
            match k {
                Keyword::Class => Symbol::Class,
                Keyword::Else => Symbol::Else,
                Keyword::Fun => Symbol::Fun,
                Keyword::For => Symbol::For,
                Keyword::If => Symbol::If,
                Keyword::Print => Symbol::Print,
                Keyword::Return => Symbol::Return,
                Keyword::Super => Symbol::Super,
                Keyword::This => Symbol::This,
                Keyword::Var => Symbol::Var,
                Keyword::While => Symbol::While,
            },
        ),
    }
}

/// Flattens one scanner token.
fn flatten(t: &crate::token::Token<'_>) -> (r: Token)
    ensures
        r.kind@ == flat_kind(t@.kind),
        r.line == t.meta.row,
{
    let kind = match t.kind {
        crate::token::TokenKind::Identifier(s) => TokenKind::Identifier(String::from_str(s)),
        crate::token::TokenKind::String(s) => TokenKind::String(String::from_str(s)),
        crate::token::TokenKind::Number(n) => TokenKind::Number(n),
        crate::token::TokenKind::Literal(l) => TokenKind::Symbol(
            match l {
                crate::token::Literal::True => Symbol::True,
                crate::token::Literal::False => Symbol::False,
                crate::token::Literal::Nil => Symbol::Nil,
            },
        ),
        crate::token::TokenKind::Structure(s) => TokenKind::Symbol(
            match s {
                Structure::LeftParen => Symbol::OpenParen,
                Structure::RightParen => Symbol::CloseParen,
                Structure::LeftBrace => Symbol::OpenBrace,
                Structure::RightBrace => Symbol::CloseBrace,
                Structure::Comma => Symbol::Comma,
                Structure::Dot => Symbol::Dot,
                Structure::SemiColon => Symbol::Semicolon,
            },
        ),
        crate::token::TokenKind::Operator(op) => TokenKind::Symbol(
            match op {
                Operator::Minus => Symbol::Minus,
                Operator::Plus => Symbol::Plus,
                Operator::Slash => Symbol::Slash,
                Operator::Star => Symbol::Star,
                Operator::Bang => Symbol::Bang,
                Operator::BangEqual => Symbol::BangEq,
                Operator::Equal => Symbol::Eq,
                Operator::EqualEqual => Symbol::EqEq,
                Operator::Greater => Symbol::Greater,
                Operator::GreaterEqual => Symbol::GreaterEq,
                Operator::Less => Symbol::Less,
                Operator::LessEqual => Symbol::LessEq,
                Operator::And => Symbol::And,
                Operator::Or => Symbol::Or,
            },
        ),
        crate::token::TokenKind::Keyword(k) => TokenKind::Symbol(
            match k {
                Keyword::Class => Symbol::Class,
                Keyword::Else => Symbol::Else,
                Keyword::Fun => Symbol::Fun,
                Keyword::For => Symbol::For,
                Keyword::If => Symbol::If,
                Keyword::Print => Symbol::Print,
                Keyword::Return => Symbol::Return,
                Keyword::Super => Symbol::Super,
                Keyword::This => Symbol::This,
                Keyword::Var => Symbol::Var,
                Keyword::While => Symbol::While,
            },
        ),
    };
    Token { kind, line: t.meta.row }
}

/// A stream of flat tokens over source text; it ends at the end of input or
/// at the first lexical error.
pub struct Tokens<'a> {
    scanner: Scanner<'a>,
}

impl<'a> Tokens<'a> {
    /// The scanner behind the stream is well formed.
    pub closed spec fn wf(self) -> bool {
        self.scanner.wf()
    }

    /// The items the scanner still has to offer.
    pub closed spec fn items(self) -> Seq<
        Result<TokenView, crate::error::LexicalErrorView>,
    > {
        self.scanner.items()
    }

    /// Builds a stream over `src`.
    pub fn new(src: &'a str) -> (r: Tokens<'a>)
        requires
            src@.len() < usize::MAX,
        ensures
            r.wf(),
            r.items() == scan_items(src@, 0, 1, 1),
    {
        Tokens { scanner: Scanner::new(src) }
    }

    /// The next flat token: `None` at the end of input and at the first
    /// lexical error.
    pub fn next(&mut self) -> (r: Option<Token>)
        requires
            old(self).wf(),
        ensures
            final(self).wf(),
            match r {
                Some(t) => {
                    &&& old(self).items().len() > 0
                    &&& old(self).items()[0] matches Ok(tv) && t.kind@ == flat_kind(tv.kind)
                        && t.line as int == tv.row
                    &&& final(self).items() == old(self).items().drop_first()
                },
                None => {
                    &&& old(self).items().len() == 0 || old(self).items()[0] is Err
                    &&& (old(self).items().len() == 0 ==> final(self).items() == old(
                        self,
                    ).items())
                    &&& (old(self).items().len() > 0 ==> final(self).items() == old(
                        self,
                    ).items().drop_first())
                },
            },
    {
        match self.scanner.scan_token() {
            None => None,
            Some(Err(_)) => None,
            Some(Ok(t)) => Some(flatten(&t)),
        }
    }
}

} // verus!

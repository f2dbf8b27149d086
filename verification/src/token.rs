//! The lexical vocabulary: structural punctuation, operators, reserved
//! keywords, literal markers, and the token record with its source position.

use vstd::prelude::*;

use crate::number::{same_rational, Number};
use crate::text::str_content_eq;

verus! {

/// Structural punctuation.
#[derive(Debug, PartialEq, Eq, Structural, Clone, Copy)]
pub enum Structure {
    LeftParen,
    RightParen,
    LeftBrace,
    RightBrace,
    Comma,
    Dot,
    SemiColon,
}

/// The text of a structural token.
pub open spec fn structure_text(s: Structure) -> Seq<char> {
    match s {
        Structure::LeftParen => "("@,
        Structure::RightParen => ")"@,
        Structure::LeftBrace => "{"@,
        Structure::RightBrace => "}"@,
        Structure::Comma => ","@,
        Structure::Dot => "."@,
        Structure::SemiColon => ";"@,
    }
}

impl Structure {
    /// Renders the punctuation mark.
    pub fn text(&self) -> (r: &'static str)
        ensures
            r@ == structure_text(*self),
    {
        match self {
            Structure::LeftParen => "(",
            Structure::RightParen => ")",
            Structure::LeftBrace => "{",
            Structure::RightBrace => "}",
            Structure::Comma => ",",
            Structure::Dot => ".",
            Structure::SemiColon => ";",
        }
    }
}

/// Operators, including the word operators `and` and `or`.
#[derive(Debug, PartialEq, Eq, Structural, Clone, Copy)]
pub enum Operator {
    /// "-"
    Minus,
    /// "+"
    Plus,
    /// "/"
    Slash,
    /// "*"
    Star,
    /// "!"
    Bang,
    /// "!="
    BangEqual,
    /// "="
    Equal,
    /// "=="
    EqualEqual,
    /// ">"
    Greater,
    /// ">="
    GreaterEqual,
    /// "<"
    Less,
    /// "<="
    LessEqual,
    /// "and"
    And,
    /// "or"
    Or,
}

/// The text of an operator token.
pub open spec fn operator_text(op: Operator) -> Seq<char> {
    match op {
        Operator::Minus => "-"@,
        Operator::Plus => "+"@,
        Operator::Slash => "/"@,
        Operator::Star => "*"@,
        Operator::Bang => "!"@,
        Operator::BangEqual => "!="@,
        Operator::Equal => "="@,
        Operator::EqualEqual => "=="@,
        Operator::Greater => ">"@,
        Operator::GreaterEqual => ">="@,
        Operator::Less => "<"@,
        Operator::LessEqual => "<="@,
        Operator::And => "and"@,
        Operator::Or => "or"@,
    }
}

impl Operator {
    /// Renders the operator's spelling.
    pub fn text(&self) -> (r: &'static str)
        ensures
            r@ == operator_text(*self),
    {
        match self {
            Operator::Minus => "-",
            Operator::Plus => "+",
            Operator::Slash => "/",
            Operator::Star => "*",
            Operator::Bang => "!",
            Operator::BangEqual => "!=",
            Operator::Equal => "=",
            Operator::EqualEqual => "==",
            Operator::Greater => ">",
            Operator::GreaterEqual => ">=",
            Operator::Less => "<",
            Operator::LessEqual => "<=",
            Operator::And => "and",
            Operator::Or => "or",
        }
    }
}

/// Reserved keywords that head declarations and statements.
#[derive(Debug, PartialEq, Eq, Structural, Clone, Copy)]
pub enum Keyword {
    Class,
    Else,
    Fun,
    For,
    If,
    Print,
    Return,
    Super,
    This,
    Var,
    While,
}

/// The spelling of a reserved keyword.
pub open spec fn keyword_text(k: Keyword) -> Seq<char> {
    match k {
        Keyword::Class => "class"@,
        Keyword::Else => "else"@,
        Keyword::Fun => "fun"@,
        Keyword::For => "for"@,
        Keyword::If => "if"@,
        Keyword::Print => "print"@,
        Keyword::Return => "return"@,
        Keyword::Super => "super"@,
        Keyword::This => "this"@,
        Keyword::Var => "var"@,
        Keyword::While => "while"@,
    }
}

impl Keyword {
    /// Renders the keyword's spelling.
    pub fn text(&self) -> (r: &'static str)
        ensures
            r@ == keyword_text(*self),
    {
        match self {
            Keyword::Class => "class",
            Keyword::Else => "else",
            Keyword::Fun => "fun",
            Keyword::For => "for",
            Keyword::If => "if",
            Keyword::Print => "print",
            Keyword::Return => "return",
            Keyword::Super => "super",
            Keyword::This => "this",
            Keyword::Var => "var",
            Keyword::While => "while",
        }
    }
}

/// The keyword-spelled literal markers.
#[derive(Debug, PartialEq, Eq, Structural, Clone, Copy)]
pub enum Literal {
    True,
    False,
    Nil,
}

/// The spelling of a literal marker.
pub open spec fn literal_text(l: Literal) -> Seq<char> {
    match l {
        Literal::True => "true"@,
        Literal::False => "false"@,
        Literal::Nil => "nil"@,
    }
}

impl Literal {
    /// Renders the literal's spelling.
    pub fn text(&self) -> (r: &'static str)
        ensures
            r@ == literal_text(*self),
    {
        match self {
            Literal::True => "true",
            Literal::False => "false",
            Literal::Nil => "nil",
        }
    }
}

/// A fixed language token: punctuation, operator or keyword.
#[derive(Debug, PartialEq, Eq, Structural, Clone, Copy)]
pub enum LangToken {
    Structure(Structure),
    Operator(Operator),
    Keyword(Keyword),
}

/// The spelling of a fixed language token.
pub open spec fn lang_token_text(t: LangToken) -> Seq<char> {
    match t {
        LangToken::Structure(s) => structure_text(s),
        LangToken::Operator(op) => operator_text(op),
        LangToken::Keyword(k) => keyword_text(k),
    }
}

impl LangToken {
    /// Renders the token's spelling.
    pub fn text(&self) -> (r: &'static str)
        ensures
            r@ == lang_token_text(*self),
    {
        match self {
            LangToken::Structure(s) => s.text(),
            LangToken::Operator(op) => op.text(),
            LangToken::Keyword(k) => k.text(),
        }
    }
}

/// The classification of one lexical unit; identifier, string and number
/// tokens carry their payload.
#[derive(Debug, Clone, Copy)]
pub enum TokenKind<'a> {
    Identifier(&'a str),
    String(&'a str),
    Number(Number),
    Literal(Literal),
    Structure(Structure),
    Operator(Operator),
    Keyword(Keyword),
}

/// The mathematical image of a token kind: payloads become character
/// sequences, the rest stays as it is.
pub enum TokenKindView {
    Identifier(Seq<char>),
    String(Seq<char>),
    Number(Number),
    Literal(Literal),
    Structure(Structure),
    Operator(Operator),
    Keyword(Keyword),
}

impl<'a> View for TokenKind<'a> {
    type V = TokenKindView;

    open spec fn view(&self) -> TokenKindView {
        match *self {
            TokenKind::Identifier(s) => TokenKindView::Identifier(s@),
            TokenKind::String(s) => TokenKindView::String(s@),
            TokenKind::Number(n) => TokenKindView::Number(n),
            TokenKind::Literal(l) => TokenKindView::Literal(l),
            TokenKind::Structure(s) => TokenKindView::Structure(s),
            TokenKind::Operator(op) => TokenKindView::Operator(op),
            TokenKind::Keyword(k) => TokenKindView::Keyword(k),
        }
    }
}

/// What equality of two token kinds means: same classification, payloads
/// equal by content, numbers equal as rationals.
pub open spec fn token_kind_eq(a: TokenKindView, b: TokenKindView) -> bool {
    match (a, b) {
        (TokenKindView::Identifier(x), TokenKindView::Identifier(y)) => x == y,
        (TokenKindView::String(x), TokenKindView::String(y)) => x == y,
        (TokenKindView::Number(x), TokenKindView::Number(y)) => same_rational(x, y),
        (TokenKindView::Literal(x), TokenKindView::Literal(y)) => x == y,
        (TokenKindView::Structure(x), TokenKindView::Structure(y)) => x == y,
        (TokenKindView::Operator(x), TokenKindView::Operator(y)) => x == y,
        (TokenKindView::Keyword(x), TokenKindView::Keyword(y)) => x == y,
        _ => false,
    }
}

impl<'a> PartialEq for TokenKind<'a> {
    fn eq(&self, other: &TokenKind<'a>) -> (r: bool)
        ensures
            r == token_kind_eq(self@, other@),
    {
        match (self, other) {
            (TokenKind::Identifier(a), TokenKind::Identifier(b)) => str_content_eq(a, b),
            (TokenKind::String(a), TokenKind::String(b)) => str_content_eq(a, b),
            (TokenKind::Number(a), TokenKind::Number(b)) => a == b,
            (TokenKind::Literal(a), TokenKind::Literal(b)) => a == b,
            (TokenKind::Structure(a), TokenKind::Structure(b)) => a == b,
            (TokenKind::Operator(a), TokenKind::Operator(b)) => a == b,
            (TokenKind::Keyword(a), TokenKind::Keyword(b)) => a == b,
            _ => false,
        }
    }
}

impl<'a> vstd::std_specs::cmp::PartialEqSpecImpl for TokenKind<'a> {
    open spec fn obeys_eq_spec() -> bool {
        true
    }

    open spec fn eq_spec(&self, other: &TokenKind<'a>) -> bool {
        token_kind_eq(self@, other@)
    }
}

/// The 1-based source position where a token's lexeme starts.
#[derive(Debug, PartialEq, Eq, Structural, Clone, Copy)]
pub struct TokenMeta {
    pub row: usize,
    pub col: usize,
}

/// One lexical unit together with its source position.
#[derive(Debug, Clone, Copy)]
pub struct Token<'a> {
    pub kind: TokenKind<'a>,
    pub meta: TokenMeta,
}

/// What equality of two tokens means: equal kinds at the same position.
pub open spec fn token_eq(a: TokenView, b: TokenView) -> bool {
    token_kind_eq(a.kind, b.kind) && a.row == b.row && a.col == b.col
}

/// The mathematical image of a token.
pub struct TokenView {
    pub kind: TokenKindView,
    pub row: int,
    pub col: int,
}

impl<'a> View for Token<'a> {
    type V = TokenView;

    open spec fn view(&self) -> TokenView {
        TokenView { kind: self.kind@, row: self.meta.row as int, col: self.meta.col as int }
    }
}

impl<'a> PartialEq for Token<'a> {
    fn eq(&self, other: &Token<'a>) -> (r: bool)
        ensures
            r == token_eq(self@, other@),
    {
        self.kind.eq(&other.kind) && self.meta == other.meta
    }
}

impl<'a> vstd::std_specs::cmp::PartialEqSpecImpl for Token<'a> {
    open spec fn obeys_eq_spec() -> bool {
        true
    }

    open spec fn eq_spec(&self, other: &Token<'a>) -> bool {
        token_eq(self@, other@)
    }
}

} // verus!

//! A small tree-walking interpreter for a dynamically typed expression
//! language: a scanner that turns source text into tokens, a recursive-descent
//! parser that builds an expression/statement tree, and an evaluator that
//! reduces a tree to a runtime value.
//!
//! Numbers in the language are exact rationals (a 64-bit signed numerator over
//! a 64-bit unsigned denominator); decimal literals such as `420.69` scan to
//! the rational with a power-of-ten denominator. An arithmetic result that
//! does not fit the representation reports an overflow error, and division by
//! zero is an error.

pub mod error;
pub mod interpreter;
pub mod lexer;
pub mod number;
pub mod parser;
pub mod printer;
pub mod scanner;
pub mod syntax;
pub mod text;
pub mod token;
pub mod value;

use vstd::prelude::*;

use crate::error::{InterpreterError, InterpreterErrorView, LexicalErrorView};
use crate::interpreter::{eval_view, spec_eval, Interpreter};
use crate::parser::{p_expression, p_program, Parser};
use crate::scanner::scan_items;
use crate::token::TokenView;
use crate::value::{Value, ValueView};

verus! {

/// What running one line of source yields: the text is scanned, one
/// expression is parsed from the front of the token stream, and the
/// expression is evaluated.
pub open spec fn spec_run(s: Seq<char>) -> Result<ValueView, InterpreterErrorView> {
    match p_expression(scan_items(s, 0, 1, 1)) {
        Err(pe) => Err(InterpreterErrorView::ParserError(pe)),
        Ok(pair) => spec_eval(pair.0),
    }
}

/// The front end in one piece: scanning, parsing and evaluation behind a
/// single entry point.
pub struct Lox {
    interpreter: Interpreter,
}

impl Lox {
    /// Builds the front end.
    pub fn new() -> Lox {
        Lox { interpreter: Interpreter::new() }
    }

    /// Scans and parses one expression from `script` and evaluates it.
    pub fn run(&mut self, script: &str) -> (r: Result<Value, InterpreterError>)
        requires
            script@.len() < usize::MAX,
        ensures
            eval_view(r) == spec_run(script@),
    {
        let mut parser = Parser::new(script);
        let expr = match parser.parse_expression() {
            Ok(e) => e,
            Err(pe) => {
                return Err(InterpreterError::ParserError(pe));
            },
        };
        self.interpreter.evaluate(&expr)
    }
}

impl Default for Lox {
    fn default() -> (r: Lox) {
        Lox::new()
    }
}

/// Scanning is deterministic: the item sequence is a function of the source
/// text alone, so scanning the same text twice — here, any two equal texts —
/// yields an identical token sequence. Together with `Scanner::scan_all`'s
/// contract, which pins its output to `scan_items` of the scanner's text,
/// this says two scanners over one text produce the same items.
pub proof fn lemma_scan_deterministic(s1: Seq<char>, s2: Seq<char>)
    requires
        s1 == s2,
    ensures
        scan_items(s1, 0, 1, 1) == scan_items(s2, 0, 1, 1),
{
}

/// Parsing is deterministic: the statement sequence is a function of the
/// token sequence alone, so re-parsing the same tokens twice yields
/// structurally identical trees. Together with `Parser::parse`'s contract,
/// which pins its output to `p_program` of the parser's items, this says
/// two parsers over one token stream build the same trees.
pub proof fn lemma_parse_deterministic(
    its1: Seq<Result<TokenView, LexicalErrorView>>,
    its2: Seq<Result<TokenView, LexicalErrorView>>,
)
    requires
        its1 == its2,
    ensures
        p_program(its1) == p_program(its2),
        p_expression(its1) == p_expression(its2),
{
}


} // verus!

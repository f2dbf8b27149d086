//! The three layers of errors: lexical errors from the scanner, parser
//! errors from the parser, and the interpreter error that wraps every layer
//! together with the runtime failures of evaluation.

use vstd::prelude::*;
use vstd::string::StringExecFns;

use crate::number::number_text;
use crate::text::{dec_digits, escaped_text, push_char, push_escaped, push_usize_decimal};
use crate::token::{operator_text, structure_text, Operator, Structure};
use crate::value::{Value, ValueView};

verus! {

/// A failure of the scanner; each variant carries the 1-based row and
/// column it is reported at.
#[derive(Debug, PartialEq, Eq, Structural, Clone, Copy)]
pub enum LexicalError {
    UnexpectedChar(char, usize, usize),
    UnterminatedString(usize, usize),
    ParseNumberError(usize, usize),
}

/// The mathematical image of a lexical error, with unbounded positions.
pub enum LexicalErrorView {
    UnexpectedChar(char, int, int),
    UnterminatedString(int, int),
    ParseNumberError(int, int),
}

impl View for LexicalError {
    type V = LexicalErrorView;

    open spec fn view(&self) -> LexicalErrorView {
        match *self {
            LexicalError::UnexpectedChar(c, r, k) => LexicalErrorView::UnexpectedChar(
                c,
                r as int,
                k as int,
            ),
            LexicalError::UnterminatedString(r, k) => LexicalErrorView::UnterminatedString(
                r as int,
                k as int,
            ),
            LexicalError::ParseNumberError(r, k) => LexicalErrorView::ParseNumberError(
                r as int,
                k as int,
            ),
        }
    }
}

/// A failure of the parser.
#[derive(Debug, Clone, Copy)]
pub enum LoxParserError {
    LexicalError(LexicalError),
    /// A keyword construct that this front end does not handle.
    Unsupported,
    /// An operator stood where an operand was expected.
    BadOperator(Option<Operator>),
    /// Mismatched or unexpected punctuation, such as a missing `)` or `;`.
    BadStructure(Option<Structure>),
    /// Input exhausted where a token was required.
    EndOfFile,
    /// Input exhausted where a specific token had to be consumed.
    EndOfFileConsume,
    Message(&'static str),
}

/// The mathematical image of a parser error.
pub enum LoxParserErrorView {
    LexicalError(LexicalErrorView),
    Unsupported,
    BadOperator(Option<Operator>),
    BadStructure(Option<Structure>),
    EndOfFile,
    EndOfFileConsume,
    Message(Seq<char>),
}

impl View for LoxParserError {
    type V = LoxParserErrorView;

    open spec fn view(&self) -> LoxParserErrorView {
        match *self {
            LoxParserError::LexicalError(e) => LoxParserErrorView::LexicalError(e@),
            LoxParserError::Unsupported => LoxParserErrorView::Unsupported,
            LoxParserError::BadOperator(op) => LoxParserErrorView::BadOperator(op),
            LoxParserError::BadStructure(s) => LoxParserErrorView::BadStructure(s),
            LoxParserError::EndOfFile => LoxParserErrorView::EndOfFile,
            LoxParserError::EndOfFileConsume => LoxParserErrorView::EndOfFileConsume,
            LoxParserError::Message(m) => LoxParserErrorView::Message(m@),
        }
    }
}

/// What equality of two parser errors means: equal variants and payloads,
/// messages compared by content.
pub open spec fn parser_error_eq(a: LoxParserErrorView, b: LoxParserErrorView) -> bool {
    match (a, b) {
        (LoxParserErrorView::LexicalError(x), LoxParserErrorView::LexicalError(y)) => x == y,
        (LoxParserErrorView::Unsupported, LoxParserErrorView::Unsupported) => true,
        (LoxParserErrorView::BadOperator(x), LoxParserErrorView::BadOperator(y)) => x == y,
        (LoxParserErrorView::BadStructure(x), LoxParserErrorView::BadStructure(y)) => x == y,
        (LoxParserErrorView::EndOfFile, LoxParserErrorView::EndOfFile) => true,
        (LoxParserErrorView::EndOfFileConsume, LoxParserErrorView::EndOfFileConsume) => true,
        (LoxParserErrorView::Message(x), LoxParserErrorView::Message(y)) => x == y,
        _ => false,
    }
}

impl PartialEq for LoxParserError {
    fn eq(&self, other: &LoxParserError) -> (r: bool)
        ensures
            r == parser_error_eq(self@, other@),
    {
        match (self, other) {
            (LoxParserError::LexicalError(a), LoxParserError::LexicalError(b)) => *a == *b,
            (LoxParserError::Unsupported, LoxParserError::Unsupported) => true,
            (LoxParserError::BadOperator(a), LoxParserError::BadOperator(b)) => match (a, b) {
                (Some(x), Some(y)) => *x == *y,
                (None, None) => true,
                _ => false,
            },
            (LoxParserError::BadStructure(a), LoxParserError::BadStructure(b)) => match (a, b) {
                (Some(x), Some(y)) => *x == *y,
                (None, None) => true,
                _ => false,
            },
            (LoxParserError::EndOfFile, LoxParserError::EndOfFile) => true,
            (LoxParserError::EndOfFileConsume, LoxParserError::EndOfFileConsume) => true,
            (LoxParserError::Message(a), LoxParserError::Message(b)) => {
                crate::text::str_content_eq(a, b)
            },
            _ => false,
        }
    }
}

impl vstd::std_specs::cmp::PartialEqSpecImpl for LoxParserError {
    open spec fn obeys_eq_spec() -> bool {
        true
    }

    open spec fn eq_spec(&self, other: &LoxParserError) -> bool {
        parser_error_eq(self@, other@)
    }
}

impl From<LexicalError> for LoxParserError {
    fn from(value: LexicalError) -> (r: LoxParserError)
        ensures
            r == LoxParserError::LexicalError(value),
    {
        LoxParserError::LexicalError(value)
    }
}

impl vstd::std_specs::convert::FromSpecImpl<LexicalError> for LoxParserError {
    open spec fn obeys_from_spec() -> bool {
        true
    }

    open spec fn from_spec(value: LexicalError) -> LoxParserError {
        LoxParserError::LexicalError(value)
    }
}

impl From<&'static str> for LoxParserError {
    fn from(value: &'static str) -> (r: LoxParserError)
        ensures
            r == LoxParserError::Message(value),
    {
        LoxParserError::Message(value)
    }
}

impl vstd::std_specs::convert::FromSpecImpl<&'static str> for LoxParserError {
    open spec fn obeys_from_spec() -> bool {
        true
    }

    open spec fn from_spec(value: &'static str) -> LoxParserError {
        LoxParserError::Message(value)
    }
}

/// A failure of the whole pipeline: a wrapped lexical or parser error, or a
/// runtime failure of evaluation.
#[derive(Debug, Clone)]
pub enum InterpreterError {
    /// The hosting command line was handed more arguments than it takes.
    TooManyArgs,
    LexicalError(LexicalError),
    ParserError(LoxParserError),
    /// An operand had the wrong type; carries the offending value.
    TypeError(Value),
    /// The divisor of a division evaluated to zero.
    DivisionByZero,
    /// The exact numeric result does not fit the representation.
    ArithmeticOverflow,
    /// An identifier was evaluated, and no variable storage exists.
    UndefinedReference(String),
}

/// The mathematical image of an interpreter error.
pub enum InterpreterErrorView {
    TooManyArgs,
    LexicalError(LexicalErrorView),
    ParserError(LoxParserErrorView),
    TypeError(ValueView),
    DivisionByZero,
    ArithmeticOverflow,
    UndefinedReference(Seq<char>),
}

impl View for InterpreterError {
    type V = InterpreterErrorView;

    open spec fn view(&self) -> InterpreterErrorView {
        match *self {
            InterpreterError::TooManyArgs => InterpreterErrorView::TooManyArgs,
            InterpreterError::LexicalError(e) => InterpreterErrorView::LexicalError(e@),
            InterpreterError::ParserError(e) => InterpreterErrorView::ParserError(e@),
            InterpreterError::TypeError(ref v) => InterpreterErrorView::TypeError(v@),
            InterpreterError::DivisionByZero => InterpreterErrorView::DivisionByZero,
            InterpreterError::ArithmeticOverflow => InterpreterErrorView::ArithmeticOverflow,
            InterpreterError::UndefinedReference(ref s) => InterpreterErrorView::UndefinedReference(
                s@,
            ),
        }
    }
}

impl PartialEq for InterpreterError {
    /// Interpreter errors compare equal only as `TooManyArgs`; every other
    /// pair is unequal.
    fn eq(&self, other: &InterpreterError) -> (r: bool)
        ensures
            r == (self@ is TooManyArgs && other@ is TooManyArgs),
    {
        match (self, other) {
            (InterpreterError::TooManyArgs, InterpreterError::TooManyArgs) => true,
            _ => false,
        }
    }
}

impl vstd::std_specs::cmp::PartialEqSpecImpl for InterpreterError {
    open spec fn obeys_eq_spec() -> bool {
        true
    }

    open spec fn eq_spec(&self, other: &InterpreterError) -> bool {
        self@ is TooManyArgs && other@ is TooManyArgs
    }
}

impl From<LexicalError> for InterpreterError {
    fn from(value: LexicalError) -> (r: InterpreterError)
        ensures
            r == InterpreterError::LexicalError(value),
    {
        InterpreterError::LexicalError(value)
    }
}

impl vstd::std_specs::convert::FromSpecImpl<LexicalError> for InterpreterError {
    open spec fn obeys_from_spec() -> bool {
        true
    }

    open spec fn from_spec(value: LexicalError) -> InterpreterError {
        InterpreterError::LexicalError(value)
    }
}

impl From<LoxParserError> for InterpreterError {
    fn from(value: LoxParserError) -> (r: InterpreterError)
        ensures
            r == InterpreterError::ParserError(value),
    {
        InterpreterError::ParserError(value)
    }
}

impl vstd::std_specs::convert::FromSpecImpl<LoxParserError> for InterpreterError {
    open spec fn obeys_from_spec() -> bool {
        true
    }

    open spec fn from_spec(value: LoxParserError) -> InterpreterError {
        InterpreterError::ParserError(value)
    }
}

/// The diagnostic line of a lexical error: its `[row:col]` position and a
/// tag naming the kind.
pub open spec fn lexical_message_text(e: LexicalErrorView) -> Seq<char> {
    match e {
        LexicalErrorView::UnexpectedChar(c, row, col) => position_text(row, col)
            + " LexicalError: Unexpected '"@ + escaped_text(seq![c]) + "'"@,
        LexicalErrorView::UnterminatedString(row, col) => position_text(row, col)
            + " starts a string that is not terminated"@,
        LexicalErrorView::ParseNumberError(row, col) => position_text(row, col)
            + " is an invalid number"@,
    }
}

/// A `[row:col]` position marker.
pub open spec fn position_text(row: int, col: int) -> Seq<char> {
    seq!['['] + dec_digits(row as nat) + seq![':'] + dec_digits(col as nat) + seq![']']
}

/// The diagnostic line of a parser error: a tag naming the kind, and the
/// offending token where one is carried.
pub open spec fn parser_message_text(e: LoxParserErrorView) -> Seq<char> {
    match e {
        LoxParserErrorView::LexicalError(le) => lexical_message_text(le),
        LoxParserErrorView::Unsupported => "ParserError: Unsupported"@,
        LoxParserErrorView::BadOperator(op) => match op {
            Some(op) => "ParserError: BadOperator "@ + operator_text(op),
            None => "ParserError: BadOperator"@,
        },
        LoxParserErrorView::BadStructure(s) => match s {
            Some(s) => "ParserError: BadStructure "@ + structure_text(s),
            None => "ParserError: BadStructure"@,
        },
        LoxParserErrorView::EndOfFile => "ParserError: EndOfFile"@,
        LoxParserErrorView::EndOfFileConsume => "ParserError: EndOfFileConsume"@,
        LoxParserErrorView::Message(m) => "ParserError: "@ + m,
    }
}

/// The display of the value inside a type error: strings quoted and
/// escaped, the rest as it prints.
pub open spec fn offender_text(v: ValueView) -> Seq<char> {
    match v {
        ValueView::String(s) => "\""@ + escaped_text(s) + "\""@,
        ValueView::Number(n) => number_text(n.num as int, n.den as int),
        ValueView::Bool(b) => if b {
            "true"@
        } else {
            "false"@
        },
        ValueView::Nil => "nil"@,
    }
}

/// The single diagnostic line of an interpreter error.
pub open spec fn message_text(e: InterpreterErrorView) -> Seq<char> {
    match e {
        InterpreterErrorView::TooManyArgs => "Error: Too many arguments"@,
        InterpreterErrorView::LexicalError(le) => lexical_message_text(le),
        InterpreterErrorView::ParserError(pe) => parser_message_text(pe),
        InterpreterErrorView::TypeError(v) => "Type error: "@ + offender_text(v),
        InterpreterErrorView::DivisionByZero => "Division by zero"@,
        InterpreterErrorView::ArithmeticOverflow =>
            "Arithmetic overflow: the exact result does not fit"@,
        InterpreterErrorView::UndefinedReference(name) => "Undefined reference: `"@ + name + "`"@,
    }
}

/// Appends the `[row:col]` marker of a position.
fn push_position(s: &mut String, row: usize, col: usize)
    ensures
        final(s)@ == old(s)@ + position_text(row as int, col as int),
{
    push_char(s, '[');
    push_usize_decimal(s, row);
    push_char(s, ':');
    push_usize_decimal(s, col);
    push_char(s, ']');
    proof {
        assert(final(s)@ =~= old(s)@ + position_text(row as int, col as int));
    }
}

impl LexicalError {
    /// Renders the diagnostic line of this error.
    pub fn message(&self) -> (r: String)
        ensures
            r@ == lexical_message_text(self@),
    {
        let mut s = String::new();
        match self {
            LexicalError::UnexpectedChar(c, row, col) => {
                push_position(&mut s, *row, *col);
                s.append(" LexicalError: Unexpected '");
                let mut quoted = String::new();
                push_char(&mut quoted, *c);
                push_escaped(&mut s, quoted.as_str());
                s.append("'");
                proof {
                    assert(quoted@ =~= seq![*c]);
                    assert(s@ =~= lexical_message_text(self@));
                }
            },
            LexicalError::UnterminatedString(row, col) => {
                push_position(&mut s, *row, *col);
                s.append(" starts a string that is not terminated");
                proof {
                    assert(s@ =~= lexical_message_text(self@));
                }
            },
            LexicalError::ParseNumberError(row, col) => {
                push_position(&mut s, *row, *col);
                s.append(" is an invalid number");
                proof {
                    assert(s@ =~= lexical_message_text(self@));
                }
            },
        }
        s
    }
}

impl LoxParserError {
    /// Renders the diagnostic line of this error.
    pub fn message(&self) -> (r: String)
        ensures
            r@ == parser_message_text(self@),
    {
        let mut s = String::new();
        match self {
            LoxParserError::LexicalError(e) => {
                return e.message();
            },
            LoxParserError::Unsupported => {
                s.append("ParserError: Unsupported");
            },
            LoxParserError::BadOperator(op) => match op {
                Some(op) => {
                    s.append("ParserError: BadOperator ");
                    s.append(op.text());
                },
                None => {
                    s.append("ParserError: BadOperator");
                },
            },
            LoxParserError::BadStructure(st) => match st {
                Some(st) => {
                    s.append("ParserError: BadStructure ");
                    s.append(st.text());
                },
                None => {
                    s.append("ParserError: BadStructure");
                },
            },
            LoxParserError::EndOfFile => {
                s.append("ParserError: EndOfFile");
            },
            LoxParserError::EndOfFileConsume => {
                s.append("ParserError: EndOfFileConsume");
            },
            LoxParserError::Message(m) => {
                s.append("ParserError: ");
                s.append(m);
            },
        }
        proof {
            assert(s@ =~= parser_message_text(self@));
        }
        s
    }
}

impl InterpreterError {
    /// Renders the single diagnostic line of this error.
    pub fn message(&self) -> (r: String)
        ensures
            r@ == message_text(self@),
    {
        let mut s = String::new();
        match self {
            InterpreterError::TooManyArgs => {
                s.append("Error: Too many arguments");
            },
            InterpreterError::LexicalError(e) => {
                return e.message();
            },
            InterpreterError::ParserError(e) => {
                return e.message();
            },
            InterpreterError::TypeError(v) => {
                s.append("Type error: ");
                match v {
                    Value::String(text) => {
                        s.append("\"");
                        push_escaped(&mut s, text.as_str());
                        s.append("\"");
                    },
                    Value::Number(n) => {
                        let t = n.text();
                        s.append(t.as_str());
                    },
                    Value::Bool(b) => {
                        if *b {
                            s.append("true");
                        } else {
                            s.append("false");
                        }
                    },
                    Value::Nil => {
                        s.append("nil");
                    },
                }
            },
            InterpreterError::DivisionByZero => {
                s.append("Division by zero");
            },
            InterpreterError::ArithmeticOverflow => {
                s.append("Arithmetic overflow: the exact result does not fit");
            },
            InterpreterError::UndefinedReference(name) => {
                s.append("Undefined reference: `");
                s.append(name.as_str());
                s.append("`");
            },
        }
        proof {
            assert(s@ =~= message_text(self@));
        }
        s
    }
}

} // verus!

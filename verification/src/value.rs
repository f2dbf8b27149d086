//! Runtime values: the result of evaluating an expression.

use vstd::prelude::*;
use vstd::string::StringExecFns;

use crate::number::{number_text, same_rational, Number};

verus! {

/// A runtime value of the language.
#[derive(Debug, Clone)]
pub enum Value {
    String(String),
    Number(Number),
    Bool(bool),
    Nil,
}

/// The mathematical image of a runtime value.
pub enum ValueView {
    String(Seq<char>),
    Number(Number),
    Bool(bool),
    Nil,
}

impl View for Value {
    type V = ValueView;

    open spec fn view(&self) -> ValueView {
        match *self {
            Value::String(ref s) => ValueView::String(s@),
            Value::Number(n) => ValueView::Number(n),
            Value::Bool(b) => ValueView::Bool(b),
            Value::Nil => ValueView::Nil,
        }
    }
}

/// The language's equality: same-variant values compare by content, strings
/// by characters, numbers as rationals; values of different variants are
/// never equal.
pub open spec fn value_eq(a: ValueView, b: ValueView) -> bool {
    match (a, b) {
        (ValueView::String(x), ValueView::String(y)) => x == y,
        (ValueView::Number(x), ValueView::Number(y)) => same_rational(x, y),
        (ValueView::Bool(x), ValueView::Bool(y)) => x == y,
        (ValueView::Nil, ValueView::Nil) => true,
        _ => false,
    }
}

/// Truthiness: every value is truthy except `nil` and `false`.
pub open spec fn truthy_view(v: ValueView) -> bool {
    !(v is Nil || v == ValueView::Bool(false))
}

/// The display text of a value: string contents verbatim, numbers in
/// decimal, `true`/`false`/`nil` spelled out.
pub open spec fn value_text(v: ValueView) -> Seq<char> {
    match v {
        ValueView::String(s) => s,
        ValueView::Number(n) => number_text(n.num as int, n.den as int),
        ValueView::Bool(b) => if b {
            "true"@
        } else {
            "false"@
        },
        ValueView::Nil => "nil"@,
    }
}

impl Value {
    /// Renders the value for display.
    pub fn render(&self) -> (r: String)
        ensures
            r@ == value_text(self@),
    {
        match self {
            Value::String(s) => s.clone(),
            Value::Number(n) => n.text(),
            Value::Bool(b) => if *b {
                String::from_str("true")
            } else {
                String::from_str("false")
            },
            Value::Nil => String::from_str("nil"),
        }
    }
}

impl PartialEq for Value {
    /// Equality of values follows the language's rules; in particular two
    /// numbers are equal when they denote the same rational.
    fn eq(&self, other: &Value) -> (r: bool)
        ensures
            r == value_eq(self@, other@),
    {
        match (self, other) {
            (Value::String(a), Value::String(b)) => a.eq(b),
            (Value::Number(a), Value::Number(b)) => a.eq(b),
            (Value::Bool(a), Value::Bool(b)) => *a == *b,
            (Value::Nil, Value::Nil) => true,
            _ => false,
        }
    }
}

impl vstd::std_specs::cmp::PartialEqSpecImpl for Value {
    open spec fn obeys_eq_spec() -> bool {
        true
    }

    open spec fn eq_spec(&self, other: &Value) -> bool {
        value_eq(self@, other@)
    }
}

impl From<String> for Value {
    fn from(value: String) -> (r: Value)
        ensures
            r == Value::String(value),
    {
        Value::String(value)
    }
}

impl vstd::std_specs::convert::FromSpecImpl<String> for Value {
    open spec fn obeys_from_spec() -> bool {
        true
    }

    open spec fn from_spec(value: String) -> Value {
        Value::String(value)
    }
}

impl From<&str> for Value {
    /// The string value with the slice's contents; which `String` carries
    /// them is not observable, so no exact image is stated.
    fn from(value: &str) -> (r: Value)
        ensures
            r@ == ValueView::String(value@),
    {
        Value::String(String::from_str(value))
    }
}

impl vstd::std_specs::convert::FromSpecImpl<&str> for Value {
    open spec fn obeys_from_spec() -> bool {
        false
    }

    open spec fn from_spec(value: &str) -> Value {
        arbitrary()
    }
}

impl From<Number> for Value {
    fn from(value: Number) -> (r: Value)
        ensures
            r == Value::Number(value),
    {
        Value::Number(value)
    }
}

impl vstd::std_specs::convert::FromSpecImpl<Number> for Value {
    open spec fn obeys_from_spec() -> bool {
        true
    }

    open spec fn from_spec(value: Number) -> Value {
        Value::Number(value)
    }
}

impl From<bool> for Value {
    fn from(value: bool) -> (r: Value)
        ensures
            r == Value::Bool(value),
    {
        Value::Bool(value)
    }
}

impl vstd::std_specs::convert::FromSpecImpl<bool> for Value {
    open spec fn obeys_from_spec() -> bool {
        true
    }

    open spec fn from_spec(value: bool) -> Value {
        Value::Bool(value)
    }
}

} // verus!

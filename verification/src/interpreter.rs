//! The evaluator: a tree walk that reduces one expression to a runtime
//! value, enforcing the language's dynamic type rules, and runs statements
//! in order.
//!
//! Type rules: arithmetic needs numbers, except that `+` also concatenates
//! two strings; comparisons need numbers; `==`/`!=` never fail and are
//! `false` across variants; `and`/`or` evaluate both operands and combine
//! their truthiness. An exact numeric result that does not fit the
//! representation is an overflow error, and division by zero is an error.

use vstd::prelude::*;
use vstd::string::StringExecFns;

use crate::error::{InterpreterError, InterpreterErrorView, LoxParserErrorView};
use crate::number::{
    common_den, diff_num, fits_number, prod_num, quot_den, quot_num, rational_lt, sum_num, Number,
};
use crate::syntax::{BinOp, Binary, Expr, ExprView, Grouping, Literal, LiteralView, Stmt, StmtView,
    UnOp, Unary};
use crate::value::{truthy_view, value_eq, value_text, Value, ValueView};

verus! {

/// What evaluating a numeric binary operator yields over two numbers, or
/// the overflow/division errors of the exact-rational model. Only the four
/// arithmetic operators reach this function.
pub open spec fn spec_arith(op: BinOp, a: Number, b: Number) -> Result<
    ValueView,
    InterpreterErrorView,
> {
    match op {
        BinOp::Add => if fits_number(sum_num(a, b), common_den(a, b)) {
            Ok(
                ValueView::Number(
                    Number { num: sum_num(a, b) as i64, den: common_den(a, b) as u64 },
                ),
            )
        } else {
            Err(InterpreterErrorView::ArithmeticOverflow)
        },
        BinOp::Sub => if fits_number(diff_num(a, b), common_den(a, b)) {
            Ok(
                ValueView::Number(
                    Number { num: diff_num(a, b) as i64, den: common_den(a, b) as u64 },
                ),
            )
        } else {
            Err(InterpreterErrorView::ArithmeticOverflow)
        },
        BinOp::Mul => if fits_number(prod_num(a, b), common_den(a, b)) {
            Ok(
                ValueView::Number(
                    Number { num: prod_num(a, b) as i64, den: common_den(a, b) as u64 },
                ),
            )
        } else {
            Err(InterpreterErrorView::ArithmeticOverflow)
        },
        BinOp::Div => if b.num == 0 {
            Err(InterpreterErrorView::DivisionByZero)
        } else if fits_number(quot_num(a, b), quot_den(a, b)) {
            Ok(
                ValueView::Number(
                    Number { num: quot_num(a, b) as i64, den: quot_den(a, b) as u64 },
                ),
            )
        } else {
            Err(InterpreterErrorView::ArithmeticOverflow)
        },
        _ => Err(InterpreterErrorView::ArithmeticOverflow),
    }
}

/// What evaluating a binary node yields once both operands have values.
pub open spec fn spec_binary(op: BinOp, lv: ValueView, rv: ValueView) -> Result<
    ValueView,
    InterpreterErrorView,
> {
    match op {
        BinOp::Add => match (lv, rv) {
            (ValueView::Number(a), ValueView::Number(b)) => spec_arith(BinOp::Add, a, b),
            (ValueView::String(a), ValueView::String(b)) => Ok(ValueView::String(a + b)),
            _ => if rv is Number || rv is String {
                Err(InterpreterErrorView::TypeError(lv))
            } else {
                Err(InterpreterErrorView::TypeError(rv))
            },
        },
        BinOp::Sub | BinOp::Mul | BinOp::Div => match (lv, rv) {
            (ValueView::Number(a), ValueView::Number(b)) => spec_arith(op, a, b),
            _ => if !(lv is Number) {
                Err(InterpreterErrorView::TypeError(lv))
            } else {
                Err(InterpreterErrorView::TypeError(rv))
            },
        },
        BinOp::Eq => Ok(ValueView::Bool(value_eq(lv, rv))),
        BinOp::Ne => Ok(ValueView::Bool(!value_eq(lv, rv))),
        BinOp::Lt | BinOp::Gt | BinOp::Le | BinOp::Ge => match (lv, rv) {
            (ValueView::Number(a), ValueView::Number(b)) => Ok(
                ValueView::Bool(
                    match op {
                        BinOp::Lt => rational_lt(a, b),
                        BinOp::Gt => rational_lt(b, a),
                        BinOp::Le => !rational_lt(b, a),
                        _ => !rational_lt(a, b),
                    },
                ),
            ),
            _ => if !(lv is Number) {
                Err(InterpreterErrorView::TypeError(lv))
            } else {
                Err(InterpreterErrorView::TypeError(rv))
            },
        },
        BinOp::And => Ok(ValueView::Bool(truthy_view(lv) && truthy_view(rv))),
        BinOp::Or => Ok(ValueView::Bool(truthy_view(lv) || truthy_view(rv))),
    }
}

/// What evaluating an expression yields: a runtime value, or the first
/// failure in evaluation order (left operand before right operand before
/// the operator).
pub open spec fn spec_eval(e: ExprView) -> Result<ValueView, InterpreterErrorView>
    decreases e,
{
    match e {
        ExprView::Literal(l) => match l {
            LiteralView::String(s) => Ok(ValueView::String(s)),
            LiteralView::Identifier(id) => Err(InterpreterErrorView::UndefinedReference(id)),
            LiteralView::Number(n) => Ok(ValueView::Number(n)),
            LiteralView::True => Ok(ValueView::Bool(true)),
            LiteralView::False => Ok(ValueView::Bool(false)),
            LiteralView::Nil => Ok(ValueView::Nil),
        },
        ExprView::Grouping(inner) => spec_eval(*inner),
        ExprView::Unary(op, inner) => match spec_eval(*inner) {
            Err(err) => Err(err),
            Ok(v) => match op {
                UnOp::Neg => match v {
                    ValueView::Number(n) => if n.num == i64::MIN {
                        Err(InterpreterErrorView::ArithmeticOverflow)
                    } else {
                        Ok(ValueView::Number(Number { num: (-(n.num as int)) as i64, den: n.den }))
                    },
                    _ => Err(InterpreterErrorView::TypeError(v)),
                },
                UnOp::Not => Ok(ValueView::Bool(!truthy_view(v))),
            },
        },
        ExprView::Binary(l, op, r) => match spec_eval(*l) {
            Err(err) => Err(err),
            Ok(lv) => match spec_eval(*r) {
                Err(err) => Err(err),
                Ok(rv) => spec_binary(op, lv, rv),
            },
        },
    }
}

/// The image of an evaluation result.
pub open spec fn eval_view(r: Result<Value, InterpreterError>) -> Result<
    ValueView,
    InterpreterErrorView,
> {
    match r {
        Ok(v) => Ok(v@),
        Err(e) => Err(e@),
    }
}

/// What running one statement yields: nothing for an expression statement,
/// the printed line for a `print` statement, and an unsupported-construct
/// error for the reserved `var` form.
pub open spec fn spec_execute(st: StmtView) -> Result<Option<Seq<char>>, InterpreterErrorView> {
    match st {
        StmtView::Expr(e) => match spec_eval(e) {
            Err(err) => Err(err),
            Ok(_) => Ok(None),
        },
        StmtView::Print(e) => match spec_eval(e) {
            Err(err) => Err(err),
            Ok(v) => Ok(Some(value_text(v))),
        },
        StmtView::Var(_, _) => Err(
            InterpreterErrorView::ParserError(LoxParserErrorView::Unsupported),
        ),
    }
}

/// What running a sequence of statements yields: the printed lines in
/// order, stopping at the first error.
pub open spec fn spec_interpret(ss: Seq<StmtView>) -> Result<Seq<Seq<char>>, InterpreterErrorView>
    decreases ss.len(),
{
    if ss.len() == 0 {
        Ok(Seq::empty())
    } else {
        match spec_execute(ss[0]) {
            Err(err) => Err(err),
            Ok(line) => match spec_interpret(ss.drop_first()) {
                Err(err) => Err(err),
                Ok(rest) => match line {
                    Some(text) => Ok(seq![text] + rest),
                    None => Ok(rest),
                },
            },
        }
    }
}

/// The printed lines already produced, followed by whatever the remaining
/// statements yield.
pub open spec fn spec_interpret_after(
    done: Seq<Seq<char>>,
    ss: Seq<StmtView>,
) -> Result<Seq<Seq<char>>, InterpreterErrorView> {
    match spec_interpret(ss) {
        Ok(more) => Ok(done + more),
        Err(err) => Err(err),
    }
}

/// The tree-walking evaluator. It holds no state yet: the language subset
/// has no variable storage.
#[derive(Debug, Clone, Copy)]
pub struct Interpreter {}

impl Default for Interpreter {
    fn default() -> (r: Interpreter)
        ensures
            r == (Interpreter {  }),
    {
        Interpreter {  }
    }
}

impl Interpreter {
    /// Builds an evaluator.
    pub fn new() -> (r: Interpreter)
        ensures
            r == (Interpreter {  }),
    {
        Default::default()
    }

    /// Runs the statements in source order, collecting the lines that
    /// `print` statements produce, and stops at the first error.
    pub fn interpret(&mut self, statements: &[Stmt]) -> (r: Result<Vec<String>, InterpreterError>)
        ensures
            match r {
                Ok(lines) => spec_interpret(statements@.map_values(|st: Stmt| st@)) == Ok::<
                    Seq<Seq<char>>,
                    InterpreterErrorView,
                >(lines@.map_values(|line: String| line@)),
                Err(e) => spec_interpret(statements@.map_values(|st: Stmt| st@)) matches Err(ev)
                    && ev == e@,
            },
    {
        let ghost views = statements@.map_values(|st: Stmt| st@);
        let mut lines: Vec<String> = Vec::new();
        let mut i: usize = 0;
        proof {
            assert(lines@.map_values(|line: String| line@) =~= Seq::<Seq<char>>::empty());
            assert(views.skip(0) =~= views);
        }
        while i < statements.len()
            invariant
                i <= statements.len(),
                views == statements@.map_values(|st: Stmt| st@),
                spec_interpret_after(lines@.map_values(|line: String| line@), views.skip(i as int))
                    == spec_interpret(views),
            decreases statements.len() - i,
        {
            let ghost done = lines@.map_values(|line: String| line@);
            match self.execute(&statements[i]) {
                Err(e) => {
                    proof {
                        assert(views.skip(i as int)[0] == statements@[i as int]@);
                    }
                    return Err(e);
                },
                Ok(None) => {
                    proof {
                        assert(views.skip(i as int)[0] == statements@[i as int]@);
                        assert(views.skip(i as int).drop_first() =~= views.skip(i + 1));
                    }
                },
                Ok(Some(line)) => {
                    let ghost lv = line@;
                    lines.push(line);
                    proof {
                        assert(lines@.map_values(|line: String| line@) =~= done + seq![lv]);
                        assert(views.skip(i as int)[0] == statements@[i as int]@);
                        assert(views.skip(i as int).drop_first() =~= views.skip(i + 1));
                        match spec_interpret(views.skip(i + 1)) {
                            Ok(more) => {
                                assert(done + (seq![lv] + more) =~= (done + seq![lv]) + more);
                            },
                            _ => {},
                        }
                    }
                },
            }
            i += 1;
        }
        proof {
            assert(views.skip(statements@.len() as int) =~= Seq::<StmtView>::empty());
            assert(lines@.map_values(|line: String| line@) + Seq::<Seq<char>>::empty()
                =~= lines@.map_values(|line: String| line@));
        }
        Ok(lines)
    }

    /// Runs one statement, returning the line a `print` statement produces.
    pub fn execute(&mut self, stmt: &Stmt) -> (r: Result<Option<String>, InterpreterError>)
        ensures
            match r {
                Ok(None) => spec_execute(stmt@) == Ok::<Option<Seq<char>>, InterpreterErrorView>(None),
                Ok(Some(line)) => spec_execute(stmt@) == Ok::<Option<Seq<char>>, InterpreterErrorView>(Some(line@)),
                Err(e) => spec_execute(stmt@) matches Err(ev) && ev == e@,
            },
    {
        match stmt {
            Stmt::Expr(e) => match self.visit_expr(e) {
                Ok(()) => Ok(None),
                Err(err) => Err(err),
            },
            Stmt::Print(e) => match self.visit_print(e) {
                Ok(line) => Ok(Some(line)),
                Err(err) => Err(err),
            },
            Stmt::Var(name, e) => match self.visit_var(name.as_str(), e) {
                Ok(()) => Ok(None),
                Err(err) => Err(err),
            },
        }
    }

    /// Evaluates one expression to a runtime value.
    pub fn evaluate(&mut self, expr: &Expr) -> (r: Result<Value, InterpreterError>)
        ensures
            eval_view(r) == spec_eval(expr@),
        decreases *expr,
    {
        match expr {
            Expr::Binary(b) => self.visit_binary(b),
            Expr::Grouping(g) => self.visit_group(g),
            Expr::Literal(l) => self.visit_literal(l),
            Expr::Unary(u) => self.visit_unary(u),
        }
    }

    /// The number inside a value, or a type error naming the value.
    fn numeric(value: Value) -> (r: Result<Number, InterpreterError>)
        ensures
            match r {
                Ok(n) => value@ == ValueView::Number(n),
                Err(e) => !(value@ is Number) && e@ == InterpreterErrorView::TypeError(value@),
            },
    {
        match value {
            Value::Number(n) => Ok(n),
            value => Err(InterpreterError::TypeError(value)),
        }
    }

    /// The language's equality over two values.
    fn eq(left: &Value, right: &Value) -> (r: bool)
        ensures
            r == value_eq(left@, right@),
    {
        left.eq(right)
    }

    /// Truthiness: every value except `nil` and `false`.
    fn truthy(value: &Value) -> (r: bool)
        ensures
            r == truthy_view(value@),
    {
        match value {
            Value::Nil => false,
            Value::Bool(b) => *b,
            _ => true,
        }
    }

    /// Evaluates both operands of a binary node, left first, then applies
    /// the operator's rule.
    fn visit_binary(&mut self, binary: &Binary) -> (r: Result<Value, InterpreterError>)
        ensures
            eval_view(r) == spec_eval(
                ExprView::Binary(
                    Box::new(binary.left@),
                    binary.operator,
                    Box::new(binary.right@),
                ),
            ),
        decreases *binary,
    {
        let left = match self.evaluate(&binary.left) {
            Ok(v) => v,
            Err(e) => {
                return Err(e);
            },
        };
        let right = match self.evaluate(&binary.right) {
            Ok(v) => v,
            Err(e) => {
                return Err(e);
            },
        };
        match binary.operator {
            BinOp::Add => match (left, right) {
                (Value::Number(a), Value::Number(b)) => match a.checked_add(&b) {
                    Some(n) => Ok(Value::Number(n)),
                    None => Err(InterpreterError::ArithmeticOverflow),
                },
                (Value::String(a), Value::String(b)) => Ok(Value::String(a.concat(b.as_str()))),
                (left, Value::Number(_)) => Err(InterpreterError::TypeError(left)),
                (left, Value::String(_)) => Err(InterpreterError::TypeError(left)),
                (_, right) => Err(InterpreterError::TypeError(right)),
            },
            BinOp::Sub => match (Self::numeric(left), Self::numeric(right)) {
                (Ok(a), Ok(b)) => match a.checked_sub(&b) {
                    Some(n) => Ok(Value::Number(n)),
                    None => Err(InterpreterError::ArithmeticOverflow),
                },
                (Err(e), _) => Err(e),
                (_, Err(e)) => Err(e),
            },
            BinOp::Mul => match (Self::numeric(left), Self::numeric(right)) {
                (Ok(a), Ok(b)) => match a.checked_mul(&b) {
                    Some(n) => Ok(Value::Number(n)),
                    None => Err(InterpreterError::ArithmeticOverflow),
                },
                (Err(e), _) => Err(e),
                (_, Err(e)) => Err(e),
            },
            BinOp::Div => match (Self::numeric(left), Self::numeric(right)) {
                (Ok(a), Ok(b)) => {
                    if b.is_zero() {
                        Err(InterpreterError::DivisionByZero)
                    } else {
                        match a.checked_div(&b) {
                            Some(n) => Ok(Value::Number(n)),
                            None => Err(InterpreterError::ArithmeticOverflow),
                        }
                    }
                },
                (Err(e), _) => Err(e),
                (_, Err(e)) => Err(e),
            },
            BinOp::Ne => Ok(Value::Bool(!Self::eq(&left, &right))),
            BinOp::Eq => Ok(Value::Bool(Self::eq(&left, &right))),
            BinOp::Gt => match (Self::numeric(left), Self::numeric(right)) {
                (Ok(a), Ok(b)) => Ok(Value::Bool(b.lt(&a))),
                (Err(e), _) => Err(e),
                (_, Err(e)) => Err(e),
            },
            BinOp::Ge => match (Self::numeric(left), Self::numeric(right)) {
                (Ok(a), Ok(b)) => Ok(Value::Bool(b.le(&a))),
                (Err(e), _) => Err(e),
                (_, Err(e)) => Err(e),
            },
            BinOp::Lt => match (Self::numeric(left), Self::numeric(right)) {
                (Ok(a), Ok(b)) => Ok(Value::Bool(a.lt(&b))),
                (Err(e), _) => Err(e),
                (_, Err(e)) => Err(e),
            },
            BinOp::Le => match (Self::numeric(left), Self::numeric(right)) {
                (Ok(a), Ok(b)) => Ok(Value::Bool(a.le(&b))),
                (Err(e), _) => Err(e),
                (_, Err(e)) => Err(e),
            },
            BinOp::And => {
                let b = Self::truthy(&left) && Self::truthy(&right);
                Ok(Value::Bool(b))
            },
            BinOp::Or => {
                let b = Self::truthy(&left) || Self::truthy(&right);
                Ok(Value::Bool(b))
            },
        }
    }

    /// Evaluates the expression inside a group.
    fn visit_group(&mut self, group: &Grouping) -> (r: Result<Value, InterpreterError>)
        ensures
            eval_view(r) == spec_eval(group.expression@),
        decreases *group,
    {
        self.evaluate(&group.expression)
    }

    /// The value of a literal leaf; an identifier has no value, since no
    /// variable storage exists.
    fn visit_literal(&mut self, lit: &Literal) -> (r: Result<Value, InterpreterError>)
        ensures
            eval_view(r) == spec_eval(ExprView::Literal(crate::syntax::literal_view(*lit))),
    {
        match lit {
            Literal::String(s) => Ok(Value::String(s.clone())),
            Literal::Number(n) => Ok(Value::Number(*n)),
            Literal::True => Ok(Value::Bool(true)),
            Literal::False => Ok(Value::Bool(false)),
            Literal::Nil => Ok(Value::Nil),
            Literal::Identifier(id) => Err(InterpreterError::UndefinedReference(id.clone())),
        }
    }

    /// Evaluates a unary application.
    fn visit_unary(&mut self, unary: &Unary) -> (r: Result<Value, InterpreterError>)
        ensures
            eval_view(r) == spec_eval(
                ExprView::Unary(unary.operator, Box::new(unary.expression@)),
            ),
        decreases *unary,
    {
        let value = match self.evaluate(&unary.expression) {
            Ok(v) => v,
            Err(e) => {
                return Err(e);
            },
        };
        match unary.operator {
            UnOp::Neg => match Self::numeric(value) {
                Ok(n) => match n.checked_neg() {
                    Some(m) => Ok(Value::Number(m)),
                    None => Err(InterpreterError::ArithmeticOverflow),
                },
                Err(e) => Err(e),
            },
            UnOp::Not => {
                let b = Self::truthy(&value);
                Ok(Value::Bool(!b))
            },
        }
    }

    /// Runs an expression statement: the value is computed and discarded.
    fn visit_expr(&mut self, expr: &Expr) -> (r: Result<(), InterpreterError>)
        ensures
            match r {
                Ok(()) => spec_eval(expr@) is Ok,
                Err(e) => spec_eval(expr@) matches Err(ev) && ev == e@,
            },
    {
        match self.evaluate(expr) {
            Ok(_) => Ok(()),
            Err(e) => Err(e),
        }
    }

    /// Runs a `print` statement: the value is computed and rendered.
    fn visit_print(&mut self, expr: &Expr) -> (r: Result<String, InterpreterError>)
        ensures
            match r {
                Ok(line) => spec_eval(expr@) matches Ok(v) && line@ == value_text(v),
                Err(e) => spec_eval(expr@) matches Err(ev) && ev == e@,
            },
    {
        match self.evaluate(expr) {
            Ok(v) => Ok(v.render()),
            Err(e) => Err(e),
        }
    }

    /// A `var` declaration cannot run: no variable storage exists.
    fn visit_var(&mut self, name: &str, expr: &Expr) -> (r: Result<(), InterpreterError>)
        ensures
            r matches Err(e) && e@ == InterpreterErrorView::ParserError(
                LoxParserErrorView::Unsupported,
            ),
    {
        Err(InterpreterError::ParserError(crate::error::LoxParserError::Unsupported))
    }
}

} // verus!

//! A calculator for a small language of arithmetic statements.
//!
//! A line of text is parsed into a statement ([`parser`], over the tokens
//! of [`grammar`]), which is evaluated against the variables and functions
//! of a session ([`calc`]) or, for `solve ... = ... for x`, solved as a
//! linear equation ([`solver`]).
//!
//! Numbers are binary64 values, held as bit patterns. The library decides
//! what is computed and in which order; the arithmetic itself is done by a
//! floating-point unit, and the reading of number literals by a reader,
//! both handed in by the caller as functions. Every contract says what
//! comes out for whatever these two functions compute.

pub mod ast;
pub mod calc;
pub mod grammar;
pub mod parser;
pub mod solver;

use crate::ast::{computes, total, Expr, Number, Primitive, Statement, StatementView};
use crate::calc::{calc_operand, CalcError, CalcErrorView, EnvView, TopLevelEnv};
use crate::parser::{attentive, parse, reads, statement_of_line, ParserError, ParserErrorView};
use crate::solver::{solution, solve_for, SolverError, SolverErrorView};
use vstd::prelude::*;

verus! {

/// Calculator error
#[derive(Debug, PartialEq, Eq)]
pub enum Error {
    /// errors derived from parsers
    ParserError(ParserError),
    /// errors derived from calculator
    CalcError(CalcError),
    /// errors derived from solver
    SolverError(SolverError),
}

/// The model of an [`Error`].
pub enum ErrorView {
    ParserError(ParserErrorView),
    CalcError(CalcErrorView),
    SolverError(SolverErrorView),
}

impl View for Error {
    type V = ErrorView;

    open spec fn view(&self) -> ErrorView {
        match self {
            Error::ParserError(e) => ErrorView::ParserError(e@),
            Error::CalcError(e) => ErrorView::CalcError(e@),
            Error::SolverError(e) => ErrorView::SolverError(e@),
        }
    }
}

impl ErrorView {
    /// The error in words: those of the stage that failed.
    pub open spec fn message(self) -> Seq<char> {
        match self {
            ErrorView::ParserError(e) => e.message(),
            ErrorView::CalcError(e) => e.message(),
            ErrorView::SolverError(e) => e.message(),
        }
    }
}

impl Error {
    /// The error in words.
    pub fn message(&self) -> (r: String)
        ensures
            r@ == self@.message(),
    {
        match self {
            Error::ParserError(e) => e.message(),
            Error::CalcError(e) => e.message(),
            Error::SolverError(e) => e.message(),
        }
    }
}

/// What a statement comes to.
#[derive(Debug, PartialEq)]
pub enum Value {
    /// Nothing to show: a variable or a function was stored.
    Void,
    /// The value of an expression.
    Number(Number),
    /// The solution of an equation.
    Solved { variable: String, value: Number },
    /// The request to plot the function of this name.
    PlotRequest(String),
}

/// The model of a [`Value`].
pub enum ValueView {
    Void,
    Number(Number),
    Solved { variable: Seq<char>, value: Number },
    PlotRequest(Seq<char>),
}

impl View for Value {
    type V = ValueView;

    open spec fn view(&self) -> ValueView {
        match self {
            Value::Void => ValueView::Void,
            Value::Number(n) => ValueView::Number(*n),
            Value::Solved { variable, value } => ValueView::Solved {
                variable: variable@,
                value: *value,
            },
            Value::PlotRequest(name) => ValueView::PlotRequest(name@),
        }
    }
}

/// The model of the result of a statement.
pub open spec fn value_outcome(r: Result<Value, Error>) -> Result<ValueView, ErrorView> {
    match r {
        Ok(v) => Ok(v@),
        Err(e) => Err(e@),
    }
}

/// What a statement comes to and what it leaves behind.
pub struct Step {
    pub result: Result<ValueView, ErrorView>,
    pub env: EnvView,
}

/// The effect of the statement `st` in the environment `env`, where `m`
/// is what the floating-point unit computes. An expression is evaluated;
/// an assignment stores the value of its expression, unless that has none
/// or the symbol is a constant; an equation is solved; a definition is
/// stored; a request for a plot is handed on. Only a successful
/// assignment and a definition change the environment.
pub open spec fn step(env: EnvView, st: StatementView, m: spec_fn(Primitive) -> Number) -> Step {
    match st {
        StatementView::Expression { op } => match env.value(op, m) {
            Ok(v) => Step { result: Ok(ValueView::Number(v)), env },
            Err(e) => Step { result: Err(ErrorView::CalcError(e)), env },
        },
        StatementView::Assignment { sym, op } => match env.value(op, m) {
            Ok(v) => if env.is_constant(sym) {
                Step {
                    result: Err(ErrorView::CalcError(CalcErrorView::CannotChangeConstant(sym))),
                    env,
                }
            } else {
                Step { result: Ok(ValueView::Void), env: env.with_value(sym, v) }
            },
            Err(e) => Step { result: Err(ErrorView::CalcError(e)), env },
        },
        StatementView::SolveFor { lhs, rhs, sym } => match solution(lhs, rhs, sym, env, m) {
            Ok(v) => Step { result: Ok(ValueView::Solved { variable: sym, value: v }), env },
            Err(e) => Step { result: Err(ErrorView::SolverError(e)), env },
        },
        StatementView::Function { name, fun } => Step {
            result: Ok(ValueView::Void),
            env: env.with_function(name, fun),
        },
        StatementView::Plot { name } => Step { result: Ok(ValueView::PlotRequest(name)), env },
    }
}

/// The effect of the line `line`: that of its statement, or the error of
/// the parser.
pub open spec fn step_of_line(
    env: EnvView,
    line: Seq<char>,
    lit: spec_fn(Seq<char>) -> Option<Number>,
    m: spec_fn(Primitive) -> Number,
) -> Step {
    match statement_of_line(line, lit) {
        Ok(st) => step(env, st, m),
        Err(e) => Step { result: Err(ErrorView::ParserError(e)), env },
    }
}

/// The expressions that `st` has evaluated can be evaluated: their calls
/// nest no deeper than [`calc::MAX_CALL_DEPTH`].
pub open spec fn admitted(env: EnvView, st: StatementView) -> bool {
    match st {
        StatementView::Expression { op } => env.admits(op),
        StatementView::Assignment { op, .. } => env.admits(op),
        StatementView::SolveFor { lhs, rhs, .. } => env.admits(lhs) && env.admits(rhs),
        StatementView::Function { .. } => true,
        StatementView::Plot { .. } => true,
    }
}

/// The statement of `line`, if it has one, is [`admitted`].
pub open spec fn admitted_line(
    env: EnvView,
    line: Seq<char>,
    lit: spec_fn(Seq<char>) -> Option<Number>,
) -> bool {
    match statement_of_line(line, lit) {
        Ok(st) => admitted(env, st),
        Err(_) => true,
    }
}

/// # Calculator
///
/// A session: an environment, a reader of number literals and a
/// floating-point unit.
pub struct Calculator<N, F> {
    env: TopLevelEnv,
    number: N,
    unit: F,
}

impl<N: Fn(&str) -> Option<Number>, F: Fn(Primitive) -> Number> Calculator<N, F> {
    /// The reader and the unit of the session are total functions.
    pub closed spec fn wf(&self) -> bool {
        attentive(self.number) && total(self.unit)
    }

    /// The environment of the session.
    pub closed spec fn env_view(&self) -> EnvView {
        self.env@
    }

    /// The reader of number literals of the session.
    pub closed spec fn reader(&self) -> N {
        self.number
    }

    /// The floating-point unit of the session.
    pub closed spec fn fpu(&self) -> F {
        self.unit
    }

    /// A new session: the constants and the built-in functions, and no
    /// other variable.
    pub fn new(number: N, unit: F) -> (r: Self)
        requires
            attentive(number),
            total(unit),
        ensures
            r.wf(),
            r.reader() == number,
            r.fpu() == unit,
            r.env_view().vars == calc::default_constants(),
            r.env_view().funs == calc::default_functions(),
    {
        Calculator { env: TopLevelEnv::default(), number, unit }
    }

    /// The environment of the session.
    pub fn env(&self) -> (r: &TopLevelEnv)
        ensures
            r@ == self.env_view(),
    {
        &self.env
    }

    /// Whether the expressions that `st` has evaluated can be evaluated.
    pub fn admits(&self, st: &Statement) -> (r: bool)
        ensures
            r == admitted(self.env_view(), st@),
    {
        match st {
            Statement::Expression { op } => self.env.admits(op),
            Statement::Assignment { op, .. } => self.env.admits(op),
            Statement::SolveFor { lhs, rhs, .. } => self.env.admits(lhs) && self.env.admits(rhs),
            Statement::Function { .. } => true,
            Statement::Plot { .. } => true,
        }
    }

    /// Executes a statement.
    pub fn execute_statement(&mut self, st: Statement) -> (r: Result<Value, Error>)
        requires
            old(self).wf(),
            admitted(old(self).env_view(), st@),
        ensures
            final(self).wf(),
            final(self).reader() == old(self).reader(),
            final(self).fpu() == old(self).fpu(),
            forall|m: spec_fn(Primitive) -> Number| #[trigger]
                computes(old(self).fpu(), m) ==> (Step {
                    result: value_outcome(r),
                    env: final(self).env_view(),
                }) == step(old(self).env_view(), st@, m),
    {
        match st {
            Statement::Expression { op } => match calc_operand(&op, &self.env, &self.unit) {
                Ok(v) => Ok(Value::Number(v)),
                Err(e) => Err(Error::CalcError(e)),
            },
            Statement::Assignment { sym, op } => {
                let value = match calc_operand(&op, &self.env, &self.unit) {
                    Ok(v) => v,
                    Err(e) => {
                        return Err(Error::CalcError(e));
                    },
                };
                match self.env.put(sym, value) {
                    Ok(()) => Ok(Value::Void),
                    Err(e) => Err(Error::CalcError(e)),
                }
            },
            Statement::SolveFor { lhs, rhs, sym } => {
                match solve_for(&lhs, &rhs, sym.as_str(), &self.env, &self.unit) {
                    Ok(value) => Ok(Value::Solved { variable: sym, value }),
                    Err(e) => Err(Error::SolverError(e)),
                }
            },
            Statement::Function { name, fun } => {
                self.env.put_fun(name, fun);
                Ok(Value::Void)
            },
            Statement::Plot { name } => Ok(Value::PlotRequest(name)),
        }
    }

    /// Executes a line of text. These kinds of statements are supported:
    /// - an expression: `1 + 2`
    /// - an assignment: `a := 6`, after which `a ^ 2` is `36`
    /// - a linear equation: `solve 3 * x - 2 = x + a for x`
    /// - the definition of a function: `fun(x, y) := y - x`, after which
    ///   `fun(1.5 * 2, 3 + a) - 4` is `2`
    /// - the request for a plot: `plot f`
    ///
    /// The calls of the expressions of the line must nest no deeper than
    /// [`calc::MAX_CALL_DEPTH`]; [`Calculator::try_execute`] asks for
    /// nothing and tells when they do.
    pub fn execute(&mut self, line: &str) -> (r: Result<Value, Error>)
        requires
            old(self).wf(),
            forall|lit: spec_fn(Seq<char>) -> Option<Number>| #[trigger]
                reads(old(self).reader(), lit) ==> admitted_line(old(self).env_view(), line@, lit),
        ensures
            final(self).wf(),
            final(self).reader() == old(self).reader(),
            final(self).fpu() == old(self).fpu(),
            forall|lit: spec_fn(Seq<char>) -> Option<Number>, m: spec_fn(Primitive) -> Number|
                #![trigger reads(old(self).reader(), lit), computes(old(self).fpu(), m)]
                reads(old(self).reader(), lit) && computes(old(self).fpu(), m) ==> (Step {
                    result: value_outcome(r),
                    env: final(self).env_view(),
                }) == step_of_line(old(self).env_view(), line@, lit, m),
    {
        let ghost known = choose|lit: spec_fn(Seq<char>) -> Option<Number>|
            reads(self.number, lit);
        match parse(line, &self.number) {
            Ok(st) => {
                assert(reads(self.reader(), known));
                self.execute_statement(st)
            },
            Err(e) => Err(Error::ParserError(e)),
        }
    }

    /// Executes a command line if the expressions that its statement has
    /// evaluated can be evaluated, and does nothing otherwise.
    pub fn try_execute(&mut self, line: &str) -> (r: Option<Result<Value, Error>>)
        requires
            old(self).wf(),
        ensures
            final(self).wf(),
            final(self).reader() == old(self).reader(),
            final(self).fpu() == old(self).fpu(),
            r is None ==> final(self).env_view() == old(self).env_view(),
            forall|lit: spec_fn(Seq<char>) -> Option<Number>| #[trigger]
                reads(old(self).reader(), lit) ==> (r is Some <==> admitted_line(
                    old(self).env_view(),
                    line@,
                    lit,
                )),
            forall|lit: spec_fn(Seq<char>) -> Option<Number>, m: spec_fn(Primitive) -> Number|
                #![trigger reads(old(self).reader(), lit), computes(old(self).fpu(), m)]
                reads(old(self).reader(), lit) && computes(old(self).fpu(), m) && r is Some
                    ==> (Step { result: value_outcome(r->Some_0), env: final(self).env_view() })
                    == step_of_line(old(self).env_view(), line@, lit, m),
    {
        match parse(line, &self.number) {
            Ok(st) => {
                if self.admits(&st) {
                    Some(self.execute_statement(st))
                } else {
                    None
                }
            },
            Err(e) => Some(Err(Error::ParserError(e))),
        }
    }
}

/// After the assignment of a value to a symbol that is no constant, the
/// symbol evaluates to that value.
pub proof fn assigned_value_is_read(
    env: EnvView,
    sym: Seq<char>,
    op: Expr,
    m: spec_fn(Primitive) -> Number,
)
    requires
        !env.is_constant(sym),
        env.value(op, m) is Ok,
    ensures
        step(env, StatementView::Assignment { sym, op }, m).result == Ok::<ValueView, ErrorView>(
            ValueView::Void,
        ),
        step(
            step(env, StatementView::Assignment { sym, op }, m).env,
            StatementView::Expression { op: Expr::Symbol(sym) },
            m,
        ).result == Ok::<ValueView, ErrorView>(ValueView::Number(env.value(op, m)->Ok_0)),
{
    let value = env.value(op, m)->Ok_0;
    calc::value_after_assignment(env, sym, value, sym);
}

/// The assignment of the same value to the same symbol a second time
/// leaves the environment as the first left it, so that whatever is read
/// after it is what was read before it.
pub proof fn repeated_assignment_changes_nothing(
    env: EnvView,
    sym: Seq<char>,
    value: Number,
    m: spec_fn(Primitive) -> Number,
)
    requires
        !env.is_constant(sym),
    ensures
        ({
            let st = StatementView::Assignment { sym, op: Expr::Number(value) };
            let once = step(env, st, m);
            let twice = step(once.env, st, m);
            once.result == twice.result && once.env == twice.env
        }),
{
    calc::assignment_is_idempotent(env, sym, value);
    crate::calc::find_after_assign(env.vars, sym, value, sym);
}

/// The assignment to a constant fails, with the error of the expression
/// if that has no value and with `CannotChangeConstant` otherwise, and
/// leaves the environment as it was.
pub proof fn constants_are_protected(
    env: EnvView,
    sym: Seq<char>,
    op: Expr,
    m: spec_fn(Primitive) -> Number,
)
    requires
        env.is_constant(sym),
    ensures
        step(env, StatementView::Assignment { sym, op }, m).env == env,
        step(env, StatementView::Assignment { sym, op }, m).result is Err,
        env.value(op, m) is Ok ==> step(env, StatementView::Assignment { sym, op }, m).result
            == Err::<ValueView, ErrorView>(
            ErrorView::CalcError(CalcErrorView::CannotChangeConstant(sym)),
        ),
{
}

/// A statement that fails leaves the environment as it was.
pub proof fn failure_changes_nothing(
    env: EnvView,
    st: StatementView,
    m: spec_fn(Primitive) -> Number,
)
    requires
        step(env, st, m).result is Err,
    ensures
        step(env, st, m).env == env,
{
}

/// The value of an expression of numbers and operations is the number
/// that it folds to, in every environment.
pub proof fn arithmetic_needs_no_environment(
    env: EnvView,
    op: Expr,
    m: spec_fn(Primitive) -> Number,
)
    requires
        ast::arithmetic(op),
    ensures
        env.admits(op),
        step(env, StatementView::Expression { op }, m).result == Ok::<ValueView, ErrorView>(
            ValueView::Number(solver::folded(op, m)),
        ),
{
    solver::folding_is_evaluation(op, env.scope(), m, calc::MAX_CALL_DEPTH as nat);
}

/// After the line `a := v`, the line `a` gives the number of `v`: for
/// every symbol `a` that is no constant and every number `v` that the
/// reader of literals reads.
pub proof fn assignment_line_then_symbol_line(
    env: EnvView,
    a: Seq<char>,
    v: Seq<char>,
    lit: spec_fn(Seq<char>) -> Option<Number>,
    m: spec_fn(Primitive) -> Number,
)
    requires
        grammar::is_symbol(a),
        grammar::is_number(v),
        lit(v) is Some,
        !env.is_constant(a),
    ensures
        ({
            let first = step_of_line(env, grammar::assignment_line(a, v), lit, m);
            let second = step_of_line(first.env, a, lit, m);
            &&& first.result == Ok::<ValueView, ErrorView>(ValueView::Void)
            &&& second.result == Ok::<ValueView, ErrorView>(ValueView::Number(lit(v)->Some_0))
        }),
{
    parser::assignment_line_is_its_assignment(a, v, lit);
    parser::symbol_line_is_its_expression(a, lit);
    assigned_value_is_read(env, a, Expr::Number(lit(v)->Some_0), m);
}

/// The line `a := v` a second time leaves the environment as the first
/// left it: whatever is read after it is what was read before it.
pub proof fn repeated_assignment_line_changes_nothing(
    env: EnvView,
    a: Seq<char>,
    v: Seq<char>,
    lit: spec_fn(Seq<char>) -> Option<Number>,
    m: spec_fn(Primitive) -> Number,
)
    requires
        grammar::is_symbol(a),
        grammar::is_number(v),
        lit(v) is Some,
        !env.is_constant(a),
    ensures
        ({
            let line = grammar::assignment_line(a, v);
            let once = step_of_line(env, line, lit, m);
            let twice = step_of_line(once.env, line, lit, m);
            once.result == twice.result && once.env == twice.env
        }),
{
    parser::assignment_line_is_its_assignment(a, v, lit);
    repeated_assignment_changes_nothing(env, a, lit(v)->Some_0, m);
}

/// The line `a := v` for a constant `a` fails with
/// `CannotChangeConstant`, and the constant reads afterwards as it read
/// before.
pub proof fn assignment_line_to_a_constant(
    env: EnvView,
    a: Seq<char>,
    v: Seq<char>,
    lit: spec_fn(Seq<char>) -> Option<Number>,
    m: spec_fn(Primitive) -> Number,
)
    requires
        grammar::is_symbol(a),
        grammar::is_number(v),
        lit(v) is Some,
        env.is_constant(a),
    ensures
        ({
            let first = step_of_line(env, grammar::assignment_line(a, v), lit, m);
            &&& first.result == Err::<ValueView, ErrorView>(
                ErrorView::CalcError(CalcErrorView::CannotChangeConstant(a)),
            )
            &&& first.env == env
            &&& step_of_line(first.env, a, lit, m) == step_of_line(env, a, lit, m)
            &&& step_of_line(env, a, lit, m).result == Ok::<ValueView, ErrorView>(
                ValueView::Number(env.value_of(a)->Some_0),
            )
        }),
{
    parser::assignment_line_is_its_assignment(a, v, lit);
    parser::symbol_line_is_its_expression(a, lit);
}

/// The value of an expression of number literals is what standard
/// precedence gives: the tokens mean the expression of the layered
/// grammar, and that evaluates, in every environment, to the number that
/// it folds to.
pub proof fn value_of_numeric_expression(
    env: EnvView,
    p: grammar::Token,
    lit: spec_fn(Seq<char>) -> Option<Number>,
    m: spec_fn(Primitive) -> Number,
)
    requires
        p.rule == grammar::Rule::Expr,
        parser::numeric(p, lit),
    ensures
        ({
            let layered = parser::expr(p.inner, 0, lit).result;
            &&& layered is Ok
            &&& parser::statement_of(seq![p, grammar::end_of_input()], lit) == Ok::<
                StatementView,
                ParserErrorView,
            >(StatementView::Expression { op: layered->Ok_0 })
            &&& admitted(env, StatementView::Expression { op: layered->Ok_0 })
            &&& step(env, StatementView::Expression { op: layered->Ok_0 }, m).result == Ok::<
                ValueView,
                ErrorView,
            >(ValueView::Number(solver::folded(layered->Ok_0, m)))
        }),
{
    parser::numeric_token_is_arithmetic(p, lit);
    let op = parser::expr(p.inner, 0, lit).result->Ok_0;
    arithmetic_needs_no_environment(env, op, m);
}


/// The value of a line that holds an expression of number literals is
/// what standard precedence gives: the number that the expression of the
/// layered grammar folds to, in every environment.
pub proof fn value_of_numeric_line(
    env: EnvView,
    line: Seq<char>,
    lit: spec_fn(Seq<char>) -> Option<Number>,
    m: spec_fn(Primitive) -> Number,
)
    requires
        grammar::statement(line) is Some,
        grammar::statement(line)->Some_0[0].rule == grammar::Rule::Expr,
        parser::numeric(grammar::statement(line)->Some_0[0], lit),
    ensures
        ({
            let tokens = grammar::statement(line)->Some_0[0].inner;
            let layered = parser::expr(tokens, 0, lit).result;
            &&& layered is Ok
            &&& admitted_line(env, line, lit)
            &&& step_of_line(env, line, lit, m).result == Ok::<ValueView, ErrorView>(
                ValueView::Number(solver::folded(layered->Ok_0, m)),
            )
            &&& step_of_line(env, line, lit, m).env == env
        }),
{
    let pairs = grammar::statement(line)->Some_0;
    value_of_numeric_expression(env, pairs[0], lit, m);
    assert(pairs =~= seq![pairs[0], grammar::end_of_input()]);
}

} // verus!

//! The solver of linear equations in one variable.
//!
//! Each side of an equation is brought into the form `a1 * x + a0`; the
//! two forms give `x`. A side in which `x` occurs squared, in a
//! denominator, under `%` or under `^` has no such form and is refused.

use crate::ast::{
    arithmetic, between, computes, total, view_of_call, Expr, Number, Operand, Operation,
    Primitive, Term, ONE_BITS, ZERO_BITS,
};
use crate::calc::{
    calc_function_call, eval, nests_within, CalcError, CalcErrorView, EnvView, Scope, TopLevelEnv,
};
use vstd::prelude::*;

verus! {

/// The normal form `a1 * x + a0` of an operand.
#[derive(Debug, PartialEq, Eq, Structural, Clone, Copy)]
pub struct NormForm {
    pub a1: Number,
    pub a0: Number,
}

/// Why an equation cannot be solved.
#[derive(Debug, PartialEq, Eq)]
pub enum SolverError {
    UnknownVariable(String),
    UnsupportedXSquare,
    UnsupportedXDenominator,
    UnsupportedRemainder,
    UnsupportedPower,
    NoVariable,
    FunctionCallError(CalcError),
}

/// The model of a [`SolverError`].
pub enum SolverErrorView {
    UnknownVariable(Seq<char>),
    UnsupportedXSquare,
    UnsupportedXDenominator,
    UnsupportedRemainder,
    UnsupportedPower,
    NoVariable,
    FunctionCallError(CalcErrorView),
}

impl View for SolverError {
    type V = SolverErrorView;

    open spec fn view(&self) -> SolverErrorView {
        match self {
            SolverError::UnknownVariable(s) => SolverErrorView::UnknownVariable(s@),
            SolverError::UnsupportedXSquare => SolverErrorView::UnsupportedXSquare,
            SolverError::UnsupportedXDenominator => SolverErrorView::UnsupportedXDenominator,
            SolverError::UnsupportedRemainder => SolverErrorView::UnsupportedRemainder,
            SolverError::UnsupportedPower => SolverErrorView::UnsupportedPower,
            SolverError::NoVariable => SolverErrorView::NoVariable,
            SolverError::FunctionCallError(e) => SolverErrorView::FunctionCallError(e@),
        }
    }
}

impl SolverErrorView {
    /// The error in words; that of a call is the error of the evaluator.
    pub open spec fn message(self) -> Seq<char> {
        match self {
            SolverErrorView::UnknownVariable(text) => "Unknown variable `"@ + text + "` in `solve ... for ...`"@,
            SolverErrorView::UnsupportedXSquare => "Unsupported `^2` of variable to solve for in `solve ... for ...`"@,
            SolverErrorView::UnsupportedXDenominator => "Unsupported variable in denominator in `solve ... for ...`"@,
            SolverErrorView::UnsupportedRemainder => "Unsupported % with solve for variable in `solve ... for ...`"@,
            SolverErrorView::UnsupportedPower => "Unsupported power in `solve ... for ...`"@,
            SolverErrorView::NoVariable => "`solve ... for ...` contains no variable (after simplification)"@,
            SolverErrorView::FunctionCallError(e) => e.message(),
        }
    }
}

impl SolverError {
    /// The error in words.
    pub fn message(&self) -> (r: String)
        ensures
            r@ == self@.message(),
    {
        match self {
            SolverError::UnknownVariable(text) => between("Unknown variable `", text, "` in `solve ... for ...`"),
            SolverError::UnsupportedXSquare => "Unsupported `^2` of variable to solve for in `solve ... for ...`".to_owned(),
            SolverError::UnsupportedXDenominator => "Unsupported variable in denominator in `solve ... for ...`".to_owned(),
            SolverError::UnsupportedRemainder => "Unsupported % with solve for variable in `solve ... for ...`".to_owned(),
            SolverError::UnsupportedPower => "Unsupported power in `solve ... for ...`".to_owned(),
            SolverError::NoVariable => "`solve ... for ...` contains no variable (after simplification)".to_owned(),
            SolverError::FunctionCallError(e) => e.message(),
        }
    }
}

/// The model of the result of a normalization.
pub open spec fn form_outcome(r: Result<NormForm, SolverError>) -> Result<
    NormForm,
    SolverErrorView,
> {
    match r {
        Ok(f) => Ok(f),
        Err(e) => Err(e@),
    }
}

/// The model of the result of the solver.
pub open spec fn solver_outcome(r: Result<Number, SolverError>) -> Result<
    Number,
    SolverErrorView,
> {
    match r {
        Ok(v) => Ok(v),
        Err(e) => Err(e@),
    }
}

/// The form of a number that does not depend on the variable.
pub open spec fn constant_form(value: Number) -> NormForm {
    NormForm { a1: Number { bits: ZERO_BITS }, a0: value }
}

/// The form of the variable itself.
pub open spec fn variable_form() -> NormForm {
    NormForm { a1: Number { bits: ONE_BITS }, a0: Number { bits: ZERO_BITS } }
}

/// The form of `l op r` from the forms of `l` and `r`, where `m` is what
/// the floating-point unit computes.
pub open spec fn combine(
    op: Operation,
    l: NormForm,
    r: NormForm,
    m: spec_fn(Primitive) -> Number,
) -> Result<NormForm, SolverErrorView> {
    match op {
        Operation::Add => Ok(
            NormForm {
                a1: m(Primitive::Binary(Operation::Add, l.a1, r.a1)),
                a0: m(Primitive::Binary(Operation::Add, l.a0, r.a0)),
            },
        ),
        Operation::Sub => Ok(
            NormForm {
                a1: m(Primitive::Binary(Operation::Sub, l.a1, r.a1)),
                a0: m(Primitive::Binary(Operation::Sub, l.a0, r.a0)),
            },
        ),
        Operation::Mul => if !m(Primitive::Binary(Operation::Mul, l.a1, r.a1)).is_zero() {
            Err(SolverErrorView::UnsupportedXSquare)
        } else {
            Ok(
                NormForm {
                    a1: m(
                        Primitive::Binary(
                            Operation::Add,
                            m(Primitive::Binary(Operation::Mul, l.a1, r.a0)),
                            m(Primitive::Binary(Operation::Mul, r.a1, l.a0)),
                        ),
                    ),
                    a0: m(Primitive::Binary(Operation::Mul, l.a0, r.a0)),
                },
            )
        },
        Operation::Div => if !r.a1.is_zero() {
            Err(SolverErrorView::UnsupportedXDenominator)
        } else {
            Ok(
                NormForm {
                    a1: m(Primitive::Binary(Operation::Div, l.a1, r.a0)),
                    a0: m(Primitive::Binary(Operation::Div, l.a0, r.a0)),
                },
            )
        },
        Operation::Rem => if !l.a1.is_zero() || !r.a1.is_zero() {
            Err(SolverErrorView::UnsupportedRemainder)
        } else {
            Ok(constant_form(m(Primitive::Binary(Operation::Rem, l.a0, r.a0))))
        },
        Operation::Pow => if !l.a1.is_zero() || !r.a1.is_zero() {
            Err(SolverErrorView::UnsupportedPower)
        } else {
            Ok(constant_form(m(Primitive::Binary(Operation::Pow, l.a0, r.a0))))
        },
    }
}

/// The normal form of `e` in the variable `sym`.
pub open spec fn normal_form(
    e: Expr,
    sym: Seq<char>,
    env: EnvView,
    m: spec_fn(Primitive) -> Number,
) -> Result<NormForm, SolverErrorView>
    decreases e,
{
    match e {
        Expr::Number(n) => Ok(constant_form(n)),
        Expr::Symbol(s) => if s == sym {
            Ok(variable_form())
        } else {
            match env.value_of(s) {
                Some(v) => Ok(constant_form(v)),
                None => Err(SolverErrorView::UnknownVariable(s)),
            }
        },
        Expr::Term(op, lhs, rhs) => match normal_form(*lhs, sym, env, m) {
            Err(e) => Err(e),
            Ok(l) => match normal_form(*rhs, sym, env, m) {
                Err(e) => Err(e),
                Ok(r) => combine(op, l, r, m),
            },
        },
        Expr::FunCall(_, _) => match env.value(e, m) {
            Ok(v) => Ok(constant_form(v)),
            Err(e) => Err(SolverErrorView::FunctionCallError(e)),
        },
    }
}

/// The solution of `lhs = rhs` for `sym`.
pub open spec fn solution(
    lhs: Expr,
    rhs: Expr,
    sym: Seq<char>,
    env: EnvView,
    m: spec_fn(Primitive) -> Number,
) -> Result<Number, SolverErrorView> {
    match normal_form(lhs, sym, env, m) {
        Err(e) => Err(e),
        Ok(l) => match normal_form(rhs, sym, env, m) {
            Err(e) => Err(e),
            Ok(r) => {
                let denominator = m(Primitive::Binary(Operation::Sub, l.a1, r.a1));
                if denominator.is_zero() {
                    Err(SolverErrorView::NoVariable)
                } else {
                    Ok(
                        m(
                            Primitive::Binary(
                                Operation::Div,
                                m(Primitive::Binary(Operation::Sub, r.a0, l.a0)),
                                denominator,
                            ),
                        ),
                    )
                }
            },
        },
    }
}

/// Brings a term into normal form: both operands, the left one first,
/// then the form of the operation on their forms.
pub fn normalize_term<F: Fn(Primitive) -> Number>(
    term: &Term,
    sym: &str,
    env: &TopLevelEnv,
    unit: &F,
) -> (r: Result<NormForm, SolverError>)
    requires
        total(*unit),
        env@.admits(term@),
    ensures
        forall|m: spec_fn(Primitive) -> Number| #[trigger]
            computes(*unit, m) ==> form_outcome(r) == normal_form(term@, sym@, env@, m),
    decreases term,
{
    let lhs = match normalize(&term.lhs, sym, env, unit) {
        Ok(f) => f,
        Err(e) => {
            return Err(e);
        },
    };
    let rhs = match normalize(&term.rhs, sym, env, unit) {
        Ok(f) => f,
        Err(e) => {
            return Err(e);
        },
    };
    match term.op {
        Operation::Add => {
            let factor = unit(Primitive::Binary(Operation::Add, lhs.a1, rhs.a1));
            let summand = unit(Primitive::Binary(Operation::Add, lhs.a0, rhs.a0));
            Ok(NormForm { a1: factor, a0: summand })
        },
        Operation::Sub => {
            let factor = unit(Primitive::Binary(Operation::Sub, lhs.a1, rhs.a1));
            let summand = unit(Primitive::Binary(Operation::Sub, lhs.a0, rhs.a0));
            Ok(NormForm { a1: factor, a0: summand })
        },
        Operation::Mul => {
            let a2 = unit(Primitive::Binary(Operation::Mul, lhs.a1, rhs.a1));
            let left = unit(Primitive::Binary(Operation::Mul, lhs.a1, rhs.a0));
            let right = unit(Primitive::Binary(Operation::Mul, rhs.a1, lhs.a0));
            let a1 = unit(Primitive::Binary(Operation::Add, left, right));
            let a0 = unit(Primitive::Binary(Operation::Mul, lhs.a0, rhs.a0));
            if !a2.is_zero() {
                Err(SolverError::UnsupportedXSquare)
            } else {
                Ok(NormForm { a1, a0 })
            }
        },
        Operation::Div => {
            if !rhs.a1.is_zero() {
                Err(SolverError::UnsupportedXDenominator)
            } else {
                let a1 = unit(Primitive::Binary(Operation::Div, lhs.a1, rhs.a0));
                let a0 = unit(Primitive::Binary(Operation::Div, lhs.a0, rhs.a0));
                Ok(NormForm { a1, a0 })
            }
        },
        Operation::Rem => {
            if !lhs.a1.is_zero() || !rhs.a1.is_zero() {
                Err(SolverError::UnsupportedRemainder)
            } else {
                let a0 = unit(Primitive::Binary(Operation::Rem, lhs.a0, rhs.a0));
                Ok(NormForm { a1: Number::zero(), a0 })
            }
        },
        Operation::Pow => {
            if !lhs.a1.is_zero() || !rhs.a1.is_zero() {
                Err(SolverError::UnsupportedPower)
            } else {
                let a0 = unit(Primitive::Binary(Operation::Pow, lhs.a0, rhs.a0));
                Ok(NormForm { a1: Number::zero(), a0 })
            }
        },
    }
}

/// Brings an operand into normal form in the variable `sym`. A call is
/// evaluated as it stands: the variable inside it counts as any other
/// symbol.
pub fn normalize<F: Fn(Primitive) -> Number>(
    op: &Operand,
    sym: &str,
    env: &TopLevelEnv,
    unit: &F,
) -> (r: Result<NormForm, SolverError>)
    requires
        total(*unit),
        env@.admits(op@),
    ensures
        forall|m: spec_fn(Primitive) -> Number| #[trigger]
            computes(*unit, m) ==> form_outcome(r) == normal_form(op@, sym@, env@, m),
    decreases op,
{
    match op {
        Operand::Number(num) => Ok(NormForm { a1: Number::zero(), a0: *num }),
        Operand::Symbol(s) => {
            if op.is_symbol(sym) {
                Ok(NormForm { a1: Number::one(), a0: Number::zero() })
            } else {
                match env.get(s.as_str()) {
                    Some(num) => Ok(NormForm { a1: Number::zero(), a0: *num }),
                    None => Err(SolverError::UnknownVariable(s.clone())),
                }
            }
        },
        Operand::Term(term) => normalize_term(term, sym, env, unit),
        Operand::FunCall(fun_call) => {
            proof {
                view_of_call(*fun_call);
            }
            match calc_function_call(fun_call, env, unit) {
                Ok(num) => Ok(NormForm { a1: Number::zero(), a0: num }),
                Err(e) => Err(SolverError::FunctionCallError(e)),
            }
        },
    }
}

/// Solves `lhs = rhs` for the variable `sym`.
pub fn solve_for<F: Fn(Primitive) -> Number>(
    lhs: &Operand,
    rhs: &Operand,
    sym: &str,
    env: &TopLevelEnv,
    unit: &F,
) -> (r: Result<Number, SolverError>)
    requires
        total(*unit),
        env@.admits(lhs@),
        env@.admits(rhs@),
    ensures
        forall|m: spec_fn(Primitive) -> Number| #[trigger]
            computes(*unit, m) ==> solver_outcome(r) == solution(lhs@, rhs@, sym@, env@, m),
{
    let norm_form_lhs = match normalize(lhs, sym, env, unit) {
        Ok(f) => f,
        Err(e) => {
            return Err(e);
        },
    };
    let norm_form_rhs = match normalize(rhs, sym, env, unit) {
        Ok(f) => f,
        Err(e) => {
            return Err(e);
        },
    };
    let denominator = unit(Primitive::Binary(Operation::Sub, norm_form_lhs.a1, norm_form_rhs.a1));
    if denominator.is_zero() {
        Err(SolverError::NoVariable)
    } else {
        let nominator = unit(
            Primitive::Binary(Operation::Sub, norm_form_rhs.a0, norm_form_lhs.a0),
        );
        Ok(unit(Primitive::Binary(Operation::Div, nominator, denominator)))
    }
}

/// The number that an expression of numbers and operations comes to,
/// where `m` is what the floating-point unit computes.
pub open spec fn folded(e: Expr, m: spec_fn(Primitive) -> Number) -> Number
    decreases e,
{
    match e {
        Expr::Number(n) => n,
        Expr::Term(op, lhs, rhs) => m(Primitive::Binary(op, folded(*lhs, m), folded(*rhs, m))),
        _ => Number { bits: ZERO_BITS },
    }
}

/// An expression of numbers and operations has, in every scope, the value
/// that it folds to.
pub proof fn folding_is_evaluation(
    e: Expr,
    scope: Scope,
    m: spec_fn(Primitive) -> Number,
    depth: nat,
)
    requires
        arithmetic(e),
    ensures
        eval(e, scope, m, depth) == Ok::<Number, CalcErrorView>(folded(e, m)),
        nests_within(e, scope.funs, depth),
    decreases e,
{
    match e {
        Expr::Term(_, lhs, rhs) => {
            folding_is_evaluation(*lhs, scope, m, depth);
            folding_is_evaluation(*rhs, scope, m, depth);
        },
        _ => {},
    }
}

fn fold<F: Fn(Primitive) -> Number>(op: &Operand, unit: &F) -> (r: Number)
    requires
        total(*unit),
        arithmetic(op@),
    ensures
        forall|m: spec_fn(Primitive) -> Number| #[trigger]
            computes(*unit, m) ==> r == folded(op@, m),
    decreases op,
{
    match op {
        Operand::Number(n) => *n,
        Operand::Term(term) => {
            let lhs = fold(&term.lhs, unit);
            let rhs = fold(&term.rhs, unit);
            unit(Primitive::Binary(term.op, lhs, rhs))
        },
        _ => Number::zero(),
    }
}

/// Simplifies an operand: an expression of numbers and operations becomes
/// the number that it comes to, and a symbol stays what it is.
pub fn simplify<F: Fn(Primitive) -> Number>(op: &Operand, unit: &F) -> (r: Operand)
    requires
        total(*unit),
        op@ is Symbol || arithmetic(op@),
    ensures
        op@ is Symbol ==> r@ == op@,
        arithmetic(op@) ==> r@ is Number,
        forall|m: spec_fn(Primitive) -> Number| #[trigger]
            computes(*unit, m) && arithmetic(op@) ==> r@ == Expr::Number(folded(op@, m)),
{
    match op {
        Operand::Symbol(_) => op.clone(),
        _ => Operand::Number(fold(op, unit)),
    }
}

} // verus!

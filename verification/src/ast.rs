//! The syntax tree of the expression language and its mathematical model.
//!
//! Every executable type has a view: a model built from `Seq<char>` and
//! `Seq` in which two values are equal exactly when they denote the same
//! tree. All contracts of the crate are stated over these views.

use vstd::prelude::*;

verus! {

/// A number of the expression language: an IEEE-754 binary64 value, held
/// as its bit pattern. The library moves numbers around and tests them for
/// zero; arithmetic on them is done by the floating-point unit that the
/// caller supplies (see [`Primitive`]).
#[derive(Clone, Copy, PartialEq, Eq, Structural, Debug)]
pub struct Number {
    pub bits: u64,
}

/// The bit pattern of `+0.0`.
pub const ZERO_BITS: u64 = 0;

/// The bit pattern of `-0.0`.
pub const NEGATIVE_ZERO_BITS: u64 = 0x8000_0000_0000_0000;

/// The bit pattern of `1.0`.
pub const ONE_BITS: u64 = 0x3FF0_0000_0000_0000;

impl Number {
    /// Whether the pattern encodes `+0.0` or `-0.0`, the two values that
    /// compare equal to zero.
    pub open spec fn is_zero_spec(self) -> bool {
        self.bits == ZERO_BITS || self.bits == NEGATIVE_ZERO_BITS
    }

    /// The number of a bit pattern.
    pub fn from_bits(bits: u64) -> (r: Number)
        ensures
            r.bits == bits,
    {
        Number { bits }
    }

    /// The bit pattern of the number.
    pub fn to_bits(&self) -> (r: u64)
        ensures
            r == self.bits,
    {
        self.bits
    }

    /// The number `+0.0`.
    pub fn zero() -> (r: Number)
        ensures
            r.bits == ZERO_BITS,
    {
        Number { bits: ZERO_BITS }
    }

    /// The number `1.0`.
    pub fn one() -> (r: Number)
        ensures
            r.bits == ONE_BITS,
    {
        Number { bits: ONE_BITS }
    }

    /// Whether the number compares equal to zero.
    #[verifier::when_used_as_spec(is_zero_spec)]
    pub fn is_zero(self) -> (r: bool)
        ensures
            r == self.is_zero_spec(),
    {
        self.bits == ZERO_BITS || self.bits == NEGATIVE_ZERO_BITS
    }
}

/// The binary operations of the language.
#[derive(Debug, PartialEq, Eq, Structural, Clone, Copy)]
pub enum Operation {
    Add,
    Sub,
    Mul,
    Div,
    Rem,
    Pow,
}

/// The native unary transforms behind the built-in functions.
#[derive(Debug, PartialEq, Eq, Structural, Clone, Copy)]
pub enum Transform {
    Abs,
    Sqrt,
    Sin,
    Sinh,
    Cos,
    Cosh,
    Tan,
    Tanh,
    Exp,
    Ln,
    Log2,
    Log10,
    Atan,
    Atanh,
    Asin,
    Asinh,
    Acos,
    Acosh,
}

/// One request to the floating-point unit: a binary operation on two
/// numbers, or a unary transform of one.
#[derive(Debug, PartialEq, Eq, Structural, Clone, Copy)]
pub enum Primitive {
    Binary(Operation, Number, Number),
    Unary(Transform, Number),
}

/// `model` describes the floating-point unit `unit`: whatever `unit`
/// returns for a request is what `model` gives for it.
pub open spec fn computes<F: Fn(Primitive) -> Number>(
    unit: F,
    model: spec_fn(Primitive) -> Number,
) -> bool {
    forall|p: Primitive, r: Number| #[trigger] unit.ensures((p,), r) ==> r == model(p)
}

/// The unit is a total function: it accepts every request, and what it
/// returns depends on the request alone.
pub open spec fn total<F: Fn(Primitive) -> Number>(unit: F) -> bool {
    &&& forall|p: Primitive| #[trigger] unit.requires((p,))
    &&& exists|model: spec_fn(Primitive) -> Number| computes(unit, model)
}

/// The call of a function: its name and the operands of its arguments.
#[derive(Debug, PartialEq)]
pub struct FunCall {
    pub name: String,
    pub params: Vec<Operand>,
}

/// An operand: a number, a symbol, a term of two operands, or a call.
#[derive(Debug, PartialEq)]
pub enum Operand {
    Number(Number),
    Symbol(String),
    Term(Box<Term>),
    FunCall(FunCall),
}

/// A term: an operation and its two operands.
#[derive(Debug, PartialEq)]
pub struct Term {
    pub op: Operation,
    pub lhs: Operand,
    pub rhs: Operand,
}

/// The model of an [`Operand`].
pub enum Expr {
    Number(Number),
    Symbol(Seq<char>),
    Term(Operation, Box<Expr>, Box<Expr>),
    FunCall(Seq<char>, Seq<Expr>),
}

/// `e` holds numbers and operations only.
pub open spec fn arithmetic(e: Expr) -> bool
    decreases e,
{
    match e {
        Expr::Number(_) => true,
        Expr::Term(_, lhs, rhs) => arithmetic(*lhs) && arithmetic(*rhs),
        _ => false,
    }
}

/// The views of a sequence of operands.
pub open spec fn exprs_of(ops: Seq<Operand>) -> Seq<Expr> {
    Seq::new(ops.len(), |i: int| ops[i]@)
}

/// The model of an operand.
pub open spec fn expr_of(op: Operand) -> Expr
    decreases op,
{
    match op {
        Operand::Number(n) => Expr::Number(n),
        Operand::Symbol(s) => Expr::Symbol(s@),
        Operand::Term(t) => Expr::Term(t.op, Box::new(expr_of(t.lhs)), Box::new(expr_of(t.rhs))),
        Operand::FunCall(fc) => Expr::FunCall(
            fc.name@,
            Seq::new(
                fc.params@.len(),
                |i: int|
                    if 0 <= i < fc.params@.len() {
                        expr_of(fc.params@[i])
                    } else {
                        Expr::Number(Number { bits: 0 })
                    },
            ),
        ),
    }
}

impl View for Operand {
    type V = Expr;

    open spec fn view(&self) -> Expr {
        expr_of(*self)
    }
}

/// The view of a call is the call of the views.
pub broadcast proof fn view_of_call(fc: FunCall)
    ensures
        #[trigger] Operand::FunCall(fc)@ == Expr::FunCall(fc.name@, exprs_of(fc.params@)),
{
    let a = expr_of(Operand::FunCall(fc));
    assert(a->FunCall_1 =~= exprs_of(fc.params@));
}

impl View for Term {
    type V = Expr;

    open spec fn view(&self) -> Expr {
        Expr::Term(self.op, Box::new(self.lhs@), Box::new(self.rhs@))
    }
}

impl View for FunCall {
    type V = Expr;

    open spec fn view(&self) -> Expr {
        Expr::FunCall(self.name@, exprs_of(self.params@))
    }
}

/// The views of a sequence of strings.
pub open spec fn texts_of(names: Seq<String>) -> Seq<Seq<char>> {
    Seq::new(names.len(), |i: int| names[i]@)
}

/// A copy of `names`, element by element.
pub fn copy_texts(names: &Vec<String>) -> (r: Vec<String>)
    ensures
        texts_of(r@) == texts_of(names@),
{
    let mut out: Vec<String> = Vec::new();
    let mut i: usize = 0;
    while i < names.len()
        invariant
            i <= names.len(),
            out.len() == i,
            forall|j: int| 0 <= j < i ==> out[j]@ == names[j]@,
        decreases names.len() - i,
    {
        out.push(names[i].clone());
        i += 1;
    }
    out
}

/// Whether two strings hold the same text.
pub fn same_text(a: &str, b: &str) -> (r: bool)
    ensures
        r == (a@ == b@),
{
    let x = a.to_owned();
    let y = b.to_owned();
    x == y
}

impl Operand {
    /// Whether the operand is the symbol `sym`.
    pub fn is_symbol(&self, sym: &str) -> (r: bool)
        ensures
            r == (self@ == Expr::Symbol(sym@)),
    {
        match self {
            Operand::Symbol(s) => same_text(s.as_str(), sym),
            _ => false,
        }
    }

    /// Whether the operand holds numbers and operations only.
    pub fn is_arithmetic(&self) -> (r: bool)
        ensures
            r == arithmetic(self@),
        decreases self,
    {
        match self {
            Operand::Number(_) => true,
            Operand::Term(t) => t.lhs.is_arithmetic() && t.rhs.is_arithmetic(),
            Operand::Symbol(_) => false,
            Operand::FunCall(call) => {
                proof {
                    view_of_call(*call);
                }
                false
            },
        }
    }

    /// A deep copy of the operand.
    fn copy(&self) -> (r: Operand)
        ensures
            r@ == self@,
        decreases self,
    {
        match self {
            Operand::Number(n) => Operand::Number(*n),
            Operand::Symbol(s) => Operand::Symbol(s.clone()),
            Operand::Term(t) => {
                let lhs = t.lhs.copy();
                let rhs = t.rhs.copy();
                Operand::Term(Box::new(Term { op: t.op, lhs, rhs }))
            },
            Operand::FunCall(fc) => {
                let mut params: Vec<Operand> = Vec::new();
                let mut i: usize = 0;
                while i < fc.params.len()
                    invariant
                        i <= fc.params.len(),
                        params.len() == i,
                        decreases_to!(self => fc.params),
                        forall|j: int| 0 <= j < i ==> params[j]@ == fc.params[j]@,
                    decreases fc.params.len() - i,
                {
                    let p = fc.params[i].copy();
                    params.push(p);
                    i += 1;
                }
                assert(exprs_of(params@) =~= exprs_of(fc.params@));
                let out = FunCall { name: fc.name.clone(), params };
                proof {
                    view_of_call(out);
                    view_of_call(*fc);
                }
                Operand::FunCall(out)
            },
        }
    }
}

impl Clone for Operand {
    fn clone(&self) -> (r: Operand)
        ensures
            r@ == self@,
    {
        self.copy()
    }
}

impl Clone for Term {
    fn clone(&self) -> (r: Term)
        ensures
            r@ == self@,
    {
        Term { op: self.op, lhs: self.lhs.clone(), rhs: self.rhs.clone() }
    }
}

impl Clone for FunCall {
    fn clone(&self) -> (r: FunCall)
        ensures
            r@ == self@,
    {
        FunCall { name: self.name.clone(), params: copy_operands(&self.params) }
    }
}

/// A copy of `ops`, element by element.
pub fn copy_operands(ops: &Vec<Operand>) -> (r: Vec<Operand>)
    ensures
        exprs_of(r@) == exprs_of(ops@),
{
    let mut out: Vec<Operand> = Vec::new();
    let mut i: usize = 0;
    while i < ops.len()
        invariant
            i <= ops.len(),
            out.len() == i,
            forall|j: int| 0 <= j < i ==> out[j]@ == ops[j]@,
        decreases ops.len() - i,
    {
        out.push(ops[i].clone());
        i += 1;
    }
    assert(exprs_of(out@) =~= exprs_of(ops@));
    out
}

/// A function defined in the language: the names of its parameters and
/// its body.
#[derive(Debug, PartialEq)]
pub struct CustomFunction {
    pub args: Vec<String>,
    pub body: Operand,
}

/// A built-in function: its name, the name of its parameter, and the
/// native transform that it applies.
#[derive(Debug, PartialEq)]
pub struct BuildInFunction {
    pub name: String,
    pub arg: String,
    pub body: Transform,
}

/// A function: defined in the language, or built in.
#[derive(Debug, PartialEq)]
pub enum Function {
    Custom(CustomFunction),
    BuildIn(BuildInFunction),
}

/// The model of a [`Function`].
pub enum FunctionView {
    Custom { args: Seq<Seq<char>>, body: Expr },
    BuildIn { name: Seq<char>, arg: Seq<char>, transform: Transform },
}

impl View for Function {
    type V = FunctionView;

    open spec fn view(&self) -> FunctionView {
        match self {
            Function::Custom(f) => FunctionView::Custom { args: texts_of(f.args@), body: f.body@ },
            Function::BuildIn(f) => FunctionView::BuildIn {
                name: f.name@,
                arg: f.arg@,
                transform: f.body,
            },
        }
    }
}

impl Clone for CustomFunction {
    fn clone(&self) -> (r: CustomFunction)
        ensures
            texts_of(r.args@) == texts_of(self.args@),
            r.body@ == self.body@,
    {
        CustomFunction { args: copy_texts(&self.args), body: self.body.clone() }
    }
}

impl Clone for BuildInFunction {
    fn clone(&self) -> (r: BuildInFunction)
        ensures
            r.name@ == self.name@,
            r.arg@ == self.arg@,
            r.body == self.body,
    {
        BuildInFunction { name: self.name.clone(), arg: self.arg.clone(), body: self.body }
    }
}

impl Clone for Function {
    fn clone(&self) -> (r: Function)
        ensures
            r@ == self@,
    {
        match self {
            Function::Custom(f) => Function::Custom(f.clone()),
            Function::BuildIn(f) => Function::BuildIn(f.clone()),
        }
    }
}

impl Default for Function {
    /// The function of no parameters whose body is the number `1.0`.
    fn default() -> (r: Function)
        ensures
            r@ == (FunctionView::Custom {
                args: Seq::<Seq<char>>::empty(),
                body: Expr::Number(Number { bits: ONE_BITS }),
            }),
    {
        let f = Function::Custom(
            CustomFunction { args: Vec::new(), body: Operand::Number(Number::one()) },
        );
        assert(texts_of(Seq::<String>::empty()) =~= Seq::<Seq<char>>::empty());
        f
    }
}

/// A statement: what one line of text asks for.
#[derive(Debug, PartialEq)]
pub enum Statement {
    Expression { op: Operand },
    Assignment { sym: String, op: Operand },
    SolveFor { lhs: Operand, rhs: Operand, sym: String },
    Function { name: String, fun: Function },
    Plot { name: String },
}

/// The model of a [`Statement`].
pub enum StatementView {
    Expression { op: Expr },
    Assignment { sym: Seq<char>, op: Expr },
    SolveFor { lhs: Expr, rhs: Expr, sym: Seq<char> },
    Function { name: Seq<char>, fun: FunctionView },
    Plot { name: Seq<char> },
}

impl View for Statement {
    type V = StatementView;

    open spec fn view(&self) -> StatementView {
        match self {
            Statement::Expression { op } => StatementView::Expression { op: op@ },
            Statement::Assignment { sym, op } => StatementView::Assignment { sym: sym@, op: op@ },
            Statement::SolveFor { lhs, rhs, sym } => StatementView::SolveFor {
                lhs: lhs@,
                rhs: rhs@,
                sym: sym@,
            },
            Statement::Function { name, fun } => StatementView::Function {
                name: name@,
                fun: fun@,
            },
            Statement::Plot { name } => StatementView::Plot { name: name@ },
        }
    }
}

impl Clone for Statement {
    fn clone(&self) -> (r: Statement)
        ensures
            r@ == self@,
    {
        match self {
            Statement::Expression { op } => Statement::Expression { op: op.clone() },
            Statement::Assignment { sym, op } => Statement::Assignment {
                sym: sym.clone(),
                op: op.clone(),
            },
            Statement::SolveFor { lhs, rhs, sym } => Statement::SolveFor {
                lhs: lhs.clone(),
                rhs: rhs.clone(),
                sym: sym.clone(),
            },
            Statement::Function { name, fun } => Statement::Function {
                name: name.clone(),
                fun: fun.clone(),
            },
            Statement::Plot { name } => Statement::Plot { name: name.clone() },
        }
    }
}

/// The text `text` between `before` and `after`.
pub fn between(before: &str, text: &String, after: &str) -> (r: String)
    ensures
        r@ == before@ + text@ + after@,
{
    let mut r = before.to_owned();
    r.append(text.as_str());
    r.append(after);
    r
}

/// The decimal digit `d`.
pub open spec fn digit(d: nat) -> Seq<char> {
    if d == 0 {
        "0"@
    } else if d == 1 {
        "1"@
    } else if d == 2 {
        "2"@
    } else if d == 3 {
        "3"@
    } else if d == 4 {
        "4"@
    } else if d == 5 {
        "5"@
    } else if d == 6 {
        "6"@
    } else if d == 7 {
        "7"@
    } else if d == 8 {
        "8"@
    } else {
        "9"@
    }
}

/// The number `n` in decimal digits.
pub open spec fn decimal(n: nat) -> Seq<char>
    decreases n,
{
    if n < 10 {
        digit(n)
    } else {
        decimal(n / 10) + digit(n % 10)
    }
}

fn digit_text(d: usize) -> (r: &'static str)
    requires
        d < 10,
    ensures
        r@ == digit(d as nat),
{
    if d == 0 {
        "0"
    } else if d == 1 {
        "1"
    } else if d == 2 {
        "2"
    } else if d == 3 {
        "3"
    } else if d == 4 {
        "4"
    } else if d == 5 {
        "5"
    } else if d == 6 {
        "6"
    } else if d == 7 {
        "7"
    } else if d == 8 {
        "8"
    } else {
        "9"
    }
}

/// The number `n` in decimal digits.
pub fn decimal_text(n: usize) -> (r: String)
    ensures
        r@ == decimal(n as nat),
    decreases n,
{
    if n < 10 {
        digit_text(n).to_owned()
    } else {
        let mut r = decimal_text(n / 10);
        r.append(digit_text(n % 10));
        r
    }
}

} // verus!

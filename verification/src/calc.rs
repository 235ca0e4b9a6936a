//! The environment and the evaluator.
//!
//! The environment holds the variables, some of them constants, and the
//! table of functions. Both are association lists in which the first entry
//! of a name is the one that counts. A function is stored together with
//! the variables as they were when it was defined; its body reads them,
//! not the variables of the moment of the call.
//!
//! The evaluator reduces an operand to a number. It decides which name
//! stands for what and which error is due; the arithmetic itself is asked
//! of the floating-point unit that the caller hands in.
//!
//! A function may call itself, and then its evaluation would never end.
//! The evaluator therefore asks that the calls that start in an operand
//! nest no deeper than [`MAX_CALL_DEPTH`]; [`TopLevelEnv::admits`] tells
//! whether they do.

use crate::ast::{
    between, computes, decimal, decimal_text, exprs_of, texts_of, total, view_of_call,
    BuildInFunction, CustomFunction, Expr, FunCall, Function, FunctionView, Number, Operand,
    Primitive, Term, Transform,
};
use vstd::prelude::*;

verus! {

/// What can go wrong in an evaluation or an assignment.
#[derive(Debug, PartialEq, Eq)]
pub enum CalcError {
    UnknownSymbol(String),
    UnexpectedNumberOfParameters { name: String, act: usize, exp: usize },
    UnknownFunction(String),
    CannotChangeConstant(String),
}

/// The model of a [`CalcError`].
pub enum CalcErrorView {
    UnknownSymbol(Seq<char>),
    UnexpectedNumberOfParameters { name: Seq<char>, act: int, exp: int },
    UnknownFunction(Seq<char>),
    CannotChangeConstant(Seq<char>),
}

impl View for CalcError {
    type V = CalcErrorView;

    open spec fn view(&self) -> CalcErrorView {
        match self {
            CalcError::UnknownSymbol(s) => CalcErrorView::UnknownSymbol(s@),
            CalcError::UnexpectedNumberOfParameters { name, act, exp } => {
                CalcErrorView::UnexpectedNumberOfParameters {
                    name: name@,
                    act: *act as int,
                    exp: *exp as int,
                }
            },
            CalcError::UnknownFunction(s) => CalcErrorView::UnknownFunction(s@),
            CalcError::CannotChangeConstant(s) => CalcErrorView::CannotChangeConstant(s@),
        }
    }
}

impl CalcErrorView {
    /// The error in words.
    pub open spec fn message(self) -> Seq<char> {
        match self {
            CalcErrorView::UnknownSymbol(text) => "Unknown symbol `"@ + text + "`"@,
            CalcErrorView::UnknownFunction(text) => "Unknown function `"@ + text + "`"@,
            CalcErrorView::CannotChangeConstant(text) => "Cannot change value of constant `"@ + text + "`"@,
            CalcErrorView::UnexpectedNumberOfParameters { name, act, exp } => {
                "Unexpected number of parameters for call to `"@ + name + "` - expected "@
                    + decimal(exp as nat) + ", but got "@ + decimal(act as nat)
            },
        }
    }
}

impl CalcError {
    /// The error in words.
    pub fn message(&self) -> (r: String)
        ensures
            r@ == self@.message(),
    {
        match self {
            CalcError::UnknownSymbol(text) => between("Unknown symbol `", text, "`"),
            CalcError::UnknownFunction(text) => between("Unknown function `", text, "`"),
            CalcError::CannotChangeConstant(text) => between("Cannot change value of constant `", text, "`"),
            CalcError::UnexpectedNumberOfParameters { name, act, exp } => {
                let mut r = between(
                    "Unexpected number of parameters for call to `",
                    name,
                    "` - expected ",
                );
                r.append(decimal_text(*exp).as_str());
                r.append(", but got ");
                r.append(decimal_text(*act).as_str());
                r
            },
        }
    }
}

/// One variable of the environment.
#[derive(Debug, PartialEq)]
pub struct EnvVariable {
    name: String,
    value: Number,
    is_const: bool,
}

/// The model of a variable.
pub struct Binding {
    pub name: Seq<char>,
    pub value: Number,
    pub is_const: bool,
}

impl View for EnvVariable {
    type V = Binding;

    closed spec fn view(&self) -> Binding {
        Binding { name: self.name@, value: self.value, is_const: self.is_const }
    }
}

impl EnvVariable {
    fn new_const(name: String, value: Number) -> (r: EnvVariable)
        ensures
            r@ == (Binding { name: name@, value, is_const: true }),
    {
        EnvVariable { name, value, is_const: true }
    }

    fn new(name: String, value: Number) -> (r: EnvVariable)
        ensures
            r@ == (Binding { name: name@, value, is_const: false }),
    {
        EnvVariable { name, value, is_const: false }
    }

    fn copy(&self) -> (r: EnvVariable)
        ensures
            r@ == self@,
    {
        EnvVariable { name: self.name.clone(), value: self.value, is_const: self.is_const }
    }
}

/// The models of a sequence of variables.
pub closed spec fn bindings_of(vars: Seq<EnvVariable>) -> Seq<Binding> {
    Seq::new(vars.len(), |i: int| vars[i]@)
}

fn copy_variables(vars: &Vec<EnvVariable>) -> (r: Vec<EnvVariable>)
    ensures
        bindings_of(r@) == bindings_of(vars@),
{
    let mut out: Vec<EnvVariable> = Vec::new();
    let mut i: usize = 0;
    while i < vars.len()
        invariant
            i <= vars.len(),
            out.len() == i,
            forall|j: int| 0 <= j < i ==> out[j]@ == vars[j]@,
        decreases vars.len() - i,
    {
        out.push(vars[i].copy());
        i += 1;
    }
    out
}

/// One function of the environment, with the variables of the moment of
/// its definition.
#[derive(Debug, PartialEq)]
pub struct FunEntry {
    name: String,
    fun: Function,
    captured: Vec<EnvVariable>,
}

/// The model of a stored function.
pub struct Definition {
    pub name: Seq<char>,
    pub fun: FunctionView,
    pub captured: Seq<Binding>,
}

impl View for FunEntry {
    type V = Definition;

    closed spec fn view(&self) -> Definition {
        Definition { name: self.name@, fun: self.fun@, captured: bindings_of(self.captured@) }
    }
}

/// The models of a sequence of stored functions.
pub closed spec fn definitions_of(funs: Seq<FunEntry>) -> Seq<Definition> {
    Seq::new(funs.len(), |i: int| funs[i]@)
}

/// `i` is the place of the first variable named `name`.
pub open spec fn first_binding(vars: Seq<Binding>, name: Seq<char>, i: int) -> bool {
    &&& 0 <= i < vars.len()
    &&& vars[i].name == name
    &&& forall|j: int| 0 <= j < i ==> (#[trigger] vars[j]).name != name
}

/// The variable that `name` stands for: the first of that name.
pub open spec fn find_binding(vars: Seq<Binding>, name: Seq<char>) -> Option<Binding> {
    if exists|i: int| first_binding(vars, name, i) {
        Some(vars[choose|i: int| first_binding(vars, name, i)])
    } else {
        None
    }
}

/// `i` is the place of the first function named `name`.
pub open spec fn first_definition(funs: Seq<Definition>, name: Seq<char>, i: int) -> bool {
    &&& 0 <= i < funs.len()
    &&& funs[i].name == name
    &&& forall|j: int| 0 <= j < i ==> (#[trigger] funs[j]).name != name
}

/// The function that `name` stands for: the first of that name.
pub open spec fn find_definition(funs: Seq<Definition>, name: Seq<char>) -> Option<Definition> {
    if exists|i: int| first_definition(funs, name, i) {
        Some(funs[choose|i: int| first_definition(funs, name, i)])
    } else {
        None
    }
}

/// The variables after `name` has been given `value`: its first entry
/// holds the new value, or a new entry stands at the end.
pub open spec fn assign(vars: Seq<Binding>, name: Seq<char>, value: Number) -> Seq<Binding> {
    if exists|i: int| first_binding(vars, name, i) {
        let i = choose|i: int| first_binding(vars, name, i);
        vars.update(i, Binding { name, value, is_const: vars[i].is_const })
    } else {
        vars.push(Binding { name, value, is_const: false })
    }
}

/// The functions after `def` has been stored: it stands where the first
/// function of its name stood, or at the end.
pub open spec fn define(funs: Seq<Definition>, def: Definition) -> Seq<Definition> {
    if exists|i: int| first_definition(funs, def.name, i) {
        funs.update(choose|i: int| first_definition(funs, def.name, i), def)
    } else {
        funs.push(def)
    }
}

/// There is at most one first place.
pub proof fn first_binding_is_unique(vars: Seq<Binding>, name: Seq<char>, i: int, j: int)
    requires
        first_binding(vars, name, i),
        first_binding(vars, name, j),
    ensures
        i == j,
{
}

/// There is at most one first place.
pub proof fn first_definition_is_unique(funs: Seq<Definition>, name: Seq<char>, i: int, j: int)
    requires
        first_definition(funs, name, i),
        first_definition(funs, name, j),
    ensures
        i == j,
{
}

/// Reading after writing: `name` now stands for `value`, and every other
/// name for what it stood for before.
pub proof fn find_after_assign(vars: Seq<Binding>, name: Seq<char>, value: Number, key: Seq<char>)
    ensures
        key != name ==> find_binding(assign(vars, name, value), key) == find_binding(vars, key),
        find_binding(assign(vars, name, value), name) matches Some(b) && b.name == name && b.value
            == value,
        find_binding(vars, name) matches Some(b) ==> find_binding(assign(vars, name, value), name)
            == Some(Binding { name, value, is_const: b.is_const }),
        find_binding(vars, name) is None ==> find_binding(assign(vars, name, value), name) == Some(
            Binding { name, value, is_const: false },
        ),
{
    let after = assign(vars, name, value);
    if exists|i: int| first_binding(vars, name, i) {
        let i = choose|i: int| first_binding(vars, name, i);
        assert(after.len() == vars.len());
        assert(first_binding(after, name, i)) by {
            assert forall|j: int| 0 <= j < i implies (#[trigger] after[j]).name != name by {
                assert(vars[j].name != name);
            }
        }
        let k = choose|k: int| first_binding(after, name, k);
        first_binding_is_unique(after, name, i, k);
        if key != name {
            if exists|a: int| first_binding(vars, key, a) {
                let a = choose|a: int| first_binding(vars, key, a);
                assert(a != i);
                assert(first_binding(after, key, a)) by {
                    assert forall|j: int| 0 <= j < a implies (#[trigger] after[j]).name != key by {
                        assert(vars[j].name != key);
                    }
                }
                let b = choose|b: int| first_binding(after, key, b);
                first_binding_is_unique(after, key, a, b);
            } else {
                if exists|b: int| first_binding(after, key, b) {
                    let b = choose|b: int| first_binding(after, key, b);
                    assert(b != i);
                    assert(first_binding(vars, key, b)) by {
                        assert forall|j: int| 0 <= j < b implies (#[trigger] vars[j]).name
                            != key by {
                            assert(after[j].name != key);
                        }
                    }
                }
            }
        }
    } else {
        let n = vars.len() as int;
        assert(after.len() == n + 1);
        assert(first_binding(after, name, n)) by {
            assert forall|j: int| 0 <= j < n implies (#[trigger] after[j]).name != name by {
                if vars[j].name == name {
                    first_exists(vars, name, j);
                }
            }
        }
        let k = choose|k: int| first_binding(after, name, k);
        first_binding_is_unique(after, name, n, k);
        if key != name {
            if exists|a: int| first_binding(vars, key, a) {
                let a = choose|a: int| first_binding(vars, key, a);
                assert(first_binding(after, key, a)) by {
                    assert forall|j: int| 0 <= j < a implies (#[trigger] after[j]).name != key by {
                        assert(vars[j].name != key);
                    }
                }
                let b = choose|b: int| first_binding(after, key, b);
                first_binding_is_unique(after, key, a, b);
            } else {
                if exists|b: int| first_binding(after, key, b) {
                    let b = choose|b: int| first_binding(after, key, b);
                    assert(b != n);
                    assert(first_binding(vars, key, b)) by {
                        assert forall|j: int| 0 <= j < b implies (#[trigger] vars[j]).name
                            != key by {
                            assert(after[j].name != key);
                        }
                    }
                }
            }
        }
    }
}

/// A name that occurs at all has a first place.
pub proof fn first_exists(vars: Seq<Binding>, name: Seq<char>, j: int)
    requires
        0 <= j < vars.len(),
        vars[j].name == name,
    ensures
        exists|i: int| first_binding(vars, name, i),
    decreases j,
{
    if exists|k: int| 0 <= k < j && (#[trigger] vars[k]).name == name {
        let k = choose|k: int| 0 <= k < j && (#[trigger] vars[k]).name == name;
        first_exists(vars, name, k);
    } else {
        assert(first_binding(vars, name, j));
    }
}

/// A function name that occurs at all has a first place.
pub proof fn first_definition_exists(funs: Seq<Definition>, name: Seq<char>, j: int)
    requires
        0 <= j < funs.len(),
        funs[j].name == name,
    ensures
        exists|i: int| first_definition(funs, name, i),
    decreases j,
{
    if exists|k: int| 0 <= k < j && (#[trigger] funs[k]).name == name {
        let k = choose|k: int| 0 <= k < j && (#[trigger] funs[k]).name == name;
        first_definition_exists(funs, name, k);
    } else {
        assert(first_definition(funs, name, j));
    }
}

/// Looking up after storing: the name of `def` now stands for `def`, and
/// every other name for what it stood for before.
pub proof fn find_after_define(funs: Seq<Definition>, def: Definition, key: Seq<char>)
    ensures
        find_definition(define(funs, def), def.name) == Some(def),
        key != def.name ==> find_definition(define(funs, def), key) == find_definition(funs, key),
{
    let after = define(funs, def);
    let name = def.name;
    let i = if exists|i: int| first_definition(funs, name, i) {
        choose|i: int| first_definition(funs, name, i)
    } else {
        funs.len() as int
    };
    assert(first_definition(after, name, i)) by {
        assert forall|j: int| 0 <= j < i implies (#[trigger] after[j]).name != name by {
            if funs[j].name == name {
                first_definition_exists(funs, name, j);
            }
        }
    }
    if key != name {
        if exists|a: int| first_definition(funs, key, a) {
            let a = choose|a: int| first_definition(funs, key, a);
            assert(first_definition(after, key, a));
        } else {
            if exists|b: int| first_definition(after, key, b) {
                let b = choose|b: int| first_definition(after, key, b);
                assert(first_definition(funs, key, b)) by {
                    assert forall|j: int| 0 <= j < b implies (#[trigger] funs[j]).name != key by {
                        assert(after[j].name != key);
                    }
                }
            }
        }
    }
}

/// The model of the top-level environment.
pub struct EnvView {
    pub vars: Seq<Binding>,
    pub funs: Seq<Definition>,
}

impl EnvView {
    /// The value of the variable `name`, if there is one.
    pub open spec fn value_of(self, name: Seq<char>) -> Option<Number> {
        match find_binding(self.vars, name) {
            Some(b) => Some(b.value),
            None => None,
        }
    }

    /// Whether `name` is a constant.
    pub open spec fn is_constant(self, name: Seq<char>) -> bool {
        find_binding(self.vars, name) matches Some(b) && b.is_const
    }

    /// The function `name`, if there is one.
    pub open spec fn function_of(self, name: Seq<char>) -> Option<FunctionView> {
        match find_definition(self.funs, name) {
            Some(d) => Some(d.fun),
            None => None,
        }
    }

    /// The environment after `name` has been given `value`.
    pub open spec fn with_value(self, name: Seq<char>, value: Number) -> EnvView {
        EnvView { vars: assign(self.vars, name, value), funs: self.funs }
    }

    /// The environment after `fun` has been stored under `name`, with the
    /// variables of this moment.
    pub open spec fn with_function(self, name: Seq<char>, fun: FunctionView) -> EnvView {
        EnvView {
            vars: self.vars,
            funs: define(self.funs, Definition { name, fun, captured: self.vars }),
        }
    }
}

/// The environment of a session: its variables and its functions.
#[derive(Debug, PartialEq)]
pub struct TopLevelEnv {
    vars: Vec<EnvVariable>,
    funs: Vec<FunEntry>,
}

impl View for TopLevelEnv {
    type V = EnvView;

    closed spec fn view(&self) -> EnvView {
        EnvView { vars: bindings_of(self.vars@), funs: definitions_of(self.funs@) }
    }
}

/// The place of the first variable named `name`, if there is one.
fn position_of_variable(vars: &Vec<EnvVariable>, name: &String) -> (r: Option<usize>)
    ensures
        match r {
            Some(i) => first_binding(bindings_of(vars@), name@, i as int),
            None => !exists|i: int| first_binding(bindings_of(vars@), name@, i),
        },
{
    let mut i: usize = 0;
    while i < vars.len()
        invariant
            i <= vars.len(),
            bindings_of(vars@).len() == vars.len(),
            forall|j: int| 0 <= j < i ==> (#[trigger] bindings_of(vars@)[j]).name != name@,
        decreases vars.len() - i,
    {
        if vars[i].name == *name {
            return Some(i);
        }
        i += 1;
    }
    None
}

/// The place of the first function named `name`, if there is one.
fn position_of_function(funs: &Vec<FunEntry>, name: &String) -> (r: Option<usize>)
    ensures
        match r {
            Some(i) => first_definition(definitions_of(funs@), name@, i as int),
            None => !exists|i: int| first_definition(definitions_of(funs@), name@, i),
        },
{
    let mut i: usize = 0;
    while i < funs.len()
        invariant
            i <= funs.len(),
            definitions_of(funs@).len() == funs.len(),
            forall|j: int| 0 <= j < i ==> (#[trigger] definitions_of(funs@)[j]).name != name@,
        decreases funs.len() - i,
    {
        if funs[i].name == *name {
            return Some(i);
        }
        i += 1;
    }
    None
}

impl TopLevelEnv {
    /// The environment without any variable or function.
    pub fn empty() -> (r: TopLevelEnv)
        ensures
            r@.vars == Seq::<Binding>::empty(),
            r@.funs == Seq::<Definition>::empty(),
    {
        let r = TopLevelEnv { vars: Vec::new(), funs: Vec::new() };
        r
    }

    /// Gives the variable `sym` the value `num`, unless it is a constant.
    pub fn put(&mut self, sym: String, num: Number) -> (r: Result<(), CalcError>)
        ensures
            old(self)@.is_constant(sym@) ==> (r matches Err(e) && e@
                == CalcErrorView::CannotChangeConstant(sym@)) && final(self)@ == old(self)@,
            !old(self)@.is_constant(sym@) ==> r is Ok && final(self)@ == old(self)@.with_value(
                sym@,
                num,
            ),
            r is Ok ==> final(self)@.value_of(sym@) == Some(num),
            r is Ok ==> forall|key: Seq<char>|
                key != sym@ ==> #[trigger] final(self)@.value_of(key) == old(self)@.value_of(key),
    {
        let ghost before = bindings_of(self.vars@);
        proof {
            find_after_assign(before, sym@, num, sym@);
            assert forall|key: Seq<char>| key != sym@ implies #[trigger] find_binding(
                assign(before, sym@, num),
                key,
            ) == find_binding(before, key) by {
                find_after_assign(before, sym@, num, key);
            }
        }
        match position_of_variable(&self.vars, &sym) {
            Some(i) => {
                proof {
                    let k = choose|k: int| first_binding(before, sym@, k);
                    first_binding_is_unique(before, sym@, i as int, k);
                }
                if self.vars[i].is_const {
                    Err(CalcError::CannotChangeConstant(sym))
                } else {
                    let entry = EnvVariable { name: sym, value: num, is_const: false };
                    self.vars[i] = entry;
                    assert(bindings_of(self.vars@) =~= assign(before, sym@, num));
                    Ok(())
                }
            },
            None => {
                self.vars.push(EnvVariable::new(sym, num));
                assert(bindings_of(self.vars@) =~= assign(before, sym@, num));
                Ok(())
            },
        }
    }

    /// Stores `fun` under `name`, in place of any function of that name,
    /// together with the variables of this moment.
    pub fn put_fun(&mut self, name: String, fun: Function)
        ensures
            final(self)@ == old(self)@.with_function(name@, fun@),
            final(self)@.function_of(name@) == Some(fun@),
            forall|key: Seq<char>|
                key != name@ ==> #[trigger] final(self)@.function_of(key) == old(self)@.function_of(
                    key,
                ),
    {
        let ghost before = definitions_of(self.funs@);
        let captured = copy_variables(&self.vars);
        let ghost def = Definition { name: name@, fun: fun@, captured: bindings_of(self.vars@) };
        proof {
            find_after_define(before, def, name@);
            assert forall|key: Seq<char>| key != name@ implies #[trigger] find_definition(
                define(before, def),
                key,
            ) == find_definition(before, key) by {
                find_after_define(before, def, key);
            }
        }
        match position_of_function(&self.funs, &name) {
            Some(i) => {
                proof {
                    let k = choose|k: int| first_definition(before, def.name, k);
                    first_definition_is_unique(before, name@, i as int, k);
                }
                let entry = FunEntry { name, fun, captured };
                self.funs[i] = entry;
                assert(definitions_of(self.funs@) =~= define(before, def));
            },
            None => {
                self.funs.push(FunEntry { name, fun, captured });
                assert(definitions_of(self.funs@) =~= define(before, def));
            },
        }
    }

    /// The value of the variable `sym`.
    pub fn get(&self, sym: &str) -> (r: Option<&Number>)
        ensures
            match r {
                Some(v) => self@.value_of(sym@) == Some(*v),
                None => self@.value_of(sym@) is None,
            },
    {
        let key = sym.to_owned();
        match position_of_variable(&self.vars, &key) {
            Some(i) => {
                proof {
                    let k = choose|k: int| first_binding(self@.vars, sym@, k);
                    first_binding_is_unique(self@.vars, sym@, i as int, k);
                }
                Some(&self.vars[i].value)
            },
            None => None,
        }
    }

    /// The function `fun`.
    pub fn get_fun(&self, fun: &str) -> (r: Option<&Function>)
        ensures
            match r {
                Some(f) => self@.function_of(fun@) == Some(f@),
                None => self@.function_of(fun@) is None,
            },
    {
        let key = fun.to_owned();
        match position_of_function(&self.funs, &key) {
            Some(i) => {
                proof {
                    let k = choose|k: int| first_definition(self@.funs, fun@, k);
                    first_definition_is_unique(self@.funs, fun@, i as int, k);
                }
                Some(&self.funs[i].fun)
            },
            None => None,
        }
    }
}

/// How deep calls of user-defined functions may nest in one evaluation.
pub const MAX_CALL_DEPTH: usize = 256;

/// The model of the environment of one evaluation: the arguments of the
/// function whose body is being evaluated, the variables behind them, and
/// the functions.
pub struct Scope {
    pub locals: Seq<(Seq<char>, Number)>,
    pub vars: Seq<Binding>,
    pub funs: Seq<Definition>,
}

/// The parameters of a function paired with the values of a call.
pub open spec fn bind(names: Seq<Seq<char>>, values: Seq<Number>) -> Seq<(Seq<char>, Number)> {
    Seq::new(names.len(), |i: int| (names[i], values[i]))
}

/// `i` is the place of the last argument named `name`.
pub open spec fn last_local(locals: Seq<(Seq<char>, Number)>, name: Seq<char>, i: int) -> bool {
    &&& 0 <= i < locals.len()
    &&& locals[i].0 == name
    &&& forall|j: int| i < j < locals.len() ==> (#[trigger] locals[j]).0 != name
}

/// The argument that `name` stands for: the last of that name.
pub open spec fn find_local(locals: Seq<(Seq<char>, Number)>, name: Seq<char>) -> Option<Number> {
    if exists|i: int| last_local(locals, name, i) {
        Some(locals[choose|i: int| last_local(locals, name, i)].1)
    } else {
        None
    }
}

/// There is at most one last place.
pub proof fn last_local_is_unique(
    locals: Seq<(Seq<char>, Number)>,
    name: Seq<char>,
    i: int,
    j: int,
)
    requires
        last_local(locals, name, i),
        last_local(locals, name, j),
    ensures
        i == j,
{
}

impl Scope {
    /// What `name` stands for: an argument first, a variable otherwise.
    pub open spec fn lookup(self, name: Seq<char>) -> Option<Number> {
        match find_local(self.locals, name) {
            Some(v) => Some(v),
            None => match find_binding(self.vars, name) {
                Some(b) => Some(b.value),
                None => None,
            },
        }
    }
}

impl EnvView {
    /// The scope of a statement at top level: no arguments.
    pub open spec fn scope(self) -> Scope {
        Scope { locals: Seq::empty(), vars: self.vars, funs: self.funs }
    }
}

/// Every chain of calls of user-defined functions that starts in `e` ends
/// after at most `depth` calls.
pub open spec fn nests_within(e: Expr, funs: Seq<Definition>, depth: nat) -> bool
    decreases depth, e, 0nat,
{
    match e {
        Expr::Number(_) => true,
        Expr::Symbol(_) => true,
        Expr::Term(_, lhs, rhs) => nests_within(*lhs, funs, depth) && nests_within(
            *rhs,
            funs,
            depth,
        ),
        Expr::FunCall(name, args) => {
            &&& all_nest_within(args, args.len(), funs, depth)
            &&& match find_definition(funs, name) {
                Some(def) => match def.fun {
                    FunctionView::Custom { body, .. } => depth > 0 && nests_within(
                        body,
                        funs,
                        (depth - 1) as nat,
                    ),
                    FunctionView::BuildIn { .. } => true,
                },
                None => true,
            }
        },
    }
}

/// [`nests_within`] holds of the first `n` of `args`.
pub open spec fn all_nest_within(args: Seq<Expr>, n: nat, funs: Seq<Definition>, depth: nat) -> bool
    decreases depth, args, n,
{
    if n == 0 || n > args.len() {
        true
    } else {
        all_nest_within(args, (n - 1) as nat, funs, depth) && nests_within(
            args[n - 1],
            funs,
            depth,
        )
    }
}

/// The value of `e` in `scope`, where `m` is what the floating-point unit
/// computes. `depth` bounds the nesting of calls; where a call would go
/// deeper, nothing is said of the value.
pub open spec fn eval(
    e: Expr,
    scope: Scope,
    m: spec_fn(Primitive) -> Number,
    depth: nat,
) -> Result<Number, CalcErrorView>
    decreases depth, e, 0nat,
{
    match e {
        Expr::Number(v) => Ok(v),
        Expr::Symbol(s) => match scope.lookup(s) {
            Some(v) => Ok(v),
            None => Err(CalcErrorView::UnknownSymbol(s)),
        },
        Expr::Term(op, lhs, rhs) => match eval(*lhs, scope, m, depth) {
            Err(e) => Err(e),
            Ok(a) => match eval(*rhs, scope, m, depth) {
                Err(e) => Err(e),
                Ok(b) => Ok(m(Primitive::Binary(op, a, b))),
            },
        },
        Expr::FunCall(name, args) => match find_definition(scope.funs, name) {
            None => Err(CalcErrorView::UnknownFunction(name)),
            Some(def) => match def.fun {
                FunctionView::BuildIn { transform, .. } => if args.len() != 1 {
                    Err(
                        CalcErrorView::UnexpectedNumberOfParameters {
                            name,
                            act: args.len() as int,
                            exp: 1,
                        },
                    )
                } else {
                    match eval(args[0], scope, m, depth) {
                        Err(e) => Err(e),
                        Ok(x) => Ok(m(Primitive::Unary(transform, x))),
                    }
                },
                FunctionView::Custom { args: params, body } => if args.len() != params.len() {
                    Err(
                        CalcErrorView::UnexpectedNumberOfParameters {
                            name,
                            act: args.len() as int,
                            exp: params.len() as int,
                        },
                    )
                } else {
                    match eval_all(args, args.len(), scope, m, depth) {
                        Err(e) => Err(e),
                        Ok(values) => if depth == 0 {
                            arbitrary()
                        } else {
                            eval(
                                body,
                                Scope {
                                    locals: bind(params, values),
                                    vars: def.captured,
                                    funs: scope.funs,
                                },
                                m,
                                (depth - 1) as nat,
                            )
                        },
                    }
                },
            },
        },
    }
}

/// The values of the first `n` of `args`, from left to right, or the
/// error of the first of them that has none.
pub open spec fn eval_all(
    args: Seq<Expr>,
    n: nat,
    scope: Scope,
    m: spec_fn(Primitive) -> Number,
    depth: nat,
) -> Result<Seq<Number>, CalcErrorView>
    decreases depth, args, n,
{
    if n == 0 || n > args.len() {
        Ok(Seq::empty())
    } else {
        match eval_all(args, (n - 1) as nat, scope, m, depth) {
            Err(e) => Err(e),
            Ok(values) => match eval(args[n - 1], scope, m, depth) {
                Err(e) => Err(e),
                Ok(v) => Ok(values.push(v)),
            },
        }
    }
}

/// The model of the result of an evaluation.
pub open spec fn outcome(r: Result<Number, CalcError>) -> Result<Number, CalcErrorView> {
    match r {
        Ok(v) => Ok(v),
        Err(e) => Err(e@),
    }
}

/// The environment of one evaluation: the arguments of a call by name
/// and value, the variables behind them, and the environment that holds
/// the functions.
struct ScopedEnv<'a> {
    top: &'a TopLevelEnv,
    vars: &'a Vec<EnvVariable>,
    names: &'a Vec<String>,
    values: &'a Vec<Number>,
}

impl<'a> View for ScopedEnv<'a> {
    type V = Scope;

    closed spec fn view(&self) -> Scope {
        Scope {
            locals: bind(texts_of(self.names@), self.values@),
            vars: bindings_of(self.vars@),
            funs: self.top@.funs,
        }
    }
}

impl<'a> ScopedEnv<'a> {
    /// Each argument has its value.
    spec fn wf(&self) -> bool {
        self.names@.len() == self.values@.len()
    }

    /// What `sym` stands for: an argument first, a variable otherwise.
    fn get(&self, sym: &String) -> (r: Option<Number>)
        requires
            self.wf(),
        ensures
            r == self@.lookup(sym@),
    {
        let ghost locals = self@.locals;
        let mut i: usize = self.names.len();
        while i > 0
            invariant
                i <= self.names.len(),
                self.wf(),
                locals == self@.locals,
                locals.len() == self.names.len(),
                forall|j: int| i <= j < locals.len() ==> (#[trigger] locals[j]).0 != sym@,
            decreases i,
        {
            i -= 1;
            if self.names[i] == *sym {
                proof {
                    let k = choose|k: int| last_local(locals, sym@, k);
                    last_local_is_unique(locals, sym@, i as int, k);
                }
                return Some(self.values[i]);
            }
        }
        match position_of_variable(self.vars, sym) {
            Some(k) => {
                proof {
                    let c = choose|c: int| first_binding(self@.vars, sym@, c);
                    first_binding_is_unique(self@.vars, sym@, k as int, c);
                }
                Some(self.vars[k].value)
            },
            None => None,
        }
    }

    /// The stored function `name`.
    fn get_entry(&self, name: &String) -> (r: Option<&'a FunEntry>)
        ensures
            match r {
                Some(entry) => find_definition(self@.funs, name@) == Some(entry@),
                None => find_definition(self@.funs, name@) is None,
            },
    {
        match position_of_function(&self.top.funs, name) {
            Some(i) => {
                proof {
                    let k = choose|k: int| first_definition(self@.funs, name@, k);
                    first_definition_is_unique(self@.funs, name@, i as int, k);
                }
                Some(&self.top.funs[i])
            },
            None => None,
        }
    }
}

/// The views of the arguments of a call are subterms of the call.
proof fn arguments_nest(fc: &FunCall, funs: Seq<Definition>, depth: nat, i: int)
    requires
        nests_within(fc@, funs, depth),
        0 <= i < fc.params@.len(),
    ensures
        nests_within(fc.params@[i]@, funs, depth),
        exprs_of(fc.params@)[i] == fc.params@[i]@,
{
    let args = exprs_of(fc.params@);
    each_nests(args, args.len(), funs, depth, i);
}

/// What holds of a prefix holds of each of its members.
proof fn each_nests(args: Seq<Expr>, n: nat, funs: Seq<Definition>, depth: nat, i: int)
    requires
        all_nest_within(args, n, funs, depth),
        0 <= i < n <= args.len(),
    ensures
        nests_within(args[i], funs, depth),
    decreases n,
{
    if i < n - 1 {
        each_nests(args, (n - 1) as nat, funs, depth, i);
    }
}

/// Evaluates a term in a scope.
fn calc_term_in<F: Fn(Primitive) -> Number>(
    term: &Term,
    scope: &ScopedEnv,
    unit: &F,
    Ghost(depth): Ghost<nat>,
) -> (r: Result<Number, CalcError>)
    requires
        total(*unit),
        scope.wf(),
        nests_within(term@, scope@.funs, depth),
    ensures
        forall|m: spec_fn(Primitive) -> Number| #[trigger]
            computes(*unit, m) ==> outcome(r) == eval(term@, scope@, m, depth),
    decreases depth, term, 0nat,
{
    let lhs = match calc_operand_in(&term.lhs, scope, unit, Ghost(depth)) {
        Ok(v) => v,
        Err(e) => {
            return Err(e);
        },
    };
    let rhs = match calc_operand_in(&term.rhs, scope, unit, Ghost(depth)) {
        Ok(v) => v,
        Err(e) => {
            return Err(e);
        },
    };
    Ok(unit(Primitive::Binary(term.op, lhs, rhs)))
}

/// Evaluates the call of a function defined in the language: the number
/// of arguments is compared with the number of parameters, the arguments
/// are evaluated in the scope of the call, and the body is evaluated with
/// the parameters standing for them, over the variables of the moment of
/// the definition.
fn calc_custom_function_call<F: Fn(Primitive) -> Number>(
    function: &CustomFunction,
    captured: &Vec<EnvVariable>,
    fun_call: &FunCall,
    scope: &ScopedEnv,
    unit: &F,
    Ghost(depth): Ghost<nat>,
) -> (r: Result<Number, CalcError>)
    requires
        total(*unit),
        scope.wf(),
        nests_within(fun_call@, scope@.funs, depth),
        find_definition(scope@.funs, fun_call.name@) matches Some(def) && def.fun
            == Function::Custom(*function)@ && def.captured == bindings_of(captured@),
    ensures
        forall|m: spec_fn(Primitive) -> Number| #[trigger]
            computes(*unit, m) ==> outcome(r) == eval(fun_call@, scope@, m, depth),
    decreases depth, fun_call, 0nat,
{
    let ghost args = exprs_of(fun_call.params@);
    if fun_call.params.len() != function.args.len() {
        return Err(
            CalcError::UnexpectedNumberOfParameters {
                name: fun_call.name.clone(),
                act: fun_call.params.len(),
                exp: function.args.len(),
            },
        );
    }
    let mut values: Vec<Number> = Vec::new();
    let mut i: usize = 0;
    while i < fun_call.params.len()
        invariant
            i <= fun_call.params.len(),
            values.len() == i,
            total(*unit),
            scope.wf(),
            args == exprs_of(fun_call.params@),
            nests_within(fun_call@, scope@.funs, depth),
            fun_call.params.len() == function.args.len(),
            find_definition(scope@.funs, fun_call.name@) matches Some(def) && def.fun
                == Function::Custom(*function)@,
            decreases_to!(fun_call => fun_call.params),
            forall|m: spec_fn(Primitive) -> Number| #[trigger]
                computes(*unit, m) ==> eval_all(args, i as nat, scope@, m, depth) == Ok::<
                    Seq<Number>,
                    CalcErrorView,
                >(values@),
        decreases fun_call.params.len() - i,
    {
        proof {
            arguments_nest(fun_call, scope@.funs, depth, i as int);
        }
        match calc_operand_in(&fun_call.params[i], scope, unit, Ghost(depth)) {
            Ok(v) => {
                values.push(v);
            },
            Err(e) => {
                proof {
                    assert forall|m: spec_fn(Primitive) -> Number| #[trigger]
                        computes(*unit, m) implies outcome(Err(e)) == eval(
                        fun_call@,
                        scope@,
                        m,
                        depth,
                    ) by {
                        failure_lasts(args, i as int, scope@, m, depth);
                        assert(eval_all(args, args.len(), scope@, m, depth) == Err::<
                            Seq<Number>,
                            CalcErrorView,
                        >(e@));
                    }
                }
                return Err(e);
            },
        }
        i += 1;
    }
    let inner = ScopedEnv { top: scope.top, vars: captured, names: &function.args, values: &values };
    calc_operand_in(&function.body, &inner, unit, Ghost((depth - 1) as nat))
}

/// Once an argument has failed, evaluating more arguments keeps its error.
proof fn failure_lasts(
    args: Seq<Expr>,
    i: int,
    scope: Scope,
    m: spec_fn(Primitive) -> Number,
    depth: nat,
)
    requires
        0 <= i < args.len(),
        eval_all(args, i as nat, scope, m, depth) is Ok,
        eval(args[i], scope, m, depth) is Err,
    ensures
        forall|n: nat|
            i < n <= args.len() ==> #[trigger] eval_all(args, n, scope, m, depth) == Err::<
                Seq<Number>,
                CalcErrorView,
            >(eval(args[i], scope, m, depth)->Err_0),
{
    assert forall|n: nat| i < n <= args.len() implies #[trigger] eval_all(args, n, scope, m, depth)
        == Err::<Seq<Number>, CalcErrorView>(eval(args[i], scope, m, depth)->Err_0) by {
        failure_lasts_until(args, i, n, scope, m, depth);
    }
}

proof fn failure_lasts_until(
    args: Seq<Expr>,
    i: int,
    n: nat,
    scope: Scope,
    m: spec_fn(Primitive) -> Number,
    depth: nat,
)
    requires
        0 <= i < n <= args.len(),
        eval_all(args, i as nat, scope, m, depth) is Ok,
        eval(args[i], scope, m, depth) is Err,
    ensures
        eval_all(args, n, scope, m, depth) == Err::<Seq<Number>, CalcErrorView>(
            eval(args[i], scope, m, depth)->Err_0,
        ),
    decreases n,
{
    if n > i + 1 {
        failure_lasts_until(args, i, (n - 1) as nat, scope, m, depth);
    }
}

/// Evaluates a call in a scope.
fn calc_function_call_in<F: Fn(Primitive) -> Number>(
    fun_call: &FunCall,
    scope: &ScopedEnv,
    unit: &F,
    Ghost(depth): Ghost<nat>,
) -> (r: Result<Number, CalcError>)
    requires
        total(*unit),
        scope.wf(),
        nests_within(fun_call@, scope@.funs, depth),
    ensures
        forall|m: spec_fn(Primitive) -> Number| #[trigger]
            computes(*unit, m) ==> outcome(r) == eval(fun_call@, scope@, m, depth),
    decreases depth, fun_call, 1nat,
{
    let entry = match scope.get_entry(&fun_call.name) {
        Some(entry) => entry,
        None => {
            return Err(CalcError::UnknownFunction(fun_call.name.clone()));
        },
    };
    match &entry.fun {
        Function::Custom(function) => calc_custom_function_call(
            function,
            &entry.captured,
            fun_call,
            scope,
            unit,
            Ghost(depth),
        ),
        Function::BuildIn(function) => {
            if fun_call.params.len() != 1 {
                return Err(
                    CalcError::UnexpectedNumberOfParameters {
                        name: fun_call.name.clone(),
                        act: fun_call.params.len(),
                        exp: 1,
                    },
                );
            }
            proof {
                arguments_nest(fun_call, scope@.funs, depth, 0);
            }
            let x = match calc_operand_in(&fun_call.params[0], scope, unit, Ghost(depth)) {
                Ok(v) => v,
                Err(e) => {
                    return Err(e);
                },
            };
            Ok(unit(Primitive::Unary(function.body, x)))
        },
    }
}

/// Evaluates an operand in a scope.
fn calc_operand_in<F: Fn(Primitive) -> Number>(
    op: &Operand,
    scope: &ScopedEnv,
    unit: &F,
    Ghost(depth): Ghost<nat>,
) -> (r: Result<Number, CalcError>)
    requires
        total(*unit),
        scope.wf(),
        nests_within(op@, scope@.funs, depth),
    ensures
        forall|m: spec_fn(Primitive) -> Number| #[trigger]
            computes(*unit, m) ==> outcome(r) == eval(op@, scope@, m, depth),
    decreases depth, op, 0nat,
{
    match op {
        Operand::Number(num) => Ok(*num),
        Operand::Term(term) => calc_term_in(term, scope, unit, Ghost(depth)),
        Operand::Symbol(sym) => match scope.get(sym) {
            Some(num) => Ok(num),
            None => Err(CalcError::UnknownSymbol(sym.clone())),
        },
        Operand::FunCall(fun_call) => {
            proof {
                view_of_call(*fun_call);
            }
            calc_function_call_in(fun_call, scope, unit, Ghost(depth))
        },
    }
}

impl EnvView {
    /// Calls that start in `e` nest no deeper than [`MAX_CALL_DEPTH`].
    pub open spec fn admits(self, e: Expr) -> bool {
        nests_within(e, self.funs, MAX_CALL_DEPTH as nat)
    }

    /// The value of `e` at top level, where `m` is what the
    /// floating-point unit computes.
    pub open spec fn value(self, e: Expr, m: spec_fn(Primitive) -> Number) -> Result<
        Number,
        CalcErrorView,
    > {
        eval(e, self.scope(), m, MAX_CALL_DEPTH as nat)
    }

    /// The value of `body` where `names` stand for `values` and every
    /// other name for what it stands for at top level.
    pub open spec fn value_with(
        self,
        body: Expr,
        names: Seq<Seq<char>>,
        values: Seq<Number>,
        m: spec_fn(Primitive) -> Number,
    ) -> Result<Number, CalcErrorView> {
        eval(
            body,
            Scope { locals: bind(names, values), vars: self.vars, funs: self.funs },
            m,
            MAX_CALL_DEPTH as nat,
        )
    }
}

/// The constant `name` with the value of the bit pattern `bits`.
pub open spec fn constant(name: Seq<char>, bits: u64) -> Binding {
    Binding { name, value: Number { bits }, is_const: true }
}

/// The built-in function `name` of one parameter `x`.
pub open spec fn built_in(name: Seq<char>, transform: Transform) -> Definition {
    Definition {
        name,
        fun: FunctionView::BuildIn { name, arg: "x"@, transform },
        captured: Seq::empty(),
    }
}

/// The constants of a new environment: the mathematical constants of
/// binary64, by their lower-case names.
pub open spec fn default_constants() -> Seq<Binding> {
    seq![
        constant("e"@, 0x4005_BF0A_8B14_5769),
        constant("frac_1_pi"@, 0x3FD4_5F30_6DC9_C883),
        constant("frac_1_sqrt_2"@, 0x3FE6_A09E_667F_3BCD),
        constant("frac_2_pi"@, 0x3FE4_5F30_6DC9_C883),
        constant("frac_2_sqrt_pi"@, 0x3FF2_0DD7_5042_9B6D),
        constant("frac_pi_2"@, 0x3FF9_21FB_5444_2D18),
        constant("frac_pi_3"@, 0x3FF0_C152_382D_7366),
        constant("frac_pi_4"@, 0x3FE9_21FB_5444_2D18),
        constant("frac_pi_6"@, 0x3FE0_C152_382D_7366),
        constant("frac_pi_8"@, 0x3FD9_21FB_5444_2D18),
        constant("ln_2"@, 0x3FE6_2E42_FEFA_39EF),
        constant("ln_10"@, 0x4002_6BB1_BBB5_5516),
        constant("log2_10"@, 0x400A_934F_0979_A371),
        constant("log2_e"@, 0x3FF7_1547_652B_82FE),
        constant("log10_2"@, 0x3FD3_4413_509F_79FF),
        constant("log10_e"@, 0x3FDB_CB7B_1526_E50E),
        constant("pi"@, 0x4009_21FB_5444_2D18),
        constant("sqrt_2"@, 0x3FF6_A09E_667F_3BCD),
        constant("tau"@, 0x4019_21FB_5444_2D18),
    ]
}

/// The functions of a new environment.
pub open spec fn default_functions() -> Seq<Definition> {
    seq![
        built_in("abs"@, Transform::Abs),
        built_in("sqrt"@, Transform::Sqrt),
        built_in("sin"@, Transform::Sin),
        built_in("sinh"@, Transform::Sinh),
        built_in("cos"@, Transform::Cos),
        built_in("cosh"@, Transform::Cosh),
        built_in("tan"@, Transform::Tan),
        built_in("tanh"@, Transform::Tanh),
        built_in("exp"@, Transform::Exp),
        built_in("ln"@, Transform::Ln),
        built_in("log2"@, Transform::Log2),
        built_in("log10"@, Transform::Log10),
        built_in("atan"@, Transform::Atan),
        built_in("atanh"@, Transform::Atanh),
        built_in("asin"@, Transform::Asin),
        built_in("asinh"@, Transform::Asinh),
        built_in("acos"@, Transform::Acos),
        built_in("acosh"@, Transform::Acosh),
    ]
}

fn seed_constant(vars: &mut Vec<EnvVariable>, name: &str, bits: u64)
    ensures
        bindings_of(final(vars)@) == bindings_of(old(vars)@).push(constant(name@, bits)),
{
    let ghost before = bindings_of(vars@);
    vars.push(EnvVariable::new_const(name.to_owned(), Number::from_bits(bits)));
}

fn seed_built_in(funs: &mut Vec<FunEntry>, name: &str, transform: Transform)
    ensures
        definitions_of(final(funs)@) == definitions_of(old(funs)@).push(
            built_in(name@, transform),
        ),
{
    let ghost before = definitions_of(funs@);
    let fun = Function::BuildIn(
        BuildInFunction { name: name.to_owned(), arg: "x".to_owned(), body: transform },
    );
    let captured: Vec<EnvVariable> = Vec::new();
    assert(bindings_of(captured@) =~= Seq::<Binding>::empty());
    funs.push(FunEntry { name: name.to_owned(), fun, captured });
}

impl Default for TopLevelEnv {
    /// The environment of a new session: the constants and the built-in
    /// functions.
    fn default() -> (r: TopLevelEnv)
        ensures
            r@.vars == default_constants(),
            r@.funs == default_functions(),
    {
        let mut funs: Vec<FunEntry> = Vec::new();
        seed_built_in(&mut funs, "abs", Transform::Abs);
        seed_built_in(&mut funs, "sqrt", Transform::Sqrt);
        seed_built_in(&mut funs, "sin", Transform::Sin);
        seed_built_in(&mut funs, "sinh", Transform::Sinh);
        seed_built_in(&mut funs, "cos", Transform::Cos);
        seed_built_in(&mut funs, "cosh", Transform::Cosh);
        seed_built_in(&mut funs, "tan", Transform::Tan);
        seed_built_in(&mut funs, "tanh", Transform::Tanh);
        seed_built_in(&mut funs, "exp", Transform::Exp);
        seed_built_in(&mut funs, "ln", Transform::Ln);
        seed_built_in(&mut funs, "log2", Transform::Log2);
        seed_built_in(&mut funs, "log10", Transform::Log10);
        seed_built_in(&mut funs, "atan", Transform::Atan);
        seed_built_in(&mut funs, "atanh", Transform::Atanh);
        seed_built_in(&mut funs, "asin", Transform::Asin);
        seed_built_in(&mut funs, "asinh", Transform::Asinh);
        seed_built_in(&mut funs, "acos", Transform::Acos);
        seed_built_in(&mut funs, "acosh", Transform::Acosh);
        let mut vars: Vec<EnvVariable> = Vec::new();
        seed_constant(&mut vars, "e", 0x4005_BF0A_8B14_5769);
        seed_constant(&mut vars, "frac_1_pi", 0x3FD4_5F30_6DC9_C883);
        seed_constant(&mut vars, "frac_1_sqrt_2", 0x3FE6_A09E_667F_3BCD);
        seed_constant(&mut vars, "frac_2_pi", 0x3FE4_5F30_6DC9_C883);
        seed_constant(&mut vars, "frac_2_sqrt_pi", 0x3FF2_0DD7_5042_9B6D);
        seed_constant(&mut vars, "frac_pi_2", 0x3FF9_21FB_5444_2D18);
        seed_constant(&mut vars, "frac_pi_3", 0x3FF0_C152_382D_7366);
        seed_constant(&mut vars, "frac_pi_4", 0x3FE9_21FB_5444_2D18);
        seed_constant(&mut vars, "frac_pi_6", 0x3FE0_C152_382D_7366);
        seed_constant(&mut vars, "frac_pi_8", 0x3FD9_21FB_5444_2D18);
        seed_constant(&mut vars, "ln_2", 0x3FE6_2E42_FEFA_39EF);
        seed_constant(&mut vars, "ln_10", 0x4002_6BB1_BBB5_5516);
        seed_constant(&mut vars, "log2_10", 0x400A_934F_0979_A371);
        seed_constant(&mut vars, "log2_e", 0x3FF7_1547_652B_82FE);
        seed_constant(&mut vars, "log10_2", 0x3FD3_4413_509F_79FF);
        seed_constant(&mut vars, "log10_e", 0x3FDB_CB7B_1526_E50E);
        seed_constant(&mut vars, "pi", 0x4009_21FB_5444_2D18);
        seed_constant(&mut vars, "sqrt_2", 0x3FF6_A09E_667F_3BCD);
        seed_constant(&mut vars, "tau", 0x4019_21FB_5444_2D18);
        TopLevelEnv { vars, funs }
    }
}

impl FunEntry {
    fn copy(&self) -> (r: FunEntry)
        ensures
            r@ == self@,
    {
        FunEntry {
            name: self.name.clone(),
            fun: self.fun.clone(),
            captured: copy_variables(&self.captured),
        }
    }
}

impl Clone for TopLevelEnv {
    fn clone(&self) -> (r: TopLevelEnv)
        ensures
            r@ == self@,
    {
        let vars = copy_variables(&self.vars);
        let mut funs: Vec<FunEntry> = Vec::new();
        let mut i: usize = 0;
        while i < self.funs.len()
            invariant
                i <= self.funs.len(),
                funs.len() == i,
                forall|j: int| 0 <= j < i ==> funs[j]@ == self.funs[j]@,
            decreases self.funs.len() - i,
        {
            funs.push(self.funs[i].copy());
            i += 1;
        }
        assert(definitions_of(funs@) =~= definitions_of(self.funs@));
        TopLevelEnv { vars, funs }
    }
}

impl TopLevelEnv {
    /// Whether calls that start in `op` nest no deeper than
    /// [`MAX_CALL_DEPTH`]: whether `op` can be evaluated.
    pub fn admits(&self, op: &Operand) -> (r: bool)
        ensures
            r == self@.admits(op@),
    {
        nests(op, self, MAX_CALL_DEPTH)
    }
}

/// Whether calls that start in `op` nest no deeper than `depth`.
fn nests(op: &Operand, env: &TopLevelEnv, depth: usize) -> (r: bool)
    ensures
        r == nests_within(op@, env@.funs, depth as nat),
    decreases depth, op,
{
    match op {
        Operand::Number(_) => true,
        Operand::Symbol(_) => true,
        Operand::Term(term) => nests(&term.lhs, env, depth) && nests(&term.rhs, env, depth),
        Operand::FunCall(fun_call) => {
            proof {
                view_of_call(*fun_call);
            }
            let ghost args = exprs_of(fun_call.params@);
            let mut ok = true;
            let mut i: usize = 0;
            while i < fun_call.params.len()
                invariant
                    i <= fun_call.params.len(),
                    args == exprs_of(fun_call.params@),
                    decreases_to!(op => fun_call.params),
                    ok == all_nest_within(args, i as nat, env@.funs, depth as nat),
                decreases fun_call.params.len() - i,
            {
                if ok {
                    ok = nests(&fun_call.params[i], env, depth);
                }
                i += 1;
            }
            if !ok {
                return false;
            }
            match position_of_function(&env.funs, &fun_call.name) {
                Some(k) => {
                    proof {
                        let c = choose|c: int| first_definition(env@.funs, fun_call.name@, c);
                        first_definition_is_unique(env@.funs, fun_call.name@, k as int, c);
                    }
                    match &env.funs[k].fun {
                        Function::Custom(function) => depth > 0 && nests(
                            &function.body,
                            env,
                            depth - 1,
                        ),
                        Function::BuildIn(_) => true,
                    }
                },
                None => true,
            }
        },
    }
}

/// Evaluates a term at top level: both operands, the left one first,
/// then the operation on their values.
pub fn calc_term<F: Fn(Primitive) -> Number>(term: &Term, env: &TopLevelEnv, unit: &F) -> (r:
    Result<Number, CalcError>)
    requires
        total(*unit),
        env@.admits(term@),
    ensures
        forall|m: spec_fn(Primitive) -> Number| #[trigger]
            computes(*unit, m) ==> outcome(r) == env@.value(term@, m),
{
    let names: Vec<String> = Vec::new();
    let values: Vec<Number> = Vec::new();
    let scope = ScopedEnv { top: env, vars: &env.vars, names: &names, values: &values };
    assert(scope@.locals =~= Seq::<(Seq<char>, Number)>::empty());
    calc_term_in(term, &scope, unit, Ghost(MAX_CALL_DEPTH as nat))
}

/// Evaluates a call at top level. The arguments are evaluated where the
/// call stands, from left to right; the body of a function defined in the
/// language is evaluated with its parameters standing for them, over the
/// variables of the moment of its definition.
pub fn calc_function_call<F: Fn(Primitive) -> Number>(
    fun_call: &FunCall,
    env: &TopLevelEnv,
    unit: &F,
) -> (r: Result<Number, CalcError>)
    requires
        total(*unit),
        env@.admits(fun_call@),
    ensures
        forall|m: spec_fn(Primitive) -> Number| #[trigger]
            computes(*unit, m) ==> outcome(r) == env@.value(fun_call@, m),
{
    let names: Vec<String> = Vec::new();
    let values: Vec<Number> = Vec::new();
    let scope = ScopedEnv { top: env, vars: &env.vars, names: &names, values: &values };
    assert(scope@.locals =~= Seq::<(Seq<char>, Number)>::empty());
    calc_function_call_in(fun_call, &scope, unit, Ghost(MAX_CALL_DEPTH as nat))
}

/// Evaluates an operand at top level.
pub fn calc_operand<F: Fn(Primitive) -> Number>(op: &Operand, env: &TopLevelEnv, unit: &F) -> (r:
    Result<Number, CalcError>)
    requires
        total(*unit),
        env@.admits(op@),
    ensures
        forall|m: spec_fn(Primitive) -> Number| #[trigger]
            computes(*unit, m) ==> outcome(r) == env@.value(op@, m),
{
    let names: Vec<String> = Vec::new();
    let values: Vec<Number> = Vec::new();
    let scope = ScopedEnv { top: env, vars: &env.vars, names: &names, values: &values };
    assert(scope@.locals =~= Seq::<(Seq<char>, Number)>::empty());
    calc_operand_in(op, &scope, unit, Ghost(MAX_CALL_DEPTH as nat))
}

/// Evaluates `body` with `names` standing for `values`: the body of a
/// function whose parameters are `names`, called with `values`.
pub fn calc_with_arguments<F: Fn(Primitive) -> Number>(
    body: &Operand,
    names: &Vec<String>,
    values: &Vec<Number>,
    env: &TopLevelEnv,
    unit: &F,
) -> (r: Result<Number, CalcError>)
    requires
        total(*unit),
        env@.admits(body@),
        names.len() == values.len(),
    ensures
        forall|m: spec_fn(Primitive) -> Number| #[trigger]
            computes(*unit, m) ==> outcome(r) == env@.value_with(
                body@,
                texts_of(names@),
                values@,
                m,
            ),
{
    let scope = ScopedEnv { top: env, vars: &env.vars, names, values };
    calc_operand_in(body, &scope, unit, Ghost(MAX_CALL_DEPTH as nat))
}

/// Reading after writing: a variable that has been given a value has
/// that value, and every other variable has the value that it had.
pub proof fn value_after_assignment(env: EnvView, name: Seq<char>, value: Number, key: Seq<char>)
    ensures
        env.with_value(name, value).value_of(name) == Some(value),
        key != name ==> env.with_value(name, value).value_of(key) == env.value_of(key),
        key != name ==> env.with_value(name, value).is_constant(key) == env.is_constant(key),
        env.with_value(name, value).funs == env.funs,
{
    find_after_assign(env.vars, name, value, key);
}

/// Giving a variable the same value a second time changes nothing.
pub proof fn assignment_is_idempotent(env: EnvView, name: Seq<char>, value: Number)
    ensures
        env.with_value(name, value).with_value(name, value) == env.with_value(name, value),
{
    let once = assign(env.vars, name, value);
    find_after_assign(env.vars, name, value, name);
    assert(assign(once, name, value) =~= once);
}

/// Every variable of a new environment is a constant.
pub proof fn default_variables_are_constants(name: Seq<char>)
    ensures
        find_binding(default_constants(), name) matches Some(b) ==> b.is_const,
        find_binding(default_constants(), "e"@) is Some,
{
    let vars = default_constants();
    assert(first_binding(vars, "e"@, 0));
}

/// A function that has been stored is the function of its name, with the
/// variables of the moment, and every other name stands for what it stood
/// for.
pub proof fn function_after_definition(
    env: EnvView,
    name: Seq<char>,
    fun: FunctionView,
    key: Seq<char>,
)
    ensures
        find_definition(env.with_function(name, fun).funs, name) == Some(
            Definition { name, fun, captured: env.vars },
        ),
        key != name ==> find_definition(env.with_function(name, fun).funs, key)
            == find_definition(env.funs, key),
        env.with_function(name, fun).vars == env.vars,
{
    find_after_define(env.funs, Definition { name, fun, captured: env.vars }, key);
}

/// A symbol that stands for nothing is reported by its name.
pub proof fn unknown_symbol_is_reported(
    name: Seq<char>,
    scope: Scope,
    m: spec_fn(Primitive) -> Number,
    depth: nat,
)
    requires
        scope.lookup(name) is None,
    ensures
        eval(Expr::Symbol(name), scope, m, depth) == Err::<Number, CalcErrorView>(
            CalcErrorView::UnknownSymbol(name),
        ),
{
}

/// A call of a function that does not exist is reported by the name of
/// the function, whatever its arguments are.
pub proof fn unknown_function_is_reported(
    name: Seq<char>,
    args: Seq<Expr>,
    scope: Scope,
    m: spec_fn(Primitive) -> Number,
    depth: nat,
)
    requires
        find_definition(scope.funs, name) is None,
    ensures
        eval(Expr::FunCall(name, args), scope, m, depth) == Err::<Number, CalcErrorView>(
            CalcErrorView::UnknownFunction(name),
        ),
{
}

/// Where all of the first `n` arguments have a value, the values are
/// theirs, in their order.
pub proof fn values_of_arguments(
    args: Seq<Expr>,
    n: nat,
    scope: Scope,
    m: spec_fn(Primitive) -> Number,
    depth: nat,
)
    requires
        n <= args.len(),
        eval_all(args, n, scope, m, depth) is Ok,
    ensures
        eval_all(args, n, scope, m, depth)->Ok_0.len() == n,
        forall|i: int|
            0 <= i < n ==> eval(#[trigger] args[i], scope, m, depth) == Ok::<
                Number,
                CalcErrorView,
            >(eval_all(args, n, scope, m, depth)->Ok_0[i]),
    decreases n,
{
    if n > 0 {
        values_of_arguments(args, (n - 1) as nat, scope, m, depth);
    }
}

/// In the body of a function, the name of a parameter stands for the
/// argument of the call, whatever variable has the same name: a function
/// whose body is its parameter `p` returns the argument in the place of
/// `p`.
pub proof fn parameter_shadows_variable(
    name: Seq<char>,
    params: Seq<Seq<char>>,
    p: Seq<char>,
    i: int,
    args: Seq<Expr>,
    scope: Scope,
    m: spec_fn(Primitive) -> Number,
    depth: nat,
)
    requires
        depth > 0,
        find_definition(scope.funs, name) is Some,
        find_definition(scope.funs, name)->Some_0.fun == (FunctionView::Custom {
            args: params,
            body: Expr::Symbol(p),
        }),
        args.len() == params.len(),
        0 <= i < params.len(),
        params[i] == p,
        forall|j: int| i < j < params.len() ==> params[j] != p,
        eval_all(args, args.len(), scope, m, depth) is Ok,
    ensures
        eval(Expr::FunCall(name, args), scope, m, depth) == eval(args[i], scope, m, depth),
{
    values_of_arguments(args, args.len(), scope, m, depth);
    let values = eval_all(args, args.len(), scope, m, depth)->Ok_0;
    let locals = bind(params, values);
    assert(last_local(locals, p, i));
    let def = find_definition(scope.funs, name)->Some_0;
    let inner = Scope { locals, vars: def.captured, funs: scope.funs };
    assert(eval(Expr::Symbol(p), inner, m, (depth - 1) as nat) == Ok::<Number, CalcErrorView>(
        values[i],
    ));
}

/// The body of a function sees its own parameters and the variables of
/// the moment of its definition, and nothing else: neither the arguments
/// of the function that calls it nor the variables of the moment of the
/// call. A function whose body is a name `q` that is none of its
/// parameters returns what `q` stood for when the function was defined.
pub proof fn body_sees_no_other_arguments(
    name: Seq<char>,
    params: Seq<Seq<char>>,
    q: Seq<char>,
    args: Seq<Expr>,
    scope: Scope,
    m: spec_fn(Primitive) -> Number,
    depth: nat,
)
    requires
        depth > 0,
        find_definition(scope.funs, name) is Some,
        find_definition(scope.funs, name)->Some_0.fun == (FunctionView::Custom {
            args: params,
            body: Expr::Symbol(q),
        }),
        args.len() == params.len(),
        forall|j: int| 0 <= j < params.len() ==> params[j] != q,
        eval_all(args, args.len(), scope, m, depth) is Ok,
    ensures
        eval(Expr::FunCall(name, args), scope, m, depth) == match find_binding(
            find_definition(scope.funs, name)->Some_0.captured,
            q,
        ) {
            Some(b) => Ok::<Number, CalcErrorView>(b.value),
            None => Err(CalcErrorView::UnknownSymbol(q)),
        },
{
    let values = eval_all(args, args.len(), scope, m, depth)->Ok_0;
    let locals = bind(params, values);
    let def = find_definition(scope.funs, name)->Some_0;
    let inner = Scope { locals, vars: def.captured, funs: scope.funs };
    assert(eval(Expr::Symbol(q), inner, m, (depth - 1) as nat) == match find_binding(
        def.captured,
        q,
    ) {
        Some(b) => Ok::<Number, CalcErrorView>(b.value),
        None => Err(CalcErrorView::UnknownSymbol(q)),
    });
}

} // verus!

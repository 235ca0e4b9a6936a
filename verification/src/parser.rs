//! The parser: from the tokens of a line to a statement.
//!
//! The operators of an expression are bound by precedence climbing: `^`
//! binds tightest and to the right, then `*`, `/` and `%`, then `+` and
//! `-`, all to the left. What a number's text stands for is asked of the
//! reader of literals that the caller hands in.

use crate::ast::{
    arithmetic, between, exprs_of, texts_of, view_of_call, CustomFunction, Expr, FunCall,
    Function, FunctionView, Number, Operand, Operation, Statement, StatementView, Term,
};
use crate::grammar::{
    assignment_line, end_of_input, is_number, is_symbol, leaf, line_of_a_symbol,
    line_of_an_assignment, node, statement, statement_is_well_formed, tokens_of, view_of_pair,
    well_formed, well_formed_arguments, well_formed_list, well_formed_list_at,
    well_formed_statement, EquationParser, Pair, Rule, Token,
};
use vstd::prelude::*;

verus! {

/// What can be wrong with a line or with its tokens.
#[derive(Debug, PartialEq, Eq)]
pub enum ParserError {
    InvalidNumber(String),
    InvalidOperation(String),
    InvalidOperand(String),
    InvalidExpression(String),
    InvalidSymbol(String),
    InvalidStatement(String),
    EmptyStatement,
    MissingAssignmentTarget(String),
    MissingAssignment(String),
    MissingAssignmentExpression(String),
    MissingSolveForLeftExpression(String),
    MissingSolveForRightExpression(String),
    MissingSolveForSymbol(String),
    MissingFunctionName,
    MissingFunctionBody,
    ExpectedParamExpression(String),
    PlotMissingFunction,
    PlotUnexpectedSymbol(String),
}

/// The model of a [`ParserError`].
pub enum ParserErrorView {
    InvalidNumber(Seq<char>),
    InvalidOperation(Seq<char>),
    InvalidOperand(Seq<char>),
    InvalidExpression(Seq<char>),
    InvalidSymbol(Seq<char>),
    InvalidStatement(Seq<char>),
    EmptyStatement,
    MissingAssignmentTarget(Seq<char>),
    MissingAssignment(Seq<char>),
    MissingAssignmentExpression(Seq<char>),
    MissingSolveForLeftExpression(Seq<char>),
    MissingSolveForRightExpression(Seq<char>),
    MissingSolveForSymbol(Seq<char>),
    MissingFunctionName,
    MissingFunctionBody,
    ExpectedParamExpression(Seq<char>),
    PlotMissingFunction,
    PlotUnexpectedSymbol(Seq<char>),
}

impl View for ParserError {
    type V = ParserErrorView;

    open spec fn view(&self) -> ParserErrorView {
        match self {
            ParserError::InvalidNumber(s) => ParserErrorView::InvalidNumber(s@),
            ParserError::InvalidOperation(s) => ParserErrorView::InvalidOperation(s@),
            ParserError::InvalidOperand(s) => ParserErrorView::InvalidOperand(s@),
            ParserError::InvalidExpression(s) => ParserErrorView::InvalidExpression(s@),
            ParserError::InvalidSymbol(s) => ParserErrorView::InvalidSymbol(s@),
            ParserError::InvalidStatement(s) => ParserErrorView::InvalidStatement(s@),
            ParserError::EmptyStatement => ParserErrorView::EmptyStatement,
            ParserError::MissingAssignmentTarget(s) => ParserErrorView::MissingAssignmentTarget(
                s@,
            ),
            ParserError::MissingAssignment(s) => ParserErrorView::MissingAssignment(s@),
            ParserError::MissingAssignmentExpression(s) => {
                ParserErrorView::MissingAssignmentExpression(s@)
            },
            ParserError::MissingSolveForLeftExpression(s) => {
                ParserErrorView::MissingSolveForLeftExpression(s@)
            },
            ParserError::MissingSolveForRightExpression(s) => {
                ParserErrorView::MissingSolveForRightExpression(s@)
            },
            ParserError::MissingSolveForSymbol(s) => ParserErrorView::MissingSolveForSymbol(s@),
            ParserError::MissingFunctionName => ParserErrorView::MissingFunctionName,
            ParserError::MissingFunctionBody => ParserErrorView::MissingFunctionBody,
            ParserError::ExpectedParamExpression(s) => ParserErrorView::ExpectedParamExpression(
                s@,
            ),
            ParserError::PlotMissingFunction => ParserErrorView::PlotMissingFunction,
            ParserError::PlotUnexpectedSymbol(s) => ParserErrorView::PlotUnexpectedSymbol(s@),
        }
    }
}

impl ParserErrorView {
    /// The error in words.
    pub open spec fn message(self) -> Seq<char> {
        match self {
            ParserErrorView::InvalidNumber(text) => "Invalid number - expected a floating number `"@ + text + "`"@,
            ParserErrorView::InvalidOperation(text) => "Invalid operation - expected +, -, *, /, %, or ^ `"@ + text + "`"@,
            ParserErrorView::InvalidOperand(text) => "Invalid operand - expected variable, number or term, but got `"@ + text + "`"@,
            ParserErrorView::InvalidExpression(text) => "Invalid expression - expected variable, number or term, but got `"@ + text + "`"@,
            ParserErrorView::InvalidSymbol(text) => "Invalid symbol - expected  `"@ + text + "`"@,
            ParserErrorView::InvalidStatement(text) => "Invalid statement - expected assignment, expression, or solve statement, but got `"@ + text + "`"@,
            ParserErrorView::EmptyStatement => "Expected statement, but got an empty line"@,
            ParserErrorView::MissingAssignmentTarget(text) => "Missing assignment target - expected symbol, but got `"@ + text + "`"@,
            ParserErrorView::MissingAssignment(text) => "Expected an assignment `:=`, but got `"@ + text + "`"@,
            ParserErrorView::MissingAssignmentExpression(text) => "Expected an expression, but got `"@ + text + "`"@,
            ParserErrorView::MissingSolveForLeftExpression(text) => "Expected expression in solve left from the `=`, but got `"@ + text + "`"@,
            ParserErrorView::MissingSolveForRightExpression(text) => "Expected expression in solve right from the `=`, but got `"@ + text + "`"@,
            ParserErrorView::MissingSolveForSymbol(text) => "Expected variable name after `for`, but got `"@ + text + "`"@,
            ParserErrorView::MissingFunctionName => "No function name found"@,
            ParserErrorView::MissingFunctionBody => "Expected expression as function body, but got nothing"@,
            ParserErrorView::ExpectedParamExpression(text) => "Expected expression as parameter value, but got `"@ + text + "`"@,
            ParserErrorView::PlotMissingFunction => "Plot is missing a function name, but got nothing"@,
            ParserErrorView::PlotUnexpectedSymbol(text) => "Expected function name, but got "@ + text + ""@,
        }
    }
}

impl ParserError {
    /// The error in words.
    pub fn message(&self) -> (r: String)
        ensures
            r@ == self@.message(),
    {
        match self {
            ParserError::InvalidNumber(text) => between("Invalid number - expected a floating number `", text, "`"),
            ParserError::InvalidOperation(text) => between("Invalid operation - expected +, -, *, /, %, or ^ `", text, "`"),
            ParserError::InvalidOperand(text) => between("Invalid operand - expected variable, number or term, but got `", text, "`"),
            ParserError::InvalidExpression(text) => between("Invalid expression - expected variable, number or term, but got `", text, "`"),
            ParserError::InvalidSymbol(text) => between("Invalid symbol - expected  `", text, "`"),
            ParserError::InvalidStatement(text) => between("Invalid statement - expected assignment, expression, or solve statement, but got `", text, "`"),
            ParserError::EmptyStatement => "Expected statement, but got an empty line".to_owned(),
            ParserError::MissingAssignmentTarget(text) => between("Missing assignment target - expected symbol, but got `", text, "`"),
            ParserError::MissingAssignment(text) => between("Expected an assignment `:=`, but got `", text, "`"),
            ParserError::MissingAssignmentExpression(text) => between("Expected an expression, but got `", text, "`"),
            ParserError::MissingSolveForLeftExpression(text) => between("Expected expression in solve left from the `=`, but got `", text, "`"),
            ParserError::MissingSolveForRightExpression(text) => between("Expected expression in solve right from the `=`, but got `", text, "`"),
            ParserError::MissingSolveForSymbol(text) => between("Expected variable name after `for`, but got `", text, "`"),
            ParserError::MissingFunctionName => "No function name found".to_owned(),
            ParserError::MissingFunctionBody => "Expected expression as function body, but got nothing".to_owned(),
            ParserError::ExpectedParamExpression(text) => between("Expected expression as parameter value, but got `", text, "`"),
            ParserError::PlotMissingFunction => "Plot is missing a function name, but got nothing".to_owned(),
            ParserError::PlotUnexpectedSymbol(text) => between("Expected function name, but got ", text, ""),
        }
    }
}

/// `lit` describes the reader of literals `number`: whatever `number`
/// returns for a text is what `lit` gives for it.
pub open spec fn reads<N: Fn(&str) -> Option<Number>>(
    number: N,
    lit: spec_fn(Seq<char>) -> Option<Number>,
) -> bool {
    forall|t: &str, r: Option<Number>| #[trigger] number.ensures((t,), r) ==> r == lit(t@)
}

/// The reader is a total function: it accepts every text, and what it
/// returns depends on the text alone.
pub open spec fn attentive<N: Fn(&str) -> Option<Number>>(number: N) -> bool {
    &&& forall|t: &str| #[trigger] number.requires((t,))
    &&& exists|lit: spec_fn(Seq<char>) -> Option<Number>| reads(number, lit)
}

/// The model of the result of parsing an operand.
pub open spec fn operand_outcome(r: Result<Operand, ParserError>) -> Result<
    Expr,
    ParserErrorView,
> {
    match r {
        Ok(op) => Ok(op@),
        Err(e) => Err(e@),
    }
}

/// The model of the result of parsing a statement.
pub open spec fn statement_outcome(r: Result<Statement, ParserError>) -> Result<
    StatementView,
    ParserErrorView,
> {
    match r {
        Ok(st) => Ok(st@),
        Err(e) => Err(e@),
    }
}

/// The operation that a token of `rule` stands for.
pub open spec fn operation_of(rule: Rule) -> Option<Operation> {
    match rule {
        Rule::Add => Some(Operation::Add),
        Rule::Subtract => Some(Operation::Sub),
        Rule::Multiply => Some(Operation::Mul),
        Rule::Divide => Some(Operation::Div),
        Rule::Rem => Some(Operation::Rem),
        Rule::Power => Some(Operation::Pow),
        _ => None,
    }
}

/// How tightly `op` binds.
pub open spec fn precedence(op: Operation) -> nat {
    match op {
        Operation::Add => 1,
        Operation::Sub => 1,
        Operation::Mul => 2,
        Operation::Div => 2,
        Operation::Rem => 2,
        Operation::Pow => 3,
    }
}

/// Whether `a op b op c` means `a op (b op c)`.
pub open spec fn binds_to_the_right(op: Operation) -> bool {
    op == Operation::Pow
}

/// The least precedence of an operator that may stand inside the right
/// operand of `op`.
pub open spec fn right_level(op: Operation) -> nat {
    if binds_to_the_right(op) {
        precedence(op)
    } else {
        precedence(op) + 1
    }
}

/// The result of climbing over tokens: the operand or the error, and how
/// many tokens were used.
pub struct Climb {
    pub result: Result<Expr, ParserErrorView>,
    pub used: nat,
}

/// How many of `pairs` are left at `at`.
pub open spec fn rest(pairs: Seq<Token>, at: int) -> nat {
    if at <= pairs.len() {
        (pairs.len() - at) as nat
    } else {
        0
    }
}

/// The operand of one token: a number, a symbol, a call, or an
/// expression of its own.
pub open spec fn primary(p: Token, lit: spec_fn(Seq<char>) -> Option<Number>) -> Result<
    Expr,
    ParserErrorView,
>
    decreases p, 0nat, 0nat,
{
    match p.rule {
        Rule::Num => match lit(p.text) {
            Some(n) => Ok(Expr::Number(n)),
            None => Err(ParserErrorView::InvalidNumber(p.text)),
        },
        Rule::Expr => operand(p.inner, lit),
        Rule::Symbol => Ok(Expr::Symbol(p.text)),
        Rule::FunCall => call(p.inner, lit),
        _ => Err(ParserErrorView::InvalidOperand(p.text)),
    }
}

/// The operand of the tokens of an expression: operands and operators in
/// turn.
pub open spec fn operand(pairs: Seq<Token>, lit: spec_fn(Seq<char>) -> Option<Number>) -> Result<
    Expr,
    ParserErrorView,
>
    decreases pairs, pairs.len() + 1, 0nat,
{
    climb(pairs, 0, 0, lit).result
}

/// The operand that starts at `at` and holds no operator that binds less
/// tightly than `min`.
pub open spec fn climb(
    pairs: Seq<Token>,
    at: int,
    min: nat,
    lit: spec_fn(Seq<char>) -> Option<Number>,
) -> Climb
    decreases pairs, rest(pairs, at), 1nat,
{
    if 0 <= at < pairs.len() {
        match primary(pairs[at], lit) {
            Err(e) => Climb { result: Err(e), used: 0 },
            Ok(lhs) => {
                let more = climb_more(pairs, at + 1, min, lhs, lit);
                Climb { result: more.result, used: 1 + more.used }
            },
        }
    } else {
        Climb { result: Err(ParserErrorView::InvalidOperand(Seq::empty())), used: 0 }
    }
}

/// The operand that `lhs` grows into by the operators from `at` on that
/// bind at least as tightly as `min`.
pub open spec fn climb_more(
    pairs: Seq<Token>,
    at: int,
    min: nat,
    lhs: Expr,
    lit: spec_fn(Seq<char>) -> Option<Number>,
) -> Climb
    decreases pairs, rest(pairs, at), 0nat,
{
    if 0 <= at < pairs.len() {
        match operation_of(pairs[at].rule) {
            None => Climb {
                result: Err(ParserErrorView::InvalidOperation(pairs[at].text)),
                used: 0,
            },
            Some(op) => if precedence(op) < min {
                Climb { result: Ok(lhs), used: 0 }
            } else {
                let rhs = climb(pairs, at + 1, right_level(op), lit);
                match rhs.result {
                    Err(e) => Climb { result: Err(e), used: 0 },
                    Ok(r) => {
                        let more = climb_more(
                            pairs,
                            at + 1 + rhs.used,
                            min,
                            Expr::Term(op, Box::new(lhs), Box::new(r)),
                            lit,
                        );
                        Climb { result: more.result, used: 1 + rhs.used + more.used }
                    },
                }
            },
        }
    } else {
        Climb { result: Ok(lhs), used: 0 }
    }
}

/// The call of the tokens of a call: the name, then one expression for
/// each argument.
pub open spec fn call(pairs: Seq<Token>, lit: spec_fn(Seq<char>) -> Option<Number>) -> Result<
    Expr,
    ParserErrorView,
>
    decreases pairs, pairs.len() + 1, 0nat,
{
    if pairs.len() == 0 {
        Err(ParserErrorView::MissingFunctionName)
    } else {
        match arguments(pairs, pairs.len(), lit) {
            Err(e) => Err(e),
            Ok(params) => Ok(Expr::FunCall(pairs[0].text, params)),
        }
    }
}

/// The arguments that the tokens from the second to the `n`th stand for,
/// or the error of the first of them that stands for none.
pub open spec fn arguments(
    pairs: Seq<Token>,
    n: nat,
    lit: spec_fn(Seq<char>) -> Option<Number>,
) -> Result<Seq<Expr>, ParserErrorView>
    decreases pairs, n, 0nat,
{
    if n <= 1 || n > pairs.len() {
        Ok(Seq::empty())
    } else {
        match arguments(pairs, (n - 1) as nat, lit) {
            Err(e) => Err(e),
            Ok(params) => if pairs[n - 1].rule == Rule::Expr {
                match operand(pairs[n - 1].inner, lit) {
                    Err(e) => Err(e),
                    Ok(param) => Ok(params.push(param)),
                }
            } else {
                Err(ParserErrorView::ExpectedParamExpression(pairs[n - 1].text))
            },
        }
    }
}

/// The assignment of the tokens of an assignment: the symbol and the
/// expression.
pub open spec fn assignment_of(
    pairs: Seq<Token>,
    lit: spec_fn(Seq<char>) -> Option<Number>,
) -> Result<StatementView, ParserErrorView> {
    if pairs.len() < 1 {
        Err(ParserErrorView::MissingAssignmentTarget(Seq::empty()))
    } else if pairs[0].rule != Rule::Symbol {
        Err(ParserErrorView::InvalidSymbol(pairs[0].text))
    } else if pairs.len() < 2 {
        Err(ParserErrorView::MissingAssignmentExpression(Seq::empty()))
    } else {
        match operand(pairs[1].inner, lit) {
            Err(e) => Err(e),
            Ok(op) => Ok(StatementView::Assignment { sym: pairs[0].text, op }),
        }
    }
}

/// The equation of the tokens of an equation to solve: the two sides and
/// the symbol.
pub open spec fn solve_for_of(
    pairs: Seq<Token>,
    lit: spec_fn(Seq<char>) -> Option<Number>,
) -> Result<StatementView, ParserErrorView> {
    if pairs.len() < 1 {
        Err(ParserErrorView::MissingSolveForLeftExpression(Seq::empty()))
    } else {
        match operand(pairs[0].inner, lit) {
            Err(e) => Err(e),
            Ok(lhs) => if pairs.len() < 2 {
                Err(ParserErrorView::MissingSolveForRightExpression(Seq::empty()))
            } else {
                match operand(pairs[1].inner, lit) {
                    Err(e) => Err(e),
                    Ok(rhs) => if pairs.len() < 3 {
                        Err(ParserErrorView::MissingSolveForSymbol(Seq::empty()))
                    } else if pairs[2].rule != Rule::Symbol {
                        Err(ParserErrorView::InvalidSymbol(pairs[2].text))
                    } else {
                        Ok(StatementView::SolveFor { lhs, rhs, sym: pairs[2].text })
                    },
                }
            },
        }
    }
}

/// How many symbols stand in a row at `at`.
pub open spec fn symbols(pairs: Seq<Token>, at: int) -> nat
    decreases rest(pairs, at),
{
    if 0 <= at < pairs.len() && pairs[at].rule == Rule::Symbol {
        1 + symbols(pairs, at + 1)
    } else {
        0
    }
}

/// The definition of the tokens of a definition: the name, a symbol for
/// each parameter, and the expression of the body.
pub open spec fn function_of(
    pairs: Seq<Token>,
    lit: spec_fn(Seq<char>) -> Option<Number>,
) -> Result<StatementView, ParserErrorView> {
    if pairs.len() < 1 {
        Err(ParserErrorView::MissingFunctionName)
    } else {
        let n = symbols(pairs, 1);
        if 1 + n < pairs.len() {
            match operand(pairs[1 + n as int].inner, lit) {
                Err(e) => Err(e),
                Ok(body) => Ok(
                    StatementView::Function {
                        name: pairs[0].text,
                        fun: FunctionView::Custom {
                            args: Seq::new(n, |i: int| pairs[1 + i].text),
                            body,
                        },
                    },
                ),
            }
        } else {
            Err(ParserErrorView::MissingFunctionBody)
        }
    }
}

/// The request of the tokens of a request for a plot: the symbol.
pub open spec fn plot_of(pairs: Seq<Token>) -> Result<StatementView, ParserErrorView> {
    if pairs.len() < 1 {
        Err(ParserErrorView::PlotMissingFunction)
    } else if pairs[0].rule == Rule::Symbol {
        Ok(StatementView::Plot { name: pairs[0].text })
    } else {
        Err(ParserErrorView::PlotUnexpectedSymbol(pairs[0].text))
    }
}

/// The name of a rule.
pub open spec fn rule_name(rule: Rule) -> Seq<char> {
    match rule {
        Rule::Num => "num"@,
        Rule::Symbol => "symbol"@,
        Rule::Add => "add"@,
        Rule::Subtract => "subtract"@,
        Rule::Multiply => "multiply"@,
        Rule::Divide => "divide"@,
        Rule::Rem => "rem"@,
        Rule::Power => "power"@,
        Rule::FunCall => "fun_call"@,
        Rule::Expr => "expr"@,
        Rule::Assignment => "assignment"@,
        Rule::SolveFor => "solvefor"@,
        Rule::Function => "function"@,
        Rule::Plot => "plot"@,
        Rule::EndOfInput => "EOI"@,
    }
}

/// The statement of the tokens of a line: that of the first token.
pub open spec fn statement_of(
    pairs: Seq<Token>,
    lit: spec_fn(Seq<char>) -> Option<Number>,
) -> Result<StatementView, ParserErrorView> {
    if pairs.len() < 1 {
        Err(ParserErrorView::EmptyStatement)
    } else {
        match pairs[0].rule {
            Rule::Assignment => assignment_of(pairs[0].inner, lit),
            Rule::Expr => match operand(pairs[0].inner, lit) {
                Err(e) => Err(e),
                Ok(op) => Ok(StatementView::Expression { op }),
            },
            Rule::SolveFor => solve_for_of(pairs[0].inner, lit),
            Rule::Function => function_of(pairs[0].inner, lit),
            Rule::Plot => plot_of(pairs[0].inner),
            r => Err(ParserErrorView::InvalidStatement("Unexpected rule: "@ + rule_name(r))),
        }
    }
}

/// The statement of the line `s`, where `lit` is what the reader of
/// literals gives. A line that the grammar does not match is refused with
/// the line itself.
pub open spec fn statement_of_line(
    s: Seq<char>,
    lit: spec_fn(Seq<char>) -> Option<Number>,
) -> Result<StatementView, ParserErrorView> {
    match statement(s) {
        None => Err(ParserErrorView::InvalidExpression(s)),
        Some(pairs) => statement_of(pairs, lit),
    }
}

/// An empty text.
fn nothing() -> (r: String)
    ensures
        r@ == Seq::<char>::empty(),
{
    String::new()
}

/// The number of a number token: what the reader of literals gives for
/// its text.
pub fn parse_num<N: Fn(&str) -> Option<Number>>(pair: &Pair, number: &N) -> (r: Result<
    Operand,
    ParserError,
>)
    requires
        attentive(*number),
    ensures
        forall|lit: spec_fn(Seq<char>) -> Option<Number>| #[trigger]
            reads(*number, lit) ==> operand_outcome(r) == match lit(pair.text@) {
                Some(n) => Ok::<Expr, ParserErrorView>(Expr::Number(n)),
                None => Err(ParserErrorView::InvalidNumber(pair.text@)),
            },
{
    match number(pair.text.as_str()) {
        Some(num) => Ok(Operand::Number(num)),
        None => Err(ParserError::InvalidNumber(pair.text.clone())),
    }
}

/// The term `lhs op rhs` as an operand.
pub fn new_operand_term(lhs: Operand, op: Operation, rhs: Operand) -> (r: Operand)
    ensures
        r@ == Expr::Term(op, Box::new(lhs@), Box::new(rhs@)),
{
    Operand::Term(Box::new(Term { op, lhs, rhs }))
}

/// The operation of an operator token.
pub fn parse_operation(op: &Pair) -> (r: Result<Operation, ParserError>)
    ensures
        match operation_of(op.rule) {
            Some(o) => r == Ok::<Operation, ParserError>(o),
            None => r matches Err(e) && e@ == ParserErrorView::InvalidOperation(op.text@),
        },
{
    match op.rule {
        Rule::Add => Ok(Operation::Add),
        Rule::Subtract => Ok(Operation::Sub),
        Rule::Multiply => Ok(Operation::Mul),
        Rule::Divide => Ok(Operation::Div),
        Rule::Rem => Ok(Operation::Rem),
        Rule::Power => Ok(Operation::Pow),
        _ => Err(ParserError::InvalidOperation(op.text.clone())),
    }
}

/// The term of two operands and the operator between them; the first
/// error, from left to right, where there is one.
pub fn parse_term(
    lhs: Result<Operand, ParserError>,
    op: &Pair,
    rhs: Result<Operand, ParserError>,
) -> (r: Result<Operand, ParserError>)
    ensures
        operand_outcome(r) == match operand_outcome(lhs) {
            Err(e) => Err::<Expr, ParserErrorView>(e),
            Ok(l) => match operand_outcome(rhs) {
                Err(e) => Err(e),
                Ok(r) => match operation_of(op.rule) {
                    Some(o) => Ok(Expr::Term(o, Box::new(l), Box::new(r))),
                    None => Err(ParserErrorView::InvalidOperation(op.text@)),
                },
            },
        },
{
    let lhs = match lhs {
        Ok(l) => l,
        Err(e) => {
            return Err(e);
        },
    };
    let rhs = match rhs {
        Ok(r) => r,
        Err(e) => {
            return Err(e);
        },
    };
    match parse_operation(op) {
        Ok(o) => Ok(new_operand_term(lhs, o, rhs)),
        Err(e) => Err(e),
    }
}

fn precedence_of(op: Operation) -> (r: u8)
    ensures
        r == precedence(op),
{
    match op {
        Operation::Add => 1,
        Operation::Sub => 1,
        Operation::Mul => 2,
        Operation::Div => 2,
        Operation::Rem => 2,
        Operation::Pow => 3,
    }
}

fn right_level_of(op: Operation) -> (r: u8)
    ensures
        r == right_level(op),
{
    match op {
        Operation::Pow => 3,
        other => precedence_of(other) + 1,
    }
}

fn parse_primary<N: Fn(&str) -> Option<Number>>(pair: &Pair, number: &N) -> (r: Result<
    Operand,
    ParserError,
>)
    requires
        attentive(*number),
    ensures
        forall|lit: spec_fn(Seq<char>) -> Option<Number>| #[trigger]
            reads(*number, lit) ==> operand_outcome(r) == primary(pair@, lit),
    decreases pair, 0nat, 0nat,
{
    proof {
        view_of_pair(*pair);
    }
    match pair.rule {
        Rule::Num => parse_num(pair, number),
        Rule::Expr => parse_operand(&pair.inner, number),
        Rule::Symbol => Ok(Operand::Symbol(pair.text.clone())),
        Rule::FunCall => parse_fun_call(&pair.inner, number),
        _ => Err(ParserError::InvalidOperand(pair.text.clone())),
    }
}

/// The call of the tokens of a call.
pub fn parse_fun_call<N: Fn(&str) -> Option<Number>>(fun_call: &Vec<Pair>, number: &N) -> (r:
    Result<Operand, ParserError>)
    requires
        attentive(*number),
    ensures
        forall|lit: spec_fn(Seq<char>) -> Option<Number>| #[trigger]
            reads(*number, lit) ==> operand_outcome(r) == call(tokens_of(fun_call@), lit),
    decreases fun_call, fun_call.len() + 1, 0nat,
{
    let ghost pairs = tokens_of(fun_call@);
    if fun_call.len() == 0 {
        return Err(ParserError::MissingFunctionName);
    }
    let name = fun_call[0].text.clone();
    proof {
        view_of_pair(fun_call[0]);
    }
    let mut params: Vec<Operand> = Vec::new();
    assert(exprs_of(params@) =~= Seq::<Expr>::empty());
    let mut i: usize = 1;
    while i < fun_call.len()
        invariant
            1 <= i <= fun_call.len(),
            attentive(*number),
            pairs == tokens_of(fun_call@),
            forall|lit: spec_fn(Seq<char>) -> Option<Number>| #[trigger]
                reads(*number, lit) ==> arguments(pairs, i as nat, lit) == Ok::<
                    Seq<Expr>,
                    ParserErrorView,
                >(exprs_of(params@)),
        decreases fun_call.len() - i,
    {
        let p = &fun_call[i];
        proof {
            view_of_pair(*p);
        }
        let ghost before = exprs_of(params@);
        if p.rule == Rule::Expr {
            match parse_operand(&p.inner, number) {
                Ok(param) => {
                    params.push(param);
                    assert(exprs_of(params@) =~= before.push(param@));
                },
                Err(e) => {
                    proof {
                        assert forall|lit: spec_fn(Seq<char>) -> Option<Number>| #[trigger]
                            reads(*number, lit) implies operand_outcome(Err(e)) == call(
                            pairs,
                            lit,
                        ) by {
                            argument_failure_lasts(pairs, (i + 1) as nat, pairs.len(), lit);
                        }
                    }
                    return Err(e);
                },
            }
        } else {
            let e = ParserError::ExpectedParamExpression(p.text.clone());
            proof {
                assert forall|lit: spec_fn(Seq<char>) -> Option<Number>| #[trigger]
                    reads(*number, lit) implies operand_outcome(Err(e)) == call(pairs, lit) by {
                    argument_failure_lasts(pairs, (i + 1) as nat, pairs.len(), lit);
                }
            }
            return Err(e);
        }
        i += 1;
    }
    let out = FunCall { name, params };
    proof {
        view_of_call(out);
    }
    Ok(Operand::FunCall(out))
}

/// Once an argument has failed, reading more arguments keeps its error.
proof fn argument_failure_lasts(
    pairs: Seq<Token>,
    k: nat,
    n: nat,
    lit: spec_fn(Seq<char>) -> Option<Number>,
)
    requires
        1 < k <= n <= pairs.len(),
        arguments(pairs, k, lit) is Err,
    ensures
        arguments(pairs, n, lit) == arguments(pairs, k, lit),
    decreases n,
{
    if n > k {
        argument_failure_lasts(pairs, k, (n - 1) as nat, lit);
    }
}

/// The operand of the tokens of an expression, by precedence climbing.
pub fn parse_operand<N: Fn(&str) -> Option<Number>>(expression: &Vec<Pair>, number: &N) -> (r:
    Result<Operand, ParserError>)
    requires
        attentive(*number),
    ensures
        forall|lit: spec_fn(Seq<char>) -> Option<Number>| #[trigger]
            reads(*number, lit) ==> operand_outcome(r) == operand(tokens_of(expression@), lit),
    decreases expression, expression.len() + 1, 0nat,
{
    let (r, _) = climb_from(expression, 0, 0, number);
    r
}

/// Parses the operand that starts at `at`; also gives the place after it.
fn climb_from<N: Fn(&str) -> Option<Number>>(
    pairs: &Vec<Pair>,
    at: usize,
    min: u8,
    number: &N,
) -> (r: (Result<Operand, ParserError>, usize))
    requires
        attentive(*number),
        at <= pairs.len(),
    ensures
        at <= r.1 <= pairs.len(),
        forall|lit: spec_fn(Seq<char>) -> Option<Number>| #[trigger]
            reads(*number, lit) ==> {
                let c = climb(tokens_of(pairs@), at as int, min as nat, lit);
                &&& operand_outcome(r.0) == c.result
                &&& c.result is Ok ==> r.1 == at + c.used
            },
    decreases pairs, pairs.len() - at, 1nat,
{
    let ghost tokens = tokens_of(pairs@);
    if at >= pairs.len() {
        return (Err(ParserError::InvalidOperand(nothing())), at);
    }
    let mut lhs = match parse_primary(&pairs[at], number) {
        Ok(op) => op,
        Err(e) => {
            return (Err(e), at);
        },
    };
    let first: usize = at + 1;
    let ghost lhs0 = lhs@;
    let mut next: usize = first;
    loop
        invariant
            attentive(*number),
            tokens == tokens_of(pairs@),
            first == at + 1,
            first <= next <= pairs.len(),
            decreases_to!(pairs => pairs@),
            forall|lit: spec_fn(Seq<char>) -> Option<Number>| #[trigger]
                reads(*number, lit) ==> primary(tokens[at as int], lit) == Ok::<
                    Expr,
                    ParserErrorView,
                >(lhs0),
            forall|lit: spec_fn(Seq<char>) -> Option<Number>| #[trigger]
                reads(*number, lit) ==> {
                    let whole = climb_more(tokens, first as int, min as nat, lhs0, lit);
                    let here = climb_more(tokens, next as int, min as nat, lhs@, lit);
                    &&& whole.result == here.result
                    &&& here.result is Ok ==> whole.used == (next - first) + here.used
                },
        decreases pairs.len() - next,
    {
        if next >= pairs.len() {
            return (Ok(lhs), next);
        }
        proof {
            view_of_pair(pairs[next as int]);
        }
        let op = match parse_operation(&pairs[next]) {
            Ok(op) => op,
            Err(e) => {
                return (Err(e), next);
            },
        };
        if precedence_of(op) < min {
            return (Ok(lhs), next);
        }
        let (rhs, after) = climb_from(pairs, next + 1, right_level_of(op), number);
        let rhs = match rhs {
            Ok(operand) => operand,
            Err(e) => {
                return (Err(e), after);
            },
        };
        lhs = new_operand_term(lhs, op, rhs);
        next = after;
    }
}

/// The assignment of the tokens of an assignment.
pub fn parse_assignment<N: Fn(&str) -> Option<Number>>(assignment: &Vec<Pair>, number: &N) -> (r:
    Result<Statement, ParserError>)
    requires
        attentive(*number),
    ensures
        forall|lit: spec_fn(Seq<char>) -> Option<Number>| #[trigger]
            reads(*number, lit) ==> statement_outcome(r) == assignment_of(
                tokens_of(assignment@),
                lit,
            ),
{
    if assignment.len() < 1 {
        return Err(ParserError::MissingAssignmentTarget(nothing()));
    }
    let sym = &assignment[0];
    proof {
        view_of_pair(*sym);
    }
    if sym.rule != Rule::Symbol {
        return Err(ParserError::InvalidSymbol(sym.text.clone()));
    }
    let sym = sym.text.clone();
    if assignment.len() < 2 {
        return Err(ParserError::MissingAssignmentExpression(nothing()));
    }
    proof {
        view_of_pair(assignment[1]);
    }
    match parse_operand(&assignment[1].inner, number) {
        Ok(op) => Ok(Statement::Assignment { sym, op }),
        Err(e) => Err(e),
    }
}

/// The equation of the tokens of an equation to solve.
pub fn parse_solve_for<N: Fn(&str) -> Option<Number>>(solve_for: &Vec<Pair>, number: &N) -> (r:
    Result<Statement, ParserError>)
    requires
        attentive(*number),
    ensures
        forall|lit: spec_fn(Seq<char>) -> Option<Number>| #[trigger]
            reads(*number, lit) ==> statement_outcome(r) == solve_for_of(
                tokens_of(solve_for@),
                lit,
            ),
{
    if solve_for.len() < 1 {
        return Err(ParserError::MissingSolveForLeftExpression(nothing()));
    }
    proof {
        view_of_pair(solve_for[0]);
    }
    let lhs = match parse_operand(&solve_for[0].inner, number) {
        Ok(op) => op,
        Err(e) => {
            return Err(e);
        },
    };
    if solve_for.len() < 2 {
        return Err(ParserError::MissingSolveForRightExpression(nothing()));
    }
    proof {
        view_of_pair(solve_for[1]);
    }
    let rhs = match parse_operand(&solve_for[1].inner, number) {
        Ok(op) => op,
        Err(e) => {
            return Err(e);
        },
    };
    if solve_for.len() < 3 {
        return Err(ParserError::MissingSolveForSymbol(nothing()));
    }
    let sym = &solve_for[2];
    proof {
        view_of_pair(*sym);
    }
    if sym.rule != Rule::Symbol {
        return Err(ParserError::InvalidSymbol(sym.text.clone()));
    }
    let sym = sym.text.clone();
    Ok(Statement::SolveFor { lhs, rhs, sym })
}

/// The definition of the tokens of a definition of a function.
pub fn parse_function<N: Fn(&str) -> Option<Number>>(function: &Vec<Pair>, number: &N) -> (r:
    Result<Statement, ParserError>)
    requires
        attentive(*number),
    ensures
        forall|lit: spec_fn(Seq<char>) -> Option<Number>| #[trigger]
            reads(*number, lit) ==> statement_outcome(r) == function_of(
                tokens_of(function@),
                lit,
            ),
{
    let ghost pairs = tokens_of(function@);
    if function.len() < 1 {
        return Err(ParserError::MissingFunctionName);
    }
    proof {
        view_of_pair(function[0]);
    }
    let name = function[0].text.clone();
    let mut args: Vec<String> = Vec::new();
    let mut i: usize = 1;
    while i < function.len()
        invariant
            1 <= i <= function.len(),
            attentive(*number),
            pairs == tokens_of(function@),
            args.len() == i - 1,
            symbols(pairs, 1) == (i - 1) + symbols(pairs, i as int),
            forall|j: int| 0 <= j < i - 1 ==> (#[trigger] args[j])@ == pairs[1 + j].text,
            name@ == pairs[0].text,
        decreases function.len() - i,
    {
        let p = &function[i];
        proof {
            view_of_pair(*p);
        }
        if p.rule == Rule::Symbol {
            args.push(p.text.clone());
        } else {
            let body = match parse_operand(&p.inner, number) {
                Ok(op) => op,
                Err(e) => {
                    return Err(e);
                },
            };
            assert(texts_of(args@) =~= Seq::new((i - 1) as nat, |j: int| pairs[1 + j].text));
            return Ok(
                Statement::Function { name, fun: Function::Custom(CustomFunction { args, body }) },
            );
        }
        i += 1;
    }
    Err(ParserError::MissingFunctionBody)
}

/// The request of the tokens of a request for a plot.
pub fn parse_plot(plot: &Vec<Pair>) -> (r: Result<Statement, ParserError>)
    ensures
        statement_outcome(r) == plot_of(tokens_of(plot@)),
{
    if plot.len() < 1 {
        return Err(ParserError::PlotMissingFunction);
    }
    let fun = &plot[0];
    proof {
        view_of_pair(*fun);
    }
    match fun.rule {
        Rule::Symbol => Ok(Statement::Plot { name: fun.text.clone() }),
        _ => Err(ParserError::PlotUnexpectedSymbol(fun.text.clone())),
    }
}

/// The name of a rule.
fn name_of(rule: Rule) -> (r: &'static str)
    ensures
        r@ == rule_name(rule),
{
    match rule {
        Rule::Num => "num",
        Rule::Symbol => "symbol",
        Rule::Add => "add",
        Rule::Subtract => "subtract",
        Rule::Multiply => "multiply",
        Rule::Divide => "divide",
        Rule::Rem => "rem",
        Rule::Power => "power",
        Rule::FunCall => "fun_call",
        Rule::Expr => "expr",
        Rule::Assignment => "assignment",
        Rule::SolveFor => "solvefor",
        Rule::Function => "function",
        Rule::Plot => "plot",
        Rule::EndOfInput => "EOI",
    }
}

/// The statement of the tokens of a line.
pub fn parse_statement<N: Fn(&str) -> Option<Number>>(statements: &Vec<Pair>, number: &N) -> (r:
    Result<Statement, ParserError>)
    requires
        attentive(*number),
    ensures
        forall|lit: spec_fn(Seq<char>) -> Option<Number>| #[trigger]
            reads(*number, lit) ==> statement_outcome(r) == statement_of(
                tokens_of(statements@),
                lit,
            ),
{
    if statements.len() < 1 {
        return Err(ParserError::EmptyStatement);
    }
    let statement = &statements[0];
    proof {
        view_of_pair(*statement);
    }
    match statement.rule {
        Rule::Assignment => parse_assignment(&statement.inner, number),
        Rule::Expr => match parse_operand(&statement.inner, number) {
            Ok(op) => Ok(Statement::Expression { op }),
            Err(e) => Err(e),
        },
        Rule::SolveFor => parse_solve_for(&statement.inner, number),
        Rule::Function => parse_function(&statement.inner, number),
        Rule::Plot => parse_plot(&statement.inner),
        r => {
            let mut message = "Unexpected rule: ".to_owned();
            message.append(name_of(r));
            Err(ParserError::InvalidStatement(message))
        },
    }
}

/// Parses a line of text into its statement. The line is refused where
/// the grammar does not match it, or where the reader of literals refuses
/// one of its numbers; nothing else goes wrong.
pub fn parse<N: Fn(&str) -> Option<Number>>(cmd: &str, number: &N) -> (r: Result<
    Statement,
    ParserError,
>)
    requires
        attentive(*number),
    ensures
        forall|lit: spec_fn(Seq<char>) -> Option<Number>| #[trigger]
            reads(*number, lit) ==> statement_outcome(r) == statement_of_line(cmd@, lit),
        r matches Err(e) ==> e@ == ParserErrorView::InvalidExpression(cmd@) || e@
            is InvalidNumber,
{
    let r = match EquationParser::parse(cmd) {
        Some(rules) => parse_statement(&rules, number),
        None => Err(ParserError::InvalidExpression(cmd.to_owned())),
    };
    proof {
        let lit = choose|lit: spec_fn(Seq<char>) -> Option<Number>| reads(*number, lit);
        errors_of_a_line(cmd@, lit);
    }
    r
}

/// The operation of the operator at `at`, if it binds as tightly as
/// `level`.
pub open spec fn operator_of_level(pairs: Seq<Token>, at: int, level: nat) -> Option<Operation> {
    if 0 <= at < pairs.len() {
        match operation_of(pairs[at].rule) {
            Some(op) => if precedence(op) == level {
                Some(op)
            } else {
                None
            },
            None => None,
        }
    } else {
        None
    }
}

/// The grammar of expressions in layers, the tightest innermost:
///
/// ```text
/// expr   := term (("+" | "-") term)*
/// term   := factor (("*" | "/" | "%") factor)*
/// factor := atom ("^" factor)?
/// ```
///
/// where the operands of a repetition are gathered from the left. This
/// is the factor at `at`.
pub open spec fn factor(pairs: Seq<Token>, at: int, lit: spec_fn(Seq<char>) -> Option<Number>) -> Climb
    decreases rest(pairs, at), 1nat,
{
    if 0 <= at < pairs.len() {
        match primary(pairs[at], lit) {
            Err(e) => Climb { result: Err(e), used: 0 },
            Ok(atom) => {
                let more = factor_more(pairs, at + 1, atom, lit);
                Climb { result: more.result, used: 1 + more.used }
            },
        }
    } else {
        Climb { result: Err(ParserErrorView::InvalidOperand(Seq::empty())), used: 0 }
    }
}

/// The factor of the atom `lhs` that ends at `at`: `lhs` itself, or
/// `lhs ^ factor`.
pub open spec fn factor_more(
    pairs: Seq<Token>,
    at: int,
    lhs: Expr,
    lit: spec_fn(Seq<char>) -> Option<Number>,
) -> Climb
    decreases rest(pairs, at), 0nat,
{
    match operator_of_level(pairs, at, 3) {
        Some(op) => {
            let rhs = factor(pairs, at + 1, lit);
            match rhs.result {
                Err(e) => Climb { result: Err(e), used: 0 },
                Ok(r) => Climb {
                    result: Ok(Expr::Term(op, Box::new(lhs), Box::new(r))),
                    used: 1 + rhs.used,
                },
            }
        },
        None => Climb { result: Ok(lhs), used: 0 },
    }
}

/// The term of the factors gathered in `lhs`, which end at `at`, and the
/// factors that follow.
pub open spec fn term_more(
    pairs: Seq<Token>,
    at: int,
    lhs: Expr,
    lit: spec_fn(Seq<char>) -> Option<Number>,
) -> Climb
    decreases rest(pairs, at),
{
    match operator_of_level(pairs, at, 2) {
        Some(op) => {
            let rhs = factor(pairs, at + 1, lit);
            match rhs.result {
                Err(e) => Climb { result: Err(e), used: 0 },
                Ok(r) => {
                    let more = term_more(
                        pairs,
                        at + 1 + rhs.used,
                        Expr::Term(op, Box::new(lhs), Box::new(r)),
                        lit,
                    );
                    Climb { result: more.result, used: 1 + rhs.used + more.used }
                },
            }
        },
        None => Climb { result: Ok(lhs), used: 0 },
    }
}

/// The term at `at`.
pub open spec fn term(pairs: Seq<Token>, at: int, lit: spec_fn(Seq<char>) -> Option<Number>) -> Climb {
    let first = factor(pairs, at, lit);
    match first.result {
        Err(e) => Climb { result: Err(e), used: 0 },
        Ok(f) => {
            let more = term_more(pairs, at + first.used, f, lit);
            Climb { result: more.result, used: first.used + more.used }
        },
    }
}

/// The expression of the terms gathered in `lhs`, which end at `at`, and
/// the terms that follow.
pub open spec fn expr_more(
    pairs: Seq<Token>,
    at: int,
    lhs: Expr,
    lit: spec_fn(Seq<char>) -> Option<Number>,
) -> Climb
    decreases rest(pairs, at),
{
    match operator_of_level(pairs, at, 1) {
        Some(op) => {
            let rhs = term(pairs, at + 1, lit);
            match rhs.result {
                Err(e) => Climb { result: Err(e), used: 0 },
                Ok(r) => {
                    let more = expr_more(
                        pairs,
                        at + 1 + rhs.used,
                        Expr::Term(op, Box::new(lhs), Box::new(r)),
                        lit,
                    );
                    Climb { result: more.result, used: 1 + rhs.used + more.used }
                },
            }
        },
        None => Climb { result: Ok(lhs), used: 0 },
    }
}

/// The expression at `at`.
pub open spec fn expr(pairs: Seq<Token>, at: int, lit: spec_fn(Seq<char>) -> Option<Number>) -> Climb {
    let first = term(pairs, at, lit);
    match first.result {
        Err(e) => Climb { result: Err(e), used: 0 },
        Ok(t) => {
            let more = expr_more(pairs, at + first.used, t, lit);
            Climb { result: more.result, used: first.used + more.used }
        },
    }
}

/// Operands and operators alternate in `pairs`, from an operand to an
/// operand, and every operand has a meaning.
pub open spec fn alternating(pairs: Seq<Token>, lit: spec_fn(Seq<char>) -> Option<Number>) -> bool {
    &&& pairs.len() % 2 == 1
    &&& forall|i: int|
        0 <= i < pairs.len() && i % 2 == 0 ==> primary(#[trigger] pairs[i], lit) is Ok
    &&& forall|i: int|
        0 <= i < pairs.len() && i % 2 == 1 ==> operation_of((#[trigger] pairs[i]).rule) is Some
}

/// The layer of the grammar that holds the operators of precedence `min`
/// and tighter ones: what stands at `at`.
pub open spec fn layer(
    pairs: Seq<Token>,
    at: int,
    min: nat,
    lit: spec_fn(Seq<char>) -> Option<Number>,
) -> Climb {
    if min >= 3 {
        factor(pairs, at, lit)
    } else if min == 2 {
        term(pairs, at, lit)
    } else {
        expr(pairs, at, lit)
    }
}

/// What `lhs`, which ends at `at`, grows into in the layer of `min`.
pub open spec fn layer_more(
    pairs: Seq<Token>,
    at: int,
    min: nat,
    lhs: Expr,
    lit: spec_fn(Seq<char>) -> Option<Number>,
) -> Climb {
    let f = factor_more(pairs, at, lhs, lit);
    if min >= 3 {
        f
    } else {
        match f.result {
            Err(e) => f,
            Ok(x) => {
                let t = term_more(pairs, at + f.used, x, lit);
                let ft = Climb { result: t.result, used: f.used + t.used };
                if min == 2 {
                    ft
                } else {
                    match t.result {
                        Err(e) => ft,
                        Ok(y) => {
                            let e = expr_more(pairs, at + ft.used, y, lit);
                            Climb { result: e.result, used: ft.used + e.used }
                        },
                    }
                }
            },
        }
    }
}

/// The operator at `at`, if there is one, binds less tightly than `min`.
pub open spec fn stops(pairs: Seq<Token>, at: int, min: nat) -> bool {
    at == pairs.len() || (0 <= at < pairs.len() && at % 2 == 1 && precedence(
        operation_of(pairs[at].rule)->Some_0,
    ) < min)
}

proof fn climb_is_layer(
    pairs: Seq<Token>,
    at: int,
    min: nat,
    lit: spec_fn(Seq<char>) -> Option<Number>,
)
    requires
        alternating(pairs, lit),
        0 <= at < pairs.len(),
        at % 2 == 0,
        min <= 3,
    ensures
        climb(pairs, at, min, lit) == layer(pairs, at, min, lit),
        climb(pairs, at, min, lit).result is Ok,
        stops(pairs, at + climb(pairs, at, min, lit).used, min),
    decreases rest(pairs, at), 1nat,
{
    let atom = primary(pairs[at], lit)->Ok_0;
    climb_more_is_layer(pairs, at + 1, min, atom, lit);
}

#[verifier::rlimit(40)]
proof fn climb_more_is_layer(
    pairs: Seq<Token>,
    at: int,
    min: nat,
    lhs: Expr,
    lit: spec_fn(Seq<char>) -> Option<Number>,
)
    requires
        alternating(pairs, lit),
        1 <= at <= pairs.len(),
        at % 2 == 1,
        min <= 3,
    ensures
        climb_more(pairs, at, min, lhs, lit) == layer_more(pairs, at, min, lhs, lit),
        climb_more(pairs, at, min, lhs, lit).result is Ok,
        stops(pairs, at + climb_more(pairs, at, min, lhs, lit).used, min),
    decreases rest(pairs, at), 0nat,
{
    if at < pairs.len() && precedence(operation_of(pairs[at].rule)->Some_0) >= min {
        let op = operation_of(pairs[at].rule)->Some_0;
        let level = right_level(op);
        climb_is_layer(pairs, at + 1, level, lit);
        let rhs = climb(pairs, at + 1, level, lit);
        let next = at + 1 + rhs.used;
        let grown = Expr::Term(op, Box::new(lhs), Box::new(rhs.result->Ok_0));
        climb_more_is_layer(pairs, next, min, grown, lit);
    }
}

/// Precedence climbing is the grammar in layers: where operands and
/// operators alternate and every operand has a meaning, the operand that
/// the parser builds is the expression of the layered grammar, and it
/// holds all of the tokens.
pub proof fn climbing_is_the_layered_grammar(
    pairs: Seq<Token>,
    lit: spec_fn(Seq<char>) -> Option<Number>,
)
    requires
        alternating(pairs, lit),
    ensures
        operand(pairs, lit) == expr(pairs, 0, lit).result,
        operand(pairs, lit) is Ok,
        expr(pairs, 0, lit).used == pairs.len(),
{
    climb_is_layer(pairs, 0, 0, lit);
}

/// Of two operators in a row, the second binds first where it binds
/// tighter than the first, or as tightly and to the right; otherwise the
/// first binds first.
#[verifier::rlimit(40)]
pub proof fn second_operator_binds_first_if_tighter(
    pairs: Seq<Token>,
    lit: spec_fn(Seq<char>) -> Option<Number>,
)
    requires
        alternating(pairs, lit),
        pairs.len() == 5,
    ensures
        ({
            let a = primary(pairs[0], lit)->Ok_0;
            let b = primary(pairs[2], lit)->Ok_0;
            let c = primary(pairs[4], lit)->Ok_0;
            let first = operation_of(pairs[1].rule)->Some_0;
            let second = operation_of(pairs[3].rule)->Some_0;
            operand(pairs, lit) == Ok::<Expr, ParserErrorView>(
                if precedence(second) > precedence(first) || (precedence(second) == precedence(
                    first,
                ) && binds_to_the_right(first)) {
                    Expr::Term(
                        first,
                        Box::new(a),
                        Box::new(Expr::Term(second, Box::new(b), Box::new(c))),
                    )
                } else {
                    Expr::Term(
                        second,
                        Box::new(Expr::Term(first, Box::new(a), Box::new(b))),
                        Box::new(c),
                    )
                },
            )
        }),
{
    let a = primary(pairs[0], lit)->Ok_0;
    let b = primary(pairs[2], lit)->Ok_0;
    let c = primary(pairs[4], lit)->Ok_0;
    let first = operation_of(pairs[1].rule)->Some_0;
    let second = operation_of(pairs[3].rule)->Some_0;
    let last = climb(pairs, 4, right_level(second), lit);
    if precedence(second) >= right_level(first) {
        let inner = Expr::Term(second, Box::new(b), Box::new(c));
        assert(climb_more(pairs, 5, right_level(first), inner, lit) == (Climb {
            result: Ok(inner),
            used: 0,
        }));
        assert(climb(pairs, 2, right_level(first), lit) == (Climb {
            result: Ok(inner),
            used: 3,
        }));
        let whole = Expr::Term(first, Box::new(a), Box::new(inner));
        assert(climb_more(pairs, 5, 0, whole, lit) == (Climb { result: Ok(whole), used: 0 }));
    } else {
        let inner = Expr::Term(first, Box::new(a), Box::new(b));
        let whole = Expr::Term(second, Box::new(inner), Box::new(c));
        assert(climb_more(pairs, 5, 0, whole, lit) == (Climb { result: Ok(whole), used: 0 }));
        assert(climb_more(pairs, 3, 0, inner, lit) == (Climb { result: Ok(whole), used: 2 }));
    }
}

/// A line that holds a symbol and nothing else is the expression of that
/// symbol.
pub proof fn symbol_line_is_its_expression(
    a: Seq<char>,
    lit: spec_fn(Seq<char>) -> Option<Number>,
)
    requires
        is_symbol(a),
    ensures
        statement_of_line(a, lit) == Ok::<StatementView, ParserErrorView>(
            StatementView::Expression { op: Expr::Symbol(a) },
        ),
{
    line_of_a_symbol(a);
    let sym = leaf(Rule::Symbol, a, 0, a.len() as int);
    assert(sym.text =~= a);
}

/// The line `a := v` is the assignment to the symbol `a` of the number
/// that the reader of literals gives for `v`, or the refusal of `v` as a
/// number where it gives none.
#[verifier::rlimit(40)]
pub proof fn assignment_line_is_its_assignment(
    a: Seq<char>,
    v: Seq<char>,
    lit: spec_fn(Seq<char>) -> Option<Number>,
)
    requires
        is_symbol(a),
        is_number(v),
    ensures
        statement_of_line(assignment_line(a, v), lit) == match lit(v) {
            Some(n) => Ok::<StatementView, ParserErrorView>(
                StatementView::Assignment { sym: a, op: Expr::Number(n) },
            ),
            None => Err(ParserErrorView::InvalidNumber(v)),
        },
{
    line_of_an_assignment(a, v);
}

/// The token `p` is an expression of numbers: a number that the reader
/// of literals reads, or an expression in which such expressions and
/// operators alternate.
pub open spec fn numeric(p: Token, lit: spec_fn(Seq<char>) -> Option<Number>) -> bool
    decreases p, 0nat,
{
    match p.rule {
        Rule::Num => lit(p.text) is Some,
        Rule::Expr => p.inner.len() % 2 == 1 && numeric_upto(p.inner, p.inner.len(), lit),
        _ => false,
    }
}

/// Among the first `n` of `pairs`, expressions of numbers and operators
/// alternate.
pub open spec fn numeric_upto(
    pairs: Seq<Token>,
    n: nat,
    lit: spec_fn(Seq<char>) -> Option<Number>,
) -> bool
    decreases pairs, n,
{
    if n == 0 || n > pairs.len() {
        true
    } else {
        &&& numeric_upto(pairs, (n - 1) as nat, lit)
        &&& if (n - 1) % 2 == 0 {
            numeric(pairs[n - 1], lit)
        } else {
            operation_of(pairs[n - 1].rule) is Some
        }
    }
}

proof fn numeric_at(
    pairs: Seq<Token>,
    n: nat,
    i: int,
    lit: spec_fn(Seq<char>) -> Option<Number>,
)
    requires
        numeric_upto(pairs, n, lit),
        0 <= i < n <= pairs.len(),
    ensures
        i % 2 == 0 ==> numeric(pairs[i], lit),
        i % 2 == 1 ==> operation_of(pairs[i].rule) is Some,
    decreases n,
{
    if i < n - 1 {
        numeric_at(pairs, (n - 1) as nat, i, lit);
    }
}

/// Every operand of `pairs` that has a meaning means an expression of
/// numbers and operations.
spec fn operands_are_arithmetic(
    pairs: Seq<Token>,
    lit: spec_fn(Seq<char>) -> Option<Number>,
) -> bool {
    forall|i: int|
        0 <= i < pairs.len() && i % 2 == 0 && primary(#[trigger] pairs[i], lit) is Ok
            ==> arithmetic(primary(pairs[i], lit)->Ok_0)
}

proof fn climb_is_arithmetic(
    pairs: Seq<Token>,
    at: int,
    min: nat,
    lit: spec_fn(Seq<char>) -> Option<Number>,
)
    requires
        operands_are_arithmetic(pairs, lit),
        at % 2 == 0,
        0 <= at,
    ensures
        climb(pairs, at, min, lit).result matches Ok(e) ==> arithmetic(e),
        (at + climb(pairs, at, min, lit).used) % 2 == 1 || climb(pairs, at, min, lit).result
            is Err,
    decreases rest(pairs, at), 1nat,
{
    if at < pairs.len() {
        match primary(pairs[at], lit) {
            Ok(lhs) => {
                climb_more_is_arithmetic(pairs, at + 1, min, lhs, lit);
            },
            Err(_) => {},
        }
    }
}

proof fn climb_more_is_arithmetic(
    pairs: Seq<Token>,
    at: int,
    min: nat,
    lhs: Expr,
    lit: spec_fn(Seq<char>) -> Option<Number>,
)
    requires
        operands_are_arithmetic(pairs, lit),
        arithmetic(lhs),
        at % 2 == 1,
        0 <= at,
    ensures
        climb_more(pairs, at, min, lhs, lit).result matches Ok(e) ==> arithmetic(e),
        (at + climb_more(pairs, at, min, lhs, lit).used) % 2 == 1 || climb_more(
            pairs,
            at,
            min,
            lhs,
            lit,
        ).result is Err,
    decreases rest(pairs, at), 0nat,
{
    if at < pairs.len() {
        match operation_of(pairs[at].rule) {
            Some(op) => {
                if precedence(op) >= min {
                    climb_is_arithmetic(pairs, at + 1, right_level(op), lit);
                    let rhs = climb(pairs, at + 1, right_level(op), lit);
                    match rhs.result {
                        Ok(r) => {
                            climb_more_is_arithmetic(
                                pairs,
                                at + 1 + rhs.used,
                                min,
                                Expr::Term(op, Box::new(lhs), Box::new(r)),
                                lit,
                            );
                        },
                        Err(_) => {},
                    }
                }
            },
            None => {},
        }
    }
}

/// An expression of number literals means an expression of numbers and
/// operations: the one of the layered grammar, where the token is an
/// expression.
#[verifier::rlimit(40)]
pub proof fn numeric_token_is_arithmetic(p: Token, lit: spec_fn(Seq<char>) -> Option<Number>)
    requires
        numeric(p, lit),
    ensures
        primary(p, lit) is Ok,
        arithmetic(primary(p, lit)->Ok_0),
        p.rule == Rule::Expr ==> alternating(p.inner, lit) && primary(p, lit) == expr(
            p.inner,
            0,
            lit,
        ).result,
    decreases p,
{
    if p.rule == Rule::Expr {
        let pairs = p.inner;
        assert forall|i: int| 0 <= i < pairs.len() && i % 2 == 0 implies primary(
            #[trigger] pairs[i],
            lit,
        ) is Ok && arithmetic(primary(pairs[i], lit)->Ok_0) by {
            numeric_at(pairs, pairs.len(), i, lit);
            numeric_token_is_arithmetic(pairs[i], lit);
        }
        assert forall|i: int| 0 <= i < pairs.len() && i % 2 == 1 implies operation_of(
            (#[trigger] pairs[i]).rule,
        ) is Some by {
            numeric_at(pairs, pairs.len(), i, lit);
        }
        climbing_is_the_layered_grammar(pairs, lit);
        climb_is_arithmetic(pairs, 0, 0, lit);
    }
}

/// The only error of `r`, if it has one, is the refusal of a number.
pub open spec fn fails_on_numbers_only<T>(r: Result<T, ParserErrorView>) -> bool {
    r matches Err(e) ==> e is InvalidNumber
}

proof fn primary_fails_on_numbers_only(t: Token, lit: spec_fn(Seq<char>) -> Option<Number>)
    requires
        well_formed(t),
    ensures
        fails_on_numbers_only(primary(t, lit)),
    decreases t, 0nat, 0nat,
{
    match t.rule {
        Rule::Expr => {
            operand_fails_on_numbers_only(t.inner, lit);
        },
        Rule::FunCall => {
            arguments_fail_on_numbers_only(t.inner, t.inner.len(), lit);
        },
        _ => {},
    }
}

proof fn operand_fails_on_numbers_only(
    pairs: Seq<Token>,
    lit: spec_fn(Seq<char>) -> Option<Number>,
)
    requires
        pairs.len() % 2 == 1,
        well_formed_list(pairs, pairs.len()),
    ensures
        fails_on_numbers_only(operand(pairs, lit)),
    decreases pairs, pairs.len() + 1, 0nat,
{
    climb_fails_on_numbers_only(pairs, 0, 0, lit);
}

proof fn climb_fails_on_numbers_only(
    pairs: Seq<Token>,
    at: int,
    min: nat,
    lit: spec_fn(Seq<char>) -> Option<Number>,
)
    requires
        pairs.len() % 2 == 1,
        well_formed_list(pairs, pairs.len()),
        0 <= at < pairs.len(),
        at % 2 == 0,
    ensures
        fails_on_numbers_only(climb(pairs, at, min, lit).result),
        climb(pairs, at, min, lit).result is Ok ==> (at + climb(pairs, at, min, lit).used) % 2
            == 1 && at + climb(pairs, at, min, lit).used <= pairs.len(),
    decreases pairs, rest(pairs, at), 1nat,
{
    well_formed_list_at(pairs, pairs.len(), at);
    primary_fails_on_numbers_only(pairs[at], lit);
    match primary(pairs[at], lit) {
        Ok(lhs) => {
            climb_more_fails_on_numbers_only(pairs, at + 1, min, lhs, lit);
        },
        Err(_) => {},
    }
}

proof fn climb_more_fails_on_numbers_only(
    pairs: Seq<Token>,
    at: int,
    min: nat,
    lhs: Expr,
    lit: spec_fn(Seq<char>) -> Option<Number>,
)
    requires
        pairs.len() % 2 == 1,
        well_formed_list(pairs, pairs.len()),
        1 <= at <= pairs.len(),
        at % 2 == 1,
    ensures
        fails_on_numbers_only(climb_more(pairs, at, min, lhs, lit).result),
        climb_more(pairs, at, min, lhs, lit).result is Ok ==> (at + climb_more(
            pairs,
            at,
            min,
            lhs,
            lit,
        ).used) % 2 == 1 && at + climb_more(pairs, at, min, lhs, lit).used <= pairs.len(),
    decreases pairs, rest(pairs, at), 0nat,
{
    if at < pairs.len() {
        well_formed_list_at(pairs, pairs.len(), at);
        let op = operation_of(pairs[at].rule)->Some_0;
        if precedence(op) >= min {
            climb_fails_on_numbers_only(pairs, at + 1, right_level(op), lit);
            let rhs = climb(pairs, at + 1, right_level(op), lit);
            match rhs.result {
                Ok(r) => {
                    climb_more_fails_on_numbers_only(
                        pairs,
                        at + 1 + rhs.used,
                        min,
                        Expr::Term(op, Box::new(lhs), Box::new(r)),
                        lit,
                    );
                },
                Err(_) => {},
            }
        }
    }
}

proof fn arguments_fail_on_numbers_only(
    pairs: Seq<Token>,
    n: nat,
    lit: spec_fn(Seq<char>) -> Option<Number>,
)
    requires
        n <= pairs.len(),
        well_formed_arguments(pairs, n),
    ensures
        fails_on_numbers_only(arguments(pairs, n, lit)),
        n == pairs.len() && n >= 1 ==> fails_on_numbers_only(call(pairs, lit)),
    decreases pairs, n, 0nat,
{
    if n > 1 {
        arguments_fail_on_numbers_only(pairs, (n - 1) as nat, lit);
        let t = pairs[n - 1];
        assert(t.rule == Rule::Expr && well_formed(t));
        operand_fails_on_numbers_only(t.inner, lit);
    }
}

/// The parameters of a definition are all of its tokens but the first
/// and the last.
proof fn symbols_of_definition(pairs: Seq<Token>, at: int)
    requires
        1 <= at <= pairs.len() - 1,
        forall|i: int| 1 <= i < pairs.len() - 1 ==> (#[trigger] pairs[i]).rule == Rule::Symbol,
        pairs[pairs.len() - 1].rule == Rule::Expr,
    ensures
        at + symbols(pairs, at) == pairs.len() - 1,
    decreases pairs.len() - at,
{
    if at < pairs.len() - 1 {
        symbols_of_definition(pairs, at + 1);
    }
}

/// Tokens that have the form of a statement mean a statement, unless the
/// reader of literals refuses a number.
pub proof fn statement_fails_on_numbers_only(
    t: Token,
    rest: Seq<Token>,
    lit: spec_fn(Seq<char>) -> Option<Number>,
)
    requires
        well_formed_statement(t),
    ensures
        fails_on_numbers_only(statement_of(seq![t] + rest, lit)),
{
    match t.rule {
        Rule::Assignment => {
            operand_fails_on_numbers_only(t.inner[1].inner, lit);
        },
        Rule::SolveFor => {
            operand_fails_on_numbers_only(t.inner[0].inner, lit);
            operand_fails_on_numbers_only(t.inner[1].inner, lit);
        },
        Rule::Function => {
            symbols_of_definition(t.inner, 1);
            operand_fails_on_numbers_only(t.inner[t.inner.len() - 1].inner, lit);
        },
        Rule::Expr => {
            operand_fails_on_numbers_only(t.inner, lit);
        },
        _ => {},
    }
}

/// What can be wrong with a line: it is no statement of the grammar, or
/// the reader of literals refuses one of its numbers. The tokens of the
/// grammar have the form that the parser expects, so that none of its
/// other errors arises from text.
pub proof fn errors_of_a_line(s: Seq<char>, lit: spec_fn(Seq<char>) -> Option<Number>)
    ensures
        statement_of_line(s, lit) matches Err(e) ==> e == ParserErrorView::InvalidExpression(s)
            || e is InvalidNumber,
{
    statement_is_well_formed(s);
    match statement(s) {
        Some(tokens) => {
            statement_fails_on_numbers_only(tokens[0], seq![tokens[1]], lit);
        },
        None => {},
    }
}

} // verus!

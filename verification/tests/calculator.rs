use rust_expression::ast::{Number, Operation, Primitive, Statement, Operand, Transform};
use rust_expression::calc::CalcError;
use rust_expression::parser::ParserError;
use rust_expression::solver::SolverError;
use rust_expression::{Calculator, Error, Value};

fn num(x: f64) -> Number {
    Number::from_bits(x.to_bits())
}

fn val(n: Number) -> f64 {
    f64::from_bits(n.to_bits())
}

fn read(text: &str) -> Option<Number> {
    text.parse::<f64>().ok().map(num)
}

fn unit(p: Primitive) -> Number {
    match p {
        Primitive::Binary(op, a, b) => {
            let (a, b) = (val(a), val(b));
            num(match op {
                Operation::Add => a + b,
                Operation::Sub => a - b,
                Operation::Mul => a * b,
                Operation::Div => a / b,
                Operation::Rem => a % b,
                Operation::Pow => a.powf(b),
            })
        }
        Primitive::Unary(transform, x) => {
            let x = val(x);
            num(match transform {
                Transform::Abs => x.abs(),
                Transform::Sqrt => x.sqrt(),
                Transform::Sin => x.sin(),
                Transform::Sinh => x.sinh(),
                Transform::Cos => x.cos(),
                Transform::Cosh => x.cosh(),
                Transform::Tan => x.tan(),
                Transform::Tanh => x.tanh(),
                Transform::Exp => x.exp(),
                Transform::Ln => x.ln(),
                Transform::Log2 => x.log2(),
                Transform::Log10 => x.log10(),
                Transform::Atan => x.atan(),
                Transform::Atanh => x.atanh(),
                Transform::Asin => x.asin(),
                Transform::Asinh => x.asinh(),
                Transform::Acos => x.acos(),
                Transform::Acosh => x.acosh(),
            })
        }
    }
}

fn calculator() -> Calculator<fn(&str) -> Option<Number>, fn(Primitive) -> Number> {
    Calculator::new(read as fn(&str) -> Option<Number>, unit as fn(Primitive) -> Number)
}

#[test]
fn simple_calc() {
    let mut calc = calculator();
    assert_eq!(Ok(Value::Number(num(3.0))), calc.execute("1 + 2"));
}

#[test]
fn simple_assign() {
    let mut calc = calculator();
    assert_eq!(Ok(Value::Void), calc.execute("a := 1"));
    assert_eq!(Ok(Value::Number(num(1.0))), calc.execute("a"));
}

#[test]
fn simple_function() {
    let mut calc = calculator();
    assert_eq!(Ok(Value::Void), calc.execute("fun(x, y) := y - x"));
    assert_eq!(
        Ok(Value::Number(num(20.0))),
        calc.execute("fun(1 + 2, 3 * 9) - 4")
    );
}

#[test]
fn simple_solve_for() {
    let mut calc = calculator();
    assert_eq!(
        Ok(Value::Solved {
            variable: "y".to_string(),
            value: num(4.0)
        }),
        calc.execute("solve 3 * y - 2 = y + 6 for y")
    );
}

#[test]
fn simple_plot() {
    let mut calc = calculator();
    assert_eq!(Ok(Value::Void), calc.execute("f(x) := x ^ 2"));
    let graph = calc.execute("plot f").unwrap();
    assert!(matches!(&graph, Value::PlotRequest(name) if name == "f"));
    assert!(calc.env().get_fun("f").is_some());
}

#[test]
fn statements_of_a_session() {
    let mut calc = calculator();
    assert_eq!(Ok(Value::Void), calc.execute("a := 6"));
    assert_eq!(Ok(Value::Number(num(36.0))), calc.execute("a ^ 2"));
    assert_eq!(
        Ok(Value::Solved { variable: "x".to_string(), value: num(4.0) }),
        calc.execute("solve 3 * x - 2 = x + a for x")
    );
    assert_eq!(Ok(Value::Void), calc.execute("fun(x, y) := y - x"));
    assert_eq!(Ok(Value::Number(num(2.0))), calc.execute("fun(1.5 * 2, 3 + a) - 4"));
}

#[test]
fn value_of_an_expression_follows_precedence() {
    let mut calc = calculator();
    assert_eq!(Ok(Value::Number(num(7.0))), calc.execute("1 + 2 * 3"));
    assert_eq!(Ok(Value::Number(num(9.0))), calc.execute("(1 + 2) * 3"));
    assert_eq!(Ok(Value::Number(num(-4.0))), calc.execute("1 - 2 - 3"));
    assert_eq!(Ok(Value::Number(num(512.0))), calc.execute("2 ^ 3 ^ 2"));
    assert_eq!(Ok(Value::Number(num(18.0))), calc.execute("2 * 3 ^ 2"));
    assert_eq!(Ok(Value::Number(num(1.0))), calc.execute("8 / 4 / 2"));
    assert_eq!(Ok(Value::Number(num(2.5))), calc.execute("7.5 % 5"));
    assert_eq!(Ok(Value::Number(num(0.1 + 0.2))), calc.execute("0.1 + 0.2"));
}

#[test]
fn assignment_then_read_gives_the_value() {
    for text in ["0", "-0", "1", "-17.25", "1e308", "4.9e-324", "0.1"] {
        let mut calc = calculator();
        assert_eq!(Ok(Value::Void), calc.execute(&format!("a := {}", text)));
        assert_eq!(
            Ok(Value::Number(num(text.parse::<f64>().unwrap()))),
            calc.execute("a")
        );
    }
}

#[test]
fn assigning_the_same_value_twice_reads_the_same() {
    let mut calc = calculator();
    assert_eq!(Ok(Value::Void), calc.execute("a := 2.5"));
    let once = calc.execute("a");
    assert_eq!(Ok(Value::Void), calc.execute("a := 2.5"));
    assert_eq!(once, calc.execute("a"));
    assert_eq!(Ok(Value::Number(num(2.5))), once);
}

#[test]
fn constants_cannot_be_assigned() {
    let mut calc = calculator();
    assert_eq!(
        Err(Error::CalcError(CalcError::CannotChangeConstant("e".to_string()))),
        calc.execute("e := 3")
    );
    assert_eq!(Ok(Value::Number(num(std::f64::consts::E))), calc.execute("e"));
    assert_eq!(
        Err(Error::CalcError(CalcError::CannotChangeConstant("pi".to_string()))),
        calc.execute("pi := pi")
    );
    assert_eq!(Ok(Value::Number(num(std::f64::consts::PI))), calc.execute("pi"));
}

#[test]
fn failed_assignment_leaves_the_variable() {
    let mut calc = calculator();
    assert_eq!(Ok(Value::Void), calc.execute("a := 1"));
    assert_eq!(
        Err(Error::CalcError(CalcError::UnknownSymbol("b".to_string()))),
        calc.execute("a := b + 1")
    );
    assert_eq!(Ok(Value::Number(num(1.0))), calc.execute("a"));
    assert_eq!(
        Err(Error::CalcError(CalcError::UnknownSymbol("c".to_string()))),
        calc.execute("c := c")
    );
    assert_eq!(None, calc.env().get("c"));
}

#[test]
fn unknown_names_are_echoed() {
    let mut calc = calculator();
    assert_eq!(
        Err(Error::CalcError(CalcError::UnknownSymbol("some_Name_1".to_string()))),
        calc.execute("1 + some_Name_1")
    );
    assert_eq!(
        Err(Error::CalcError(CalcError::UnknownFunction("some_Fun_2".to_string()))),
        calc.execute("some_Fun_2(1) * 2")
    );
    assert_eq!(
        Err(Error::SolverError(SolverError::UnknownVariable("q".to_string()))),
        calc.execute("solve x = q for x")
    );
}

#[test]
fn errors_of_each_stage() {
    let mut calc = calculator();
    assert_eq!(
        Err(Error::ParserError(ParserError::InvalidExpression("1 +".to_string()))),
        calc.execute("1 +")
    );
    assert_eq!(
        Err(Error::SolverError(SolverError::UnsupportedXSquare)),
        calc.execute("solve x*x = 4 for x")
    );
    assert_eq!(
        Err(Error::SolverError(SolverError::UnsupportedXDenominator)),
        calc.execute("solve 1/x = 2 for x")
    );
    assert_eq!(
        Err(Error::CalcError(CalcError::UnexpectedNumberOfParameters {
            name: "cos".to_string(),
            act: 2,
            exp: 1
        })),
        calc.execute("cos(1, 2)")
    );
}

#[test]
fn solved_equations_of_the_session() {
    let mut calc = calculator();
    assert_eq!(
        Ok(Value::Solved { variable: "x".to_string(), value: num(4.0) }),
        calc.execute("solve 3*x - 2 = x + 6 for x")
    );
    assert_eq!(
        Ok(Value::Solved { variable: "x".to_string(), value: num(1.5) }),
        calc.execute("solve 5 + 2*x + 12 = 22 - 6*x + 7 for x")
    );
    assert_eq!(
        Ok(Value::Solved { variable: "x".to_string(), value: num(10.0) }),
        calc.execute("solve x = 10 for x")
    );
    assert_eq!(None, calc.env().get("x"));
}

#[test]
fn parameters_shadow_and_callers_are_hidden() {
    let mut calc = calculator();
    assert_eq!(Ok(Value::Void), calc.execute("x := 100"));
    assert_eq!(Ok(Value::Void), calc.execute("id(x) := x"));
    assert_eq!(Ok(Value::Number(num(7.0))), calc.execute("id(7)"));
    assert_eq!(Ok(Value::Number(num(100.0))), calc.execute("x"));
    assert_eq!(Ok(Value::Void), calc.execute("peek(a) := hidden"));
    assert_eq!(Ok(Value::Void), calc.execute("outer(hidden) := peek(hidden)"));
    assert_eq!(
        Err(Error::CalcError(CalcError::UnknownSymbol("hidden".to_string()))),
        calc.execute("outer(1)")
    );
}

#[test]
fn definition_keeps_the_variables_of_its_moment() {
    let mut calc = calculator();
    assert_eq!(Ok(Value::Void), calc.execute("a := 1"));
    assert_eq!(Ok(Value::Void), calc.execute("f(x) := x + a"));
    assert_eq!(Ok(Value::Void), calc.execute("a := 10"));
    assert_eq!(Ok(Value::Number(num(3.0))), calc.execute("f(2)"));
    assert_eq!(Ok(Value::Number(num(11.0))), calc.execute("f(a)"));
    assert_eq!(Ok(Value::Void), calc.execute("f(x) := x + a"));
    assert_eq!(Ok(Value::Number(num(12.0))), calc.execute("f(2)"));
}

#[test]
fn built_ins_and_constants_of_a_new_session() {
    let mut calc = calculator();
    assert_eq!(Ok(Value::Number(num(1.0))), calc.execute("cos(0)"));
    assert_eq!(Ok(Value::Number(num(3.0))), calc.execute("sqrt(9)"));
    assert_eq!(Ok(Value::Number(num(std::f64::consts::PI.sin()))), calc.execute("sin(pi)"));
    assert_eq!(Ok(Value::Number(num(1.0))), calc.execute("ln(e)"));
    assert_eq!(Ok(Value::Number(num(std::f64::consts::TAU))), calc.execute("tau"));
}

#[test]
fn try_execute_refuses_recursion_and_changes_nothing() {
    let mut calc = calculator();
    assert_eq!(Some(Ok(Value::Void)), calc.try_execute("r(x) := r(x) + 1"));
    assert_eq!(None, calc.try_execute("r(1)"));
    assert_eq!(None, calc.try_execute("a := r(1)"));
    assert_eq!(None, calc.try_execute("solve x = r(1) for x"));
    assert_eq!(None, calc.env().get("a"));
    assert_eq!(Some(Ok(Value::Number(num(3.0)))), calc.try_execute("1 + 2"));
    assert_eq!(Some(Ok(Value::PlotRequest("r".to_string()))), calc.try_execute("plot r"));
    assert_eq!(
        Some(Err(Error::ParserError(ParserError::InvalidExpression("r(".to_string())))),
        calc.try_execute("r(")
    );
    assert_eq!(Some(Ok(Value::Void)), calc.try_execute("r(x) := x"));
    assert_eq!(Some(Ok(Value::Number(num(1.0)))), calc.try_execute("r(1)"));
}

#[test]
fn execute_statement_and_admits() {
    let mut calc = calculator();
    let st = Statement::Assignment { sym: "a".to_string(), op: Operand::Number(num(2.0)) };
    assert!(calc.admits(&st));
    assert_eq!(Ok(Value::Void), calc.execute_statement(st));
    let st = Statement::Expression { op: Operand::Symbol("a".to_string()) };
    assert_eq!(Ok(Value::Number(num(2.0))), calc.execute_statement(st));
    let st = Statement::Plot { name: "nothing".to_string() };
    assert_eq!(Ok(Value::PlotRequest("nothing".to_string())), calc.execute_statement(st));
}

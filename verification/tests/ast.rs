use rust_expression::ast::{
    CustomFunction, Function, Number, Operand, Operation, Term,
};

fn num(x: f64) -> Number {
    Number::from_bits(x.to_bits())
}

fn create_term() -> Term {
    let lhs = Operand::Number(num(1.0));
    let rhs = Operand::Number(num(1.0));
    let op = Operation::Add;
    Term { op, lhs, rhs }
}

#[test]
fn operand_is_symbol() {
    assert!(Operand::Symbol("x".to_string()).is_symbol("x"));
}

#[test]
fn operand_is_not_symbol() {
    assert!(!Operand::Symbol("y".to_string()).is_symbol("x"));
    assert!(!Operand::Number(num(1.0)).is_symbol("x"));
    assert!(!Operand::Term(Box::new(create_term())).is_symbol("x"));
}

#[test]
fn operand_is_not_a_longer_or_shorter_symbol() {
    assert!(!Operand::Symbol("xy".to_string()).is_symbol("x"));
    assert!(!Operand::Symbol("x".to_string()).is_symbol("xy"));
    assert!(!Operand::Symbol("x".to_string()).is_symbol(""));
}

#[test]
fn number_keeps_its_bits() {
    assert_eq!(0x4009_21FB_5444_2D18, Number::from_bits(0x4009_21FB_5444_2D18).to_bits());
    assert_eq!(1.0f64.to_bits(), Number::one().to_bits());
    assert_eq!(0.0f64.to_bits(), Number::zero().to_bits());
}

#[test]
fn number_is_zero_for_both_zeros_only() {
    assert!(num(0.0).is_zero());
    assert!(num(-0.0).is_zero());
    assert!(!num(1.0).is_zero());
    assert!(!num(f64::NAN).is_zero());
    assert!(!num(f64::MIN_POSITIVE).is_zero());
    assert!(!num(5e-324).is_zero());
}

#[test]
fn operand_copy_is_equal() {
    let call = Operand::FunCall(rust_expression::ast::FunCall {
        name: "f".to_string(),
        params: vec![
            Operand::Term(Box::new(create_term())),
            Operand::Symbol("x".to_string()),
        ],
    });
    assert_eq!(call, call.clone());
    let term = Operand::Term(Box::new(create_term()));
    assert_eq!(term, term.clone());
}

#[test]
fn arithmetic_operands_hold_numbers_and_operations_only() {
    assert!(Operand::Number(num(1.0)).is_arithmetic());
    assert!(Operand::Term(Box::new(create_term())).is_arithmetic());
    assert!(!Operand::Symbol("x".to_string()).is_arithmetic());
    let mixed = Term {
        op: Operation::Mul,
        lhs: Operand::Term(Box::new(create_term())),
        rhs: Operand::Symbol("x".to_string()),
    };
    assert!(!Operand::Term(Box::new(mixed)).is_arithmetic());
    let call = Operand::FunCall(rust_expression::ast::FunCall {
        name: "f".to_string(),
        params: vec![],
    });
    assert!(!call.is_arithmetic());
}

#[test]
fn function_default_is_constant_one() {
    let expected = Function::Custom(CustomFunction {
        args: Vec::new(),
        body: Operand::Number(num(1.0)),
    });
    assert_eq!(expected, Function::default());
    assert_eq!(expected, expected.clone());
}

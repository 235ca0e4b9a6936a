use rust_expression::ast::{
    BuildInFunction, CustomFunction, FunCall, Function, Number, Operand, Operation, Primitive,
    Term, Transform,
};
use rust_expression::calc::{
    calc_function_call, calc_operand, calc_term, calc_with_arguments, CalcError, TopLevelEnv,
    MAX_CALL_DEPTH,
};

fn num(x: f64) -> Number {
    Number::from_bits(x.to_bits())
}

fn val(n: Number) -> f64 {
    f64::from_bits(n.to_bits())
}

fn unit(p: Primitive) -> Number {
    match p {
        Primitive::Binary(op, a, b) => {
            let (a, b) = (val(a), val(b));
            num(match op {
                Operation::Add => a + b,
                Operation::Sub => a - b,
                Operation::Mul => a * b,
                Operation::Div => a / b,
                Operation::Rem => a % b,
                Operation::Pow => a.powf(b),
            })
        }
        Primitive::Unary(transform, x) => {
            let x = val(x);
            num(match transform {
                Transform::Abs => x.abs(),
                Transform::Sqrt => x.sqrt(),
                Transform::Sin => x.sin(),
                Transform::Sinh => x.sinh(),
                Transform::Cos => x.cos(),
                Transform::Cosh => x.cosh(),
                Transform::Tan => x.tan(),
                Transform::Tanh => x.tanh(),
                Transform::Exp => x.exp(),
                Transform::Ln => x.ln(),
                Transform::Log2 => x.log2(),
                Transform::Log10 => x.log10(),
                Transform::Atan => x.atan(),
                Transform::Atanh => x.atanh(),
                Transform::Asin => x.asin(),
                Transform::Asinh => x.asinh(),
                Transform::Acos => x.acos(),
                Transform::Acosh => x.acosh(),
            })
        }
    }
}

#[test]
fn read_env_empty() {
    let env = TopLevelEnv::default();

    assert_eq!(None, env.get("x"));
}

#[test]
fn read_env_var() {
    let mut env = TopLevelEnv::default();
    env.put("x".to_string(), num(12.0)).unwrap();

    assert_eq!(Some(&num(12.0)), env.get("x"));
}

#[test]
fn calc_number_atom() {
    assert_eq!(
        Ok(num(12.0)),
        calc_operand(&Operand::Number(num(12.0)), &TopLevelEnv::default(), &unit)
    );
}

#[test]
fn calc_sym_unknown() {
    assert_eq!(
        Err(CalcError::UnknownSymbol("x".to_string())),
        calc_operand(&Operand::Symbol("x".to_string()), &TopLevelEnv::default(), &unit)
    );
}

#[test]
fn calc_sym_known() {
    let mut env = TopLevelEnv::default();
    env.put("x".to_string(), num(12.0)).unwrap();
    assert_eq!(
        Ok(num(12.0)),
        calc_operand(&Operand::Symbol("x".to_string()), &env, &unit)
    );
}

#[test]
fn calc_sym_constant() {
    let mut env = TopLevelEnv::default();
    assert!(
        matches!(env.put("e".to_string(), num(2.0)), Err(CalcError::CannotChangeConstant(sym)) if sym == "e")
    );
}

#[test]
fn calc_term_add() {
    let lhs = Operand::Number(num(3.0));
    let rhs = Operand::Number(num(4.0));
    let op = Operation::Add;
    assert_eq!(
        Ok(num(7.0)),
        calc_term(&Term { op, lhs, rhs }, &TopLevelEnv::default(), &unit)
    );
}

#[test]
fn calc_term_sub() {
    let lhs = Operand::Number(num(3.0));
    let rhs = Operand::Number(num(4.0));
    let op = Operation::Sub;
    assert_eq!(
        Ok(num(-1.0)),
        calc_term(&Term { op, lhs, rhs }, &TopLevelEnv::default(), &unit)
    );
}

#[test]
fn calc_term_mul() {
    let lhs = Operand::Number(num(3.0));
    let rhs = Operand::Number(num(4.0));
    let op = Operation::Mul;
    assert_eq!(
        Ok(num(12.0)),
        calc_term(&Term { op, lhs, rhs }, &TopLevelEnv::default(), &unit)
    );
}

#[test]
fn calc_term_div() {
    let lhs = Operand::Number(num(12.0));
    let rhs = Operand::Number(num(4.0));
    let op = Operation::Div;
    assert_eq!(
        Ok(num(3.0)),
        calc_term(&Term { op, lhs, rhs }, &TopLevelEnv::default(), &unit)
    );
}

#[test]
fn calc_term_rem() {
    let lhs = Operand::Number(num(14.0));
    let rhs = Operand::Number(num(4.0));
    let op = Operation::Rem;
    assert_eq!(
        Ok(num(2.0)),
        calc_term(&Term { op, lhs, rhs }, &TopLevelEnv::default(), &unit)
    );
}

#[test]
fn calc_term_pow() {
    let lhs = Operand::Number(num(3.0));
    let rhs = Operand::Number(num(4.0));
    let op = Operation::Pow;
    assert_eq!(
        Ok(num(81.0)),
        calc_term(&Term { op, lhs, rhs }, &TopLevelEnv::default(), &unit)
    );
}

#[test]
fn calc_equation_simple() {
    let op = Operand::Number(num(3.0));
    assert_eq!(Ok(num(3.0)), calc_operand(&op, &TopLevelEnv::default(), &unit));
}

#[test]
fn calc_simple_function_call() {
    let lhs = Operand::Symbol("x".to_string());
    let rhs = Operand::Symbol("y".to_string());
    let op = Operation::Add;
    let function = Function::Custom(CustomFunction {
        args: vec!["x".to_string(), "y".to_string()],
        body: Operand::Term(Box::new(Term { lhs, rhs, op })),
    });
    let mut env = TopLevelEnv::empty();
    env.put_fun("fun".to_string(), function);
    let expr = Operand::FunCall(FunCall {
        name: "fun".to_string(),
        params: vec![Operand::Number(num(4.0)), Operand::Number(num(3.0))],
    });
    assert_eq!(Ok(num(7.0)), calc_operand(&expr, &env, &unit));
}

#[test]
fn calc_buildinfunction_call() {
    let function = Function::BuildIn(BuildInFunction {
        name: "cos".to_string(),
        arg: "x".to_string(),
        body: Transform::Cos,
    });
    let mut env = TopLevelEnv::empty();
    env.put_fun("cos".to_string(), function);
    let expr = Operand::FunCall(FunCall {
        name: "cos".to_string(),
        params: vec![Operand::Number(num(0.))],
    });
    assert_eq!(Ok(num(1.0)), calc_operand(&expr, &env, &unit));
}

#[test]
fn top_level_env_build_ins() {
    let env = TopLevelEnv::default();
    assert!(env.get_fun("sin").is_some());
    assert!(env.get_fun("cos").is_some());
}

#[test]
fn function_arg_x() {
    let mut env = TopLevelEnv::default();
    env.put("x".to_string(), num(-19.0)).unwrap();
    let names = vec!["x".to_string()];
    let values = vec![num(42.0)];
    assert_eq!(
        Ok(num(42.0)),
        calc_with_arguments(&Operand::Symbol("x".to_string()), &names, &values, &env, &unit)
    );
}

#[test]
fn function_arg_y() {
    let mut env = TopLevelEnv::default();
    env.put("y".to_string(), num(-19.0)).unwrap();
    let names = vec!["x".to_string()];
    let values = vec![num(42.0)];
    assert_eq!(
        Ok(num(-19.0)),
        calc_with_arguments(&Operand::Symbol("y".to_string()), &names, &values, &env, &unit)
    );
}

#[test]
fn function_call() {
    let body = Operand::Symbol("x".to_string());
    let env = TopLevelEnv::default();
    let names = vec!["x".to_string()];
    let values = vec![num(1.0)];
    assert_eq!(Ok(num(1.0)), calc_with_arguments(&body, &names, &values, &env, &unit));
}

fn call(name: &str, params: Vec<Operand>) -> Operand {
    Operand::FunCall(FunCall { name: name.to_string(), params })
}

fn symbol(name: &str) -> Operand {
    Operand::Symbol(name.to_string())
}

fn custom(args: &[&str], body: Operand) -> Function {
    Function::Custom(CustomFunction { args: args.iter().map(|a| a.to_string()).collect(), body })
}

#[test]
fn default_constants_are_those_of_binary64() {
    let env = TopLevelEnv::default();
    let expected: [(&str, f64); 19] = [
        ("e", std::f64::consts::E),
        ("frac_1_pi", std::f64::consts::FRAC_1_PI),
        ("frac_1_sqrt_2", std::f64::consts::FRAC_1_SQRT_2),
        ("frac_2_pi", std::f64::consts::FRAC_2_PI),
        ("frac_2_sqrt_pi", std::f64::consts::FRAC_2_SQRT_PI),
        ("frac_pi_2", std::f64::consts::FRAC_PI_2),
        ("frac_pi_3", std::f64::consts::FRAC_PI_3),
        ("frac_pi_4", std::f64::consts::FRAC_PI_4),
        ("frac_pi_6", std::f64::consts::FRAC_PI_6),
        ("frac_pi_8", std::f64::consts::FRAC_PI_8),
        ("ln_2", std::f64::consts::LN_2),
        ("ln_10", std::f64::consts::LN_10),
        ("log2_10", std::f64::consts::LOG2_10),
        ("log2_e", std::f64::consts::LOG2_E),
        ("log10_2", std::f64::consts::LOG10_2),
        ("log10_e", std::f64::consts::LOG10_E),
        ("pi", std::f64::consts::PI),
        ("sqrt_2", std::f64::consts::SQRT_2),
        ("tau", std::f64::consts::TAU),
    ];
    for (name, value) in expected {
        assert_eq!(Some(&num(value)), env.get(name), "{}", name);
    }
    assert_eq!(None, env.get("PI"));
}

#[test]
fn every_default_constant_is_protected() {
    let names = [
        "e", "frac_1_pi", "frac_1_sqrt_2", "frac_2_pi", "frac_2_sqrt_pi", "frac_pi_2",
        "frac_pi_3", "frac_pi_4", "frac_pi_6", "frac_pi_8", "ln_2", "ln_10", "log2_10",
        "log2_e", "log10_2", "log10_e", "pi", "sqrt_2", "tau",
    ];
    for name in names {
        let mut env = TopLevelEnv::default();
        let before = *env.get(name).unwrap();
        assert_eq!(
            Err(CalcError::CannotChangeConstant(name.to_string())),
            env.put(name.to_string(), num(1.0))
        );
        assert_eq!(Some(&before), env.get(name));
    }
}

#[test]
fn default_functions_are_the_eighteen_built_ins() {
    let env = TopLevelEnv::default();
    let expected = [
        ("abs", Transform::Abs), ("sqrt", Transform::Sqrt), ("sin", Transform::Sin),
        ("sinh", Transform::Sinh), ("cos", Transform::Cos), ("cosh", Transform::Cosh),
        ("tan", Transform::Tan), ("tanh", Transform::Tanh), ("exp", Transform::Exp),
        ("ln", Transform::Ln), ("log2", Transform::Log2), ("log10", Transform::Log10),
        ("atan", Transform::Atan), ("atanh", Transform::Atanh), ("asin", Transform::Asin),
        ("asinh", Transform::Asinh), ("acos", Transform::Acos), ("acosh", Transform::Acosh),
    ];
    for (name, transform) in expected {
        let function = Function::BuildIn(BuildInFunction {
            name: name.to_string(),
            arg: "x".to_string(),
            body: transform,
        });
        assert_eq!(Some(&function), env.get_fun(name), "{}", name);
    }
    assert_eq!(None, env.get_fun("fun"));
}

#[test]
fn built_in_applies_its_transform() {
    let env = TopLevelEnv::default();
    let expr = call("sqrt", vec![Operand::Number(num(16.0))]);
    assert_eq!(Ok(num(4.0)), calc_operand(&expr, &env, &unit));
    let expr = call("abs", vec![Operand::Number(num(-2.5))]);
    assert_eq!(Ok(num(2.5)), calc_operand(&expr, &env, &unit));
}

#[test]
fn put_twice_reads_the_last_value() {
    let mut env = TopLevelEnv::default();
    env.put("a".to_string(), num(1.0)).unwrap();
    env.put("b".to_string(), num(5.0)).unwrap();
    env.put("a".to_string(), num(2.0)).unwrap();
    assert_eq!(Some(&num(2.0)), env.get("a"));
    assert_eq!(Some(&num(5.0)), env.get("b"));
    env.put("a".to_string(), num(2.0)).unwrap();
    assert_eq!(Some(&num(2.0)), env.get("a"));
}

#[test]
fn put_fun_overwrites() {
    let mut env = TopLevelEnv::default();
    env.put_fun("f".to_string(), custom(&["x"], symbol("x")));
    env.put_fun("f".to_string(), custom(&[], Operand::Number(num(3.0))));
    assert_eq!(Some(&custom(&[], Operand::Number(num(3.0)))), env.get_fun("f"));
    assert_eq!(Ok(num(3.0)), calc_operand(&call("f", vec![]), &env, &unit));
    env.put_fun("sin".to_string(), custom(&["x"], symbol("x")));
    assert_eq!(
        Ok(num(9.0)),
        calc_operand(&call("sin", vec![Operand::Number(num(9.0))]), &env, &unit)
    );
}

#[test]
fn copy_of_environment_is_equal_and_independent() {
    let mut env = TopLevelEnv::default();
    env.put("a".to_string(), num(1.0)).unwrap();
    env.put_fun("f".to_string(), custom(&["x"], symbol("x")));
    let copy = env.clone();
    assert_eq!(env, copy);
    env.put("a".to_string(), num(2.0)).unwrap();
    assert_eq!(Some(&num(1.0)), copy.get("a"));
}

#[test]
fn unknown_function_is_named() {
    let env = TopLevelEnv::default();
    assert_eq!(
        Err(CalcError::UnknownFunction("nope".to_string())),
        calc_operand(&call("nope", vec![symbol("also_unknown")]), &env, &unit)
    );
    assert_eq!(
        Err(CalcError::UnknownFunction("nope".to_string())),
        calc_function_call(
            &FunCall { name: "nope".to_string(), params: vec![] },
            &env,
            &unit
        )
    );
}

#[test]
fn wrong_number_of_parameters_for_built_in() {
    let env = TopLevelEnv::default();
    assert_eq!(
        Err(CalcError::UnexpectedNumberOfParameters { name: "sin".to_string(), act: 2, exp: 1 }),
        calc_operand(
            &call("sin", vec![Operand::Number(num(1.0)), symbol("unknown")]),
            &env,
            &unit
        )
    );
    assert_eq!(
        Err(CalcError::UnexpectedNumberOfParameters { name: "sin".to_string(), act: 0, exp: 1 }),
        calc_operand(&call("sin", vec![]), &env, &unit)
    );
}

#[test]
fn wrong_number_of_parameters_for_custom_function() {
    let mut env = TopLevelEnv::default();
    env.put_fun("f".to_string(), custom(&["x", "y"], symbol("x")));
    assert_eq!(
        Err(CalcError::UnexpectedNumberOfParameters { name: "f".to_string(), act: 1, exp: 2 }),
        calc_operand(&call("f", vec![symbol("unknown")]), &env, &unit)
    );
}

#[test]
fn errors_come_from_left_to_right() {
    let env = TopLevelEnv::default();
    let term = Term { op: Operation::Add, lhs: symbol("a"), rhs: symbol("b") };
    assert_eq!(Err(CalcError::UnknownSymbol("a".to_string())), calc_term(&term, &env, &unit));
    let mut env = TopLevelEnv::default();
    env.put_fun("f".to_string(), custom(&["x", "y"], symbol("x")));
    assert_eq!(
        Err(CalcError::UnknownSymbol("a".to_string())),
        calc_operand(&call("f", vec![symbol("a"), symbol("b")]), &env, &unit)
    );
    assert_eq!(
        Err(CalcError::UnknownSymbol("b".to_string())),
        calc_operand(&call("f", vec![Operand::Number(num(1.0)), symbol("b")]), &env, &unit)
    );
}

#[test]
fn parameter_shadows_variable_of_the_same_name() {
    let mut env = TopLevelEnv::default();
    env.put("x".to_string(), num(100.0)).unwrap();
    env.put_fun("f".to_string(), custom(&["x"], symbol("x")));
    assert_eq!(
        Ok(num(7.0)),
        calc_operand(&call("f", vec![Operand::Number(num(7.0))]), &env, &unit)
    );
    assert_eq!(Ok(num(100.0)), calc_operand(&symbol("x"), &env, &unit));
}

#[test]
fn body_does_not_see_the_arguments_of_its_caller() {
    let mut env = TopLevelEnv::default();
    env.put_fun("inner".to_string(), custom(&["a"], symbol("x")));
    env.put_fun("outer".to_string(), custom(&["x"], call("inner", vec![symbol("x")])));
    assert_eq!(
        Err(CalcError::UnknownSymbol("x".to_string())),
        calc_operand(&call("outer", vec![Operand::Number(num(1.0))]), &env, &unit)
    );
}

#[test]
fn arguments_are_evaluated_where_the_call_stands() {
    let mut env = TopLevelEnv::default();
    env.put_fun("inner".to_string(), custom(&["a"], symbol("a")));
    env.put_fun("outer".to_string(), custom(&["x"], call("inner", vec![symbol("x")])));
    assert_eq!(
        Ok(num(5.0)),
        calc_operand(&call("outer", vec![Operand::Number(num(5.0))]), &env, &unit)
    );
}

#[test]
fn body_reads_the_variables_of_the_moment_of_definition() {
    let mut env = TopLevelEnv::default();
    env.put("a".to_string(), num(1.0)).unwrap();
    env.put_fun("f".to_string(), custom(&[], symbol("a")));
    env.put("a".to_string(), num(2.0)).unwrap();
    env.put("b".to_string(), num(3.0)).unwrap();
    env.put_fun("g".to_string(), custom(&[], symbol("b")));
    assert_eq!(Ok(num(1.0)), calc_operand(&call("f", vec![]), &env, &unit));
    assert_eq!(Ok(num(3.0)), calc_operand(&call("g", vec![]), &env, &unit));
    assert_eq!(Ok(num(2.0)), calc_operand(&symbol("a"), &env, &unit));
    env.put_fun("h".to_string(), custom(&[], symbol("later")));
    env.put("later".to_string(), num(4.0)).unwrap();
    assert_eq!(
        Err(CalcError::UnknownSymbol("later".to_string())),
        calc_operand(&call("h", vec![]), &env, &unit)
    );
}

#[test]
fn body_calls_functions_defined_later() {
    let mut env = TopLevelEnv::default();
    env.put_fun("f".to_string(), custom(&["x"], call("g", vec![symbol("x")])));
    assert_eq!(
        Err(CalcError::UnknownFunction("g".to_string())),
        calc_operand(&call("f", vec![Operand::Number(num(1.0))]), &env, &unit)
    );
    env.put_fun("g".to_string(), custom(&["y"], symbol("y")));
    assert_eq!(
        Ok(num(1.0)),
        calc_operand(&call("f", vec![Operand::Number(num(1.0))]), &env, &unit)
    );
}

#[test]
fn last_of_two_parameters_of_one_name_counts() {
    let mut env = TopLevelEnv::default();
    env.put_fun("f".to_string(), custom(&["x", "x"], symbol("x")));
    let expr = call("f", vec![Operand::Number(num(1.0)), Operand::Number(num(2.0))]);
    assert_eq!(Ok(num(2.0)), calc_operand(&expr, &env, &unit));
}

#[test]
fn division_by_zero_is_no_error() {
    let env = TopLevelEnv::default();
    let term = Term {
        op: Operation::Div,
        lhs: Operand::Number(num(1.0)),
        rhs: Operand::Number(num(0.0)),
    };
    assert_eq!(Ok(num(f64::INFINITY)), calc_term(&term, &env, &unit));
    let term = Term {
        op: Operation::Pow,
        lhs: Operand::Number(num(-8.0)),
        rhs: Operand::Number(num(0.5)),
    };
    assert!(val(calc_term(&term, &env, &unit).unwrap()).is_nan());
}

#[test]
fn admits_tells_recursion_from_nesting() {
    let mut env = TopLevelEnv::default();
    env.put_fun("f".to_string(), custom(&["x"], call("g", vec![symbol("x")])));
    env.put_fun("g".to_string(), custom(&["x"], call("sin", vec![symbol("x")])));
    assert!(env.admits(&call("f", vec![Operand::Number(num(1.0))])));
    assert!(env.admits(&call("undefined", vec![])));
    env.put_fun("r".to_string(), custom(&["x"], call("r", vec![symbol("x")])));
    assert!(!env.admits(&call("r", vec![Operand::Number(num(1.0))])));
    assert!(env.admits(&call("f", vec![Operand::Number(num(1.0))])));
    assert!(!env.admits(&call("f", vec![call("r", vec![])])));
    env.put_fun("g".to_string(), custom(&["x"], call("f", vec![symbol("x")])));
    assert!(!env.admits(&call("f", vec![Operand::Number(num(1.0))])));
    assert!(MAX_CALL_DEPTH >= 64);
}

#[test]
fn calls_nest_as_deep_as_the_limit() {
    let mut env = TopLevelEnv::default();
    env.put_fun("f0".to_string(), custom(&["x"], symbol("x")));
    for i in 1..MAX_CALL_DEPTH + 1 {
        let body = call(&format!("f{}", i - 1), vec![symbol("x")]);
        env.put_fun(format!("f{}", i), custom(&["x"], body));
    }
    let deepest = call(&format!("f{}", MAX_CALL_DEPTH - 1), vec![Operand::Number(num(3.0))]);
    assert!(env.admits(&deepest));
    assert_eq!(Ok(num(3.0)), calc_operand(&deepest, &env, &unit));
    let too_deep = call(&format!("f{}", MAX_CALL_DEPTH), vec![Operand::Number(num(3.0))]);
    assert!(!env.admits(&too_deep));
}

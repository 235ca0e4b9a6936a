use rust_expression::ast::{
    CustomFunction, FunCall, Function, Number, Operand, Operation, Statement, Term,
};
use rust_expression::ast::Operation::{Add, Div, Mul, Pow, Rem, Sub};
use rust_expression::grammar::{Pair, Rule};
use rust_expression::parser::{
    new_operand_term, parse, parse_assignment, parse_fun_call, parse_function, parse_num,
    parse_operand, parse_operation, parse_statement, parse_term, ParserError,
};

fn num(x: f64) -> Number {
    Number::from_bits(x.to_bits())
}

fn read(text: &str) -> Option<Number> {
    text.parse::<f64>().ok().map(num)
}

fn parse_line(cmd: &str) -> Result<Statement, ParserError> {
    parse(cmd, &read)
}

fn term(lhs: Operand, op: Operation, rhs: Operand) -> Operand {
    Operand::Term(Box::new(Term { op, lhs, rhs }))
}

fn number(x: f64) -> Operand {
    Operand::Number(num(x))
}

fn symbol(name: &str) -> Operand {
    Operand::Symbol(name.to_string())
}

fn expression(cmd: &str) -> Operand {
    match parse_line(cmd) {
        Ok(Statement::Expression { op }) => op,
        other => panic!("{:?} is no expression: {:?}", cmd, other),
    }
}

fn leaf(rule: Rule, text: &str) -> Pair {
    Pair { rule, text: text.to_string(), inner: Vec::new() }
}

fn node(rule: Rule, text: &str, inner: Vec<Pair>) -> Pair {
    Pair { rule, text: text.to_string(), inner }
}

#[test]
fn parse_number() {
    let op = Operand::Number(num(12.2));
    assert_eq!(Ok(Statement::Expression { op }), parse_line("12.2"));
}

#[test]
fn parse_symbol() {
    let op = Operand::Symbol("x".to_string());
    assert_eq!(Ok(Statement::Expression { op }), parse_line("x"));
}

#[test]
fn parse_symbol_add() {
    let term = {
        let lhs = Operand::Symbol("x".to_string());
        let rhs = Operand::Number(num(1.0));
        let op = Operation::Add;
        Term { op, lhs, rhs }
    };
    let op = Operand::Term(Box::new(term));
    assert_eq!(Ok(Statement::Expression { op }), parse_line("x + 1"));
}

#[test]
fn parse_term_add() {
    let lhs = Operand::Number(num(3.0));
    let rhs = Operand::Number(num(-4.0));
    let op = Operation::Mul;
    let op = Operand::Term(Box::new(Term { op, lhs, rhs }));
    assert_eq!(Ok(Statement::Expression { op }), parse_line("3 * -4"));
}

#[test]
fn parse_term_mul() {
    let lhs = Operand::Number(num(1.0));
    let rhs = Operand::Number(num(2.0));
    let op = Operation::Add;
    let op = Operand::Term(Box::new(Term { op, lhs, rhs }));
    assert_eq!(Ok(Statement::Expression { op }), parse_line("1 + 2"));
}

#[test]
fn parse_term_precedence_add_mul() {
    let lhs = Operand::Number(num(1.0));
    let rhs = {
        let lhs = Operand::Number(num(2.0));
        let rhs = Operand::Symbol("val".to_string());
        let op = Operation::Mul;
        Operand::Term(Box::new(Term { op, lhs, rhs }))
    };
    let op = Operation::Add;
    let op = Operand::Term(Box::new(Term { op, lhs, rhs }));
    assert_eq!(Ok(Statement::Expression { op }), parse_line("1 + 2 * val"));
}

#[test]
fn parse_term_precedence_sub_div_pow() {
    let lhs = Operand::Number(num(1.0));
    let rhs = {
        let lhs = {
            let lhs = Operand::Number(num(2.0));
            let rhs = Operand::Symbol("exp".to_string());
            let op = Operation::Pow;
            Operand::Term(Box::new(Term { op, lhs, rhs }))
        };
        let rhs = Operand::Symbol("val".to_string());
        let op = Operation::Mul;
        Operand::Term(Box::new(Term { op, lhs, rhs }))
    };
    let op = Operation::Add;
    let op = Operand::Term(Box::new(Term { op, lhs, rhs }));
    assert_eq!(Ok(Statement::Expression { op }), parse_line("1 + 2 ^ exp * val"));
}

#[test]
fn parse_a_is_1() {
    let statement = Statement::Assignment {
        sym: "a".to_string(),
        op: Operand::Number(num(1.0)),
    };
    assert_eq!(Ok(statement), parse_line("a := 1"));
}

#[test]
fn parse_solve_for() {
    let statement = Statement::SolveFor {
        lhs: Operand::Number(num(13.0)),
        rhs: Operand::Symbol("x".to_string()),
        sym: "x".to_string(),
    };
    assert_eq!(Ok(statement), parse_line("solve 13 = x for x"));
}

#[test]
fn parse_fun_no_args() {
    let fun = Function::Custom(CustomFunction {
        args: Vec::new(),
        body: Operand::Number(num(12.0)),
    });
    let statement = Statement::Function {
        name: "ghs".to_string(),
        fun,
    };
    assert_eq!(Ok(statement), parse_line("ghs() := 12"));
}

#[test]
fn parse_fun_x() {
    let fun = Function::Custom(CustomFunction {
        args: vec!["x".to_string()],
        body: {
            let lhs = Operand::Number(num(1.0));
            let rhs = Operand::Symbol("x".to_string());
            let op = Operation::Add;
            Operand::Term(Box::new(Term { lhs, rhs, op }))
        },
    });
    let statement = Statement::Function {
        name: "f".to_string(),
        fun,
    };
    assert_eq!(Ok(statement), parse_line("f(x) := 1 + x"));
}

#[test]
fn parse_fun_call_without_params() {
    let fun_call = FunCall {
        name: "fun".to_string(),
        params: Vec::new(),
    };
    let op = Operand::FunCall(fun_call);
    let stat = Statement::Expression { op };
    assert_eq!(Ok(stat), parse_line("fun()"));
}

#[test]
fn parse_fun_call_with_symbol() {
    let fun_call = FunCall {
        name: "fun".to_string(),
        params: vec![Operand::Symbol("x".to_string())],
    };
    let op = Operand::FunCall(fun_call);
    let stat = Statement::Expression { op };
    assert_eq!(Ok(stat), parse_line("fun(x)"));
}

#[test]
fn parse_fun_call_with_number() {
    let fun_call = FunCall {
        name: "fun".to_string(),
        params: vec![Operand::Number(num(42.0))],
    };
    let op = Operand::FunCall(fun_call);
    let stat = Statement::Expression { op };
    assert_eq!(Ok(stat), parse_line("fun(42)"));
}

#[test]
fn parse_plot() {
    let stat = Statement::Plot {
        name: "fun".to_string(),
    };
    assert_eq!(Ok(stat), parse_line("plot fun"));
}

#[test]
fn operators_of_one_level_bind_to_the_left() {
    assert_eq!(
        term(term(number(1.0), Sub, number(2.0)), Sub, number(3.0)),
        expression("1 - 2 - 3")
    );
    assert_eq!(
        term(term(number(1.0), Sub, number(2.0)), Add, number(3.0)),
        expression("1 - 2 + 3")
    );
    assert_eq!(
        term(term(term(number(8.0), Div, number(4.0)), Rem, number(3.0)), Mul, number(2.0)),
        expression("8 / 4 % 3 * 2")
    );
}

#[test]
fn power_binds_to_the_right() {
    assert_eq!(
        term(number(2.0), Pow, term(number(3.0), Pow, number(2.0))),
        expression("2 ^ 3 ^ 2")
    );
    assert_eq!(
        term(
            number(2.0),
            Pow,
            term(number(3.0), Pow, term(number(4.0), Pow, number(5.0)))
        ),
        expression("2^3^4^5")
    );
}

#[test]
fn tighter_operators_bind_first_on_either_side() {
    assert_eq!(
        term(term(number(1.0), Mul, number(2.0)), Add, number(3.0)),
        expression("1 * 2 + 3")
    );
    assert_eq!(
        term(number(1.0), Add, term(number(2.0), Mul, number(3.0))),
        expression("1 + 2 * 3")
    );
    assert_eq!(
        term(
            term(number(1.0), Add, term(term(number(2.0), Pow, number(3.0)), Mul, number(4.0))),
            Sub,
            number(5.0)
        ),
        expression("1 + 2 ^ 3 * 4 - 5")
    );
    assert_eq!(
        term(term(number(2.0), Mul, term(number(3.0), Pow, number(2.0))), Mul, number(4.0)),
        expression("2 * 3 ^ 2 * 4")
    );
}

#[test]
fn brackets_bind_first() {
    assert_eq!(
        term(term(number(1.0), Add, number(2.0)), Mul, number(3.0)),
        expression("(1 + 2) * 3")
    );
    assert_eq!(
        term(number(1.0), Sub, term(number(2.0), Sub, number(3.0))),
        expression("1 - ( 2 - 3 )")
    );
    assert_eq!(number(7.0), expression("((7))"));
    assert_eq!(
        term(term(number(2.0), Pow, number(3.0)), Pow, number(2.0)),
        expression("(2 ^ 3) ^ 2")
    );
}

#[test]
fn sign_belongs_to_the_number_where_an_operand_is_due() {
    assert_eq!(number(-4.0), expression("-4"));
    assert_eq!(number(4.0), expression("+4"));
    assert_eq!(term(number(1.0), Sub, number(4.0)), expression("1 -4"));
    assert_eq!(term(number(1.0), Sub, number(4.0)), expression("1-4"));
    assert_eq!(term(number(1.0), Sub, number(-4.0)), expression("1 - -4"));
    assert_eq!(term(number(1.0), Add, number(4.0)), expression("1 ++4"));
    assert_eq!(term(symbol("x"), Sub, number(1.0)), expression("x-1"));
    assert!(parse_line("- 4").is_err());
    assert!(parse_line("-x").is_err());
}

#[test]
fn number_literals() {
    assert_eq!(number(0.5), expression("0.5"));
    assert_eq!(number(1.0), expression("1."));
    assert_eq!(number(1500.0), expression("1.5e3"));
    assert_eq!(number(1500.0), expression("1.5E3"));
    assert_eq!(number(0.015), expression("1.5e-2"));
    assert_eq!(number(150.0), expression("1.5e+2"));
    assert_eq!(number(-0.0), expression("-0"));
    assert_eq!(number(1e300), expression("1e300"));
    assert_eq!(number(f64::INFINITY), expression("1e400"));
    assert_eq!(number(12.2), expression("  12.2\t"));
    assert!(parse_line(".5").is_err());
    assert!(parse_line("1 . 5").is_err());
    assert!(parse_line("1e").is_err());
}

#[test]
fn symbols_and_keywords() {
    assert_eq!(symbol("a_1"), expression("a_1"));
    assert_eq!(symbol("Ab9_"), expression("Ab9_"));
    assert_eq!(symbol("solve"), expression("solve"));
    assert_eq!(symbol("plot"), expression("plot"));
    assert_eq!(symbol("for"), expression("for"));
    assert!(parse_line("_a").is_err());
    assert!(parse_line("1a").is_err());
    assert_eq!(
        Ok(Statement::Assignment { sym: "plot".to_string(), op: number(1.0) }),
        parse_line("plot := 1")
    );
    assert_eq!(symbol("plotx"), expression("plotx"));
    assert_eq!(symbol("solved"), expression("solved"));
    assert_eq!(term(symbol("plotx"), Add, number(1.0)), expression("plotx + 1"));
    assert!(parse_line("solve x = 1 forx").is_err());
    assert!(parse_line("solve x = 1 for_ x").is_err());
    assert!(parse_line("solvex = 1 for x").is_err());
    assert_eq!(
        Ok(Statement::SolveFor { lhs: number(1.0), rhs: symbol("x"), sym: "x".to_string() }),
        parse_line("solve(1)=x for	x")
    );
    assert_eq!(Ok(Statement::Plot { name: "f".to_string() }), parse_line("plot\tf  "));
    assert!(parse_line("plot f g").is_err());
    assert!(parse_line("plot 1").is_err());
}

#[test]
fn calls_in_expressions() {
    let call = |name: &str, params: Vec<Operand>| {
        Operand::FunCall(FunCall { name: name.to_string(), params })
    };
    assert_eq!(
        term(
            call(
                "fun",
                vec![
                    term(number(1.0), Add, number(2.0)),
                    term(number(3.0), Mul, number(9.0))
                ]
            ),
            Sub,
            number(4.0)
        ),
        expression("fun(1 + 2, 3 * 9) - 4")
    );
    assert_eq!(
        call("f", vec![call("g", vec![symbol("x")]), call("h", vec![])]),
        expression("f ( g(x) , h( ) )")
    );
    assert!(parse_line("f(1,)").is_err());
    assert!(parse_line("f(,1)").is_err());
    assert!(parse_line("f(1 2)").is_err());
    assert!(parse_line("f(1").is_err());
}

#[test]
fn statements_with_all_parts() {
    assert_eq!(
        Ok(Statement::SolveFor {
            lhs: term(term(number(3.0), Mul, symbol("x")), Sub, number(2.0)),
            rhs: term(symbol("x"), Add, number(6.0)),
            sym: "x".to_string(),
        }),
        parse_line("solve 3 * x - 2 = x + 6 for x")
    );
    assert_eq!(
        Ok(Statement::Function {
            name: "fun".to_string(),
            fun: Function::Custom(CustomFunction {
                args: vec!["x".to_string(), "y".to_string()],
                body: term(symbol("y"), Sub, symbol("x")),
            }),
        }),
        parse_line("fun(x, y) := y - x")
    );
    assert_eq!(
        Ok(Statement::Function {
            name: "f".to_string(),
            fun: Function::Custom(CustomFunction {
                args: vec!["x".to_string(), "x".to_string()],
                body: symbol("x"),
            }),
        }),
        parse_line("f(x,x):=x")
    );
    assert_eq!(
        Ok(Statement::Assignment {
            sym: "a".to_string(),
            op: term(symbol("a"), Add, number(1.0)),
        }),
        parse_line("a:=a+1")
    );
}

#[test]
fn lines_that_are_no_statement_are_refused_with_their_text() {
    for line in [
        "", "   ", "1 @", "1 +", "* 2", "a := ", ":= 1", "a = 1", "solve x = 1", "solve x for x",
        "solve = 1 for x", "solve x = 1 for 2", "f(x) := ", "f(1) := 2", "(1 + 2", "1 + 2)",
        "1 2", "a := 1 := 2", "x := y := 1", "caf\u{e9}", "1 + \u{3c0}", "plot 1",
    ] {
        assert_eq!(
            Err(ParserError::InvalidExpression(line.to_string())),
            parse_line(line),
            "{:?}",
            line
        );
    }
}

#[test]
fn literal_that_the_reader_refuses_is_an_invalid_number() {
    let picky = |text: &str| if text == "13" { None } else { read(text) };
    assert_eq!(
        Err(ParserError::InvalidNumber("13".to_string())),
        parse("1 + 13 * 2", &picky)
    );
    assert_eq!(
        Err(ParserError::InvalidNumber("13".to_string())),
        parse("f(y, x) := x + 13", &picky)
    );
    assert_eq!(Ok(Statement::Expression { op: number(3.0) }), parse("3", &picky));
    let none = |_: &str| None;
    assert_eq!(
        Err(ParserError::InvalidNumber("1".to_string())),
        parse("solve 1 = x + 2 for x", &none)
    );
    assert_eq!(Ok(Statement::Expression { op: symbol("x") }), parse("x", &none));
}

#[test]
fn parse_num_reads_the_text_of_the_token() {
    assert_eq!(Ok(number(2.5)), parse_num(&leaf(Rule::Num, "2.5"), &read));
    assert_eq!(
        Err(ParserError::InvalidNumber("2,5".to_string())),
        parse_num(&leaf(Rule::Num, "2,5"), &read)
    );
}

#[test]
fn parse_term_takes_the_first_error() {
    let plus = leaf(Rule::Add, "+");
    assert_eq!(
        Ok(term(number(1.0), Add, number(2.0))),
        parse_term(Ok(number(1.0)), &plus, Ok(number(2.0)))
    );
    assert_eq!(
        Err(ParserError::InvalidNumber("a".to_string())),
        parse_term(
            Err(ParserError::InvalidNumber("a".to_string())),
            &plus,
            Err(ParserError::InvalidNumber("b".to_string()))
        )
    );
    assert_eq!(
        Err(ParserError::InvalidNumber("b".to_string())),
        parse_term(Ok(number(1.0)), &plus, Err(ParserError::InvalidNumber("b".to_string())))
    );
    assert_eq!(
        Err(ParserError::InvalidOperation("x".to_string())),
        parse_term(Ok(number(1.0)), &leaf(Rule::Symbol, "x"), Ok(number(2.0)))
    );
    assert_eq!(term(number(1.0), Pow, number(2.0)), new_operand_term(number(1.0), Pow, number(2.0)));
}

#[test]
fn parse_operation_of_each_operator() {
    for (rule, op) in [
        (Rule::Add, Add), (Rule::Subtract, Sub), (Rule::Multiply, Mul), (Rule::Divide, Div),
        (Rule::Rem, Rem), (Rule::Power, Pow),
    ] {
        assert_eq!(Ok(op), parse_operation(&leaf(rule, "?")));
    }
    assert_eq!(
        Err(ParserError::InvalidOperation("12".to_string())),
        parse_operation(&leaf(Rule::Num, "12"))
    );
}

#[test]
fn parse_operand_of_tokens_that_no_line_gives() {
    assert_eq!(Err(ParserError::InvalidOperand(String::new())), parse_operand(&vec![], &read));
    assert_eq!(
        Err(ParserError::InvalidOperand(String::new())),
        parse_operand(&vec![leaf(Rule::Num, "1"), leaf(Rule::Add, "+")], &read)
    );
    assert_eq!(
        Err(ParserError::InvalidOperation("2".to_string())),
        parse_operand(&vec![leaf(Rule::Num, "1"), leaf(Rule::Num, "2")], &read)
    );
    assert_eq!(
        Err(ParserError::InvalidOperand("+".to_string())),
        parse_operand(&vec![leaf(Rule::Add, "+")], &read)
    );
    assert_eq!(
        Err(ParserError::InvalidOperand("plot f".to_string())),
        parse_operand(&vec![leaf(Rule::Plot, "plot f")], &read)
    );
    assert_eq!(
        Err(ParserError::InvalidNumber("a".to_string())),
        parse_operand(
            &vec![leaf(Rule::Num, "a"), leaf(Rule::Add, "+"), leaf(Rule::Num, "b")],
            &read
        )
    );
}

#[test]
fn parse_fun_call_of_tokens_that_no_line_gives() {
    assert_eq!(Err(ParserError::MissingFunctionName), parse_fun_call(&vec![], &read));
    assert_eq!(
        Err(ParserError::ExpectedParamExpression("1".to_string())),
        parse_fun_call(&vec![leaf(Rule::Symbol, "f"), leaf(Rule::Num, "1")], &read)
    );
    assert_eq!(
        Err(ParserError::InvalidNumber("a".to_string())),
        parse_fun_call(
            &vec![
                leaf(Rule::Symbol, "f"),
                node(Rule::Expr, "a", vec![leaf(Rule::Num, "a")]),
                leaf(Rule::Num, "1"),
            ],
            &read
        )
    );
}

#[test]
fn parse_assignment_of_tokens_that_no_line_gives() {
    assert_eq!(
        Err(ParserError::MissingAssignmentTarget(String::new())),
        parse_assignment(&vec![], &read)
    );
    assert_eq!(
        Err(ParserError::InvalidSymbol("1".to_string())),
        parse_assignment(&vec![leaf(Rule::Num, "1")], &read)
    );
    assert_eq!(
        Err(ParserError::MissingAssignmentExpression(String::new())),
        parse_assignment(&vec![leaf(Rule::Symbol, "a")], &read)
    );
    assert_eq!(
        Ok(Statement::Assignment { sym: "a".to_string(), op: number(1.0) }),
        parse_assignment(
            &vec![leaf(Rule::Symbol, "a"), node(Rule::Expr, "1", vec![leaf(Rule::Num, "1")])],
            &read
        )
    );
}

#[test]
fn parse_solve_for_of_tokens_that_no_line_gives() {
    let one = || node(Rule::Expr, "1", vec![leaf(Rule::Num, "1")]);
    assert_eq!(
        Err(ParserError::MissingSolveForLeftExpression(String::new())),
        rust_expression::parser::parse_solve_for(&vec![], &read)
    );
    assert_eq!(
        Err(ParserError::MissingSolveForRightExpression(String::new())),
        rust_expression::parser::parse_solve_for(&vec![one()], &read)
    );
    assert_eq!(
        Err(ParserError::MissingSolveForSymbol(String::new())),
        rust_expression::parser::parse_solve_for(&vec![one(), one()], &read)
    );
    assert_eq!(
        Err(ParserError::InvalidSymbol("2".to_string())),
        rust_expression::parser::parse_solve_for(&vec![one(), one(), leaf(Rule::Num, "2")], &read)
    );
    assert_eq!(
        Err(ParserError::InvalidOperand(String::new())),
        rust_expression::parser::parse_solve_for(&vec![leaf(Rule::Symbol, "x")], &read)
    );
}

#[test]
fn parse_function_of_tokens_that_no_line_gives() {
    assert_eq!(Err(ParserError::MissingFunctionName), parse_function(&vec![], &read));
    assert_eq!(
        Err(ParserError::MissingFunctionBody),
        parse_function(&vec![leaf(Rule::Symbol, "f")], &read)
    );
    assert_eq!(
        Err(ParserError::MissingFunctionBody),
        parse_function(&vec![leaf(Rule::Symbol, "f"), leaf(Rule::Symbol, "x")], &read)
    );
}

#[test]
fn parse_plot_of_tokens_that_no_line_gives() {
    assert_eq!(
        Err(ParserError::PlotMissingFunction),
        rust_expression::parser::parse_plot(&vec![])
    );
    assert_eq!(
        Err(ParserError::PlotUnexpectedSymbol("1".to_string())),
        rust_expression::parser::parse_plot(&vec![leaf(Rule::Num, "1")])
    );
}

#[test]
fn parse_statement_of_tokens_that_no_line_gives() {
    assert_eq!(Err(ParserError::EmptyStatement), parse_statement(&vec![], &read));
    for (rule, name) in [
        (Rule::Num, "num"), (Rule::Symbol, "symbol"), (Rule::Add, "add"),
        (Rule::Subtract, "subtract"), (Rule::Multiply, "multiply"), (Rule::Divide, "divide"),
        (Rule::Rem, "rem"), (Rule::Power, "power"), (Rule::FunCall, "fun_call"),
        (Rule::EndOfInput, "EOI"),
    ] {
        assert_eq!(
            Err(ParserError::InvalidStatement(format!("Unexpected rule: {}", name))),
            parse_statement(&vec![leaf(rule, "1")], &read)
        );
    }
}

use rust_expression::grammar::{EquationParser, Pair, Rule};

fn leaf(rule: Rule, text: &str) -> Pair {
    Pair { rule, text: text.to_string(), inner: Vec::new() }
}

fn node(rule: Rule, text: &str, inner: Vec<Pair>) -> Pair {
    Pair { rule, text: text.to_string(), inner }
}

fn line(statement: Pair) -> Option<Vec<Pair>> {
    Some(vec![statement, leaf(Rule::EndOfInput, "")])
}

#[test]
fn tokens_of_an_expression() {
    assert_eq!(
        line(node(
            Rule::Expr,
            "1 + x*-2.5e1",
            vec![
                leaf(Rule::Num, "1"),
                leaf(Rule::Add, "+"),
                leaf(Rule::Symbol, "x"),
                leaf(Rule::Multiply, "*"),
                leaf(Rule::Num, "-2.5e1"),
            ]
        )),
        EquationParser::parse("  1 + x*-2.5e1 ")
    );
}

#[test]
fn tokens_of_brackets_and_calls() {
    assert_eq!(
        line(node(
            Rule::Expr,
            "( a ) ^ f(1, b)",
            vec![
                node(Rule::Expr, "a", vec![leaf(Rule::Symbol, "a")]),
                leaf(Rule::Power, "^"),
                node(
                    Rule::FunCall,
                    "f(1, b)",
                    vec![
                        leaf(Rule::Symbol, "f"),
                        node(Rule::Expr, "1", vec![leaf(Rule::Num, "1")]),
                        node(Rule::Expr, "b", vec![leaf(Rule::Symbol, "b")]),
                    ]
                ),
            ]
        )),
        EquationParser::parse("( a ) ^ f(1, b)")
    );
}

#[test]
fn tokens_of_each_kind_of_statement() {
    let one = || node(Rule::Expr, "1", vec![leaf(Rule::Num, "1")]);
    assert_eq!(
        line(node(Rule::Assignment, "a := 1", vec![leaf(Rule::Symbol, "a"), one()])),
        EquationParser::parse("a := 1")
    );
    assert_eq!(
        line(node(
            Rule::SolveFor,
            "solve 1 = 1 for x",
            vec![one(), one(), leaf(Rule::Symbol, "x")]
        )),
        EquationParser::parse("solve 1 = 1 for x")
    );
    assert_eq!(
        line(node(
            Rule::Function,
            "f(x, y) := 1",
            vec![leaf(Rule::Symbol, "f"), leaf(Rule::Symbol, "x"), leaf(Rule::Symbol, "y"), one()]
        )),
        EquationParser::parse("f(x, y) := 1")
    );
    assert_eq!(
        line(node(Rule::Plot, "plot f", vec![leaf(Rule::Symbol, "f")])),
        EquationParser::parse("plot f")
    );
}

#[test]
fn percent_and_slash_are_operators() {
    assert_eq!(
        line(node(
            Rule::Expr,
            "7 % 3 / 2 - 1",
            vec![
                leaf(Rule::Num, "7"),
                leaf(Rule::Rem, "%"),
                leaf(Rule::Num, "3"),
                leaf(Rule::Divide, "/"),
                leaf(Rule::Num, "2"),
                leaf(Rule::Subtract, "-"),
                leaf(Rule::Num, "1"),
            ]
        )),
        EquationParser::parse("7 % 3 / 2 - 1")
    );
}

#[test]
fn lines_without_tokens() {
    assert_eq!(None, EquationParser::parse(""));
    assert_eq!(None, EquationParser::parse("1 +"));
    assert_eq!(None, EquationParser::parse("1 \n"));
    assert_eq!(None, EquationParser::parse("x \u{e9}"));
    assert_eq!(None, EquationParser::parse("a : = 1"));
    assert_eq!(None, EquationParser::parse("1 . 0"));
}

use woof::lexer::ParseError;
use woof::parser::parse_program;
use woof::program::{
    ComparisonExpression, ComparisonOperator, EvalError, Expression, Operator, Program, Statement,
    Statements, Value,
};
use woof::state::{Int, State};

fn run(src: &str) -> Result<Int, EvalError> {
    parse_program(src).expect("program should parse").execute()
}

fn unbound(r: Result<Int, EvalError>) -> String {
    match r {
        Err(e) => e.variable().clone(),
        Ok(v) => panic!("expected an unbound variable, got {}", v),
    }
}

#[test]
fn assigns_a_literal() {
    assert_eq!(run("lassie AWOO 5\nlassie").unwrap(), 5);
}

#[test]
fn assigns_a_sum() {
    assert_eq!(run("lassie AWOO 5 WOOF 5\nlassie").unwrap(), 10);
}

#[test]
fn parses_the_return_variable_name() {
    let p = parse_program("lassie AWOO 5 lassie").unwrap();
    assert_eq!(p.return_variable, "lassie");
    assert_eq!(p.statements.statements.len(), 1);
    match &p.statements.statements[0] {
        Statement::Assign { variable, expression } => {
            assert_eq!(variable, "lassie");
            assert!(matches!(expression, Expression::Const(5)));
        }
        _ => panic!("expected an assignment"),
    }
}

#[test]
fn subtracts_and_multiplies() {
    assert_eq!(run("a AWOO 7 ARF 6 a").unwrap(), 42);
    assert_eq!(run("a AWOO 3 BARK 10 a").unwrap(), -7);
}

#[test]
fn copies_a_variable() {
    assert_eq!(run("a AWOO 4 b AWOO a b").unwrap(), 4);
}

#[test]
fn arithmetic_wraps() {
    assert_eq!(run("a AWOO 9223372036854775807 WOOF 1 a").unwrap(), i64::MIN);
    assert_eq!(run("a AWOO 0 BARK 9223372036854775807 b AWOO a BARK 2 b").unwrap(), i64::MAX);
    assert_eq!(run("a AWOO 4611686018427387904 ARF 2 a").unwrap(), i64::MIN);
}

#[test]
fn largest_literal_parses() {
    assert_eq!(run("a AWOO 9223372036854775807 a").unwrap(), i64::MAX);
}

#[test]
fn literal_too_large_is_invalid() {
    assert_eq!(
        parse_program("a AWOO 9223372036854775808 a").err(),
        Some(ParseError::InvalidWord { offset: 7 })
    );
}

#[test]
fn loop_accumulates() {
    let src = "x AWOO 0\ni AWOO 0\nGRRR i YIP 5\n  x AWOO x WOOF i\n  i AWOO i WOOF 1\nBORF\nx";
    assert_eq!(run(src).unwrap(), 10);
}

#[test]
fn loop_counts_down() {
    let src = "n AWOO 10 steps AWOO 0 GRRR n YAP 0 n AWOO n BARK 3 steps AWOO steps WOOF 1 BORF steps";
    assert_eq!(run(src).unwrap(), 4);
}

#[test]
fn loop_that_never_runs() {
    assert_eq!(run("i AWOO 9 GRRR i YIP 5 i AWOO 100 BORF i").unwrap(), 9);
}

#[test]
fn operators_do_not_chain() {
    assert_eq!(
        parse_program("s AWOO 1 WOOF 2 ARF 3 s").err(),
        Some(ParseError::UnexpectedToken { offset: 16 })
    );
}

#[test]
fn nested_loops() {
    let src = "s AWOO 0 i AWOO 0
        GRRR i YIP 10
            j AWOO 0
            GRRR j YIP i
                s AWOO s WOOF 1
                j AWOO j WOOF 1
            BORF
            i AWOO i WOOF 1
        BORF
        s";
    assert_eq!(run(src).unwrap(), 45);
}

#[test]
fn squares_summed_in_a_loop() {
    let src = "s AWOO 0 i AWOO 0
        GRRR i YIP 10
            sq AWOO i ARF i
            s AWOO s WOOF sq
            i AWOO i WOOF 1
        BORF
        s";
    assert_eq!(run(src).unwrap(), 285);
}

#[test]
fn if_runs_only_the_first_branch() {
    let src = "a AWOO 3 RUF? a YAP 2 b AWOO 1 ROWH b AWOO 2 c AWOO 9 ARRUF b";
    assert_eq!(run(src).unwrap(), 1);
    let src = "a AWOO 3 RUF? a YAP 2 b AWOO 1 ROWH b AWOO 2 c AWOO 9 ARRUF c";
    assert_eq!(unbound(run(src)), "c");
}

#[test]
fn if_runs_only_the_second_branch() {
    let src = "a AWOO 1 RUF? a YAP 2 b AWOO 1 c AWOO 9 ROWH b AWOO 2 ARRUF b";
    assert_eq!(run(src).unwrap(), 2);
    let src = "a AWOO 1 RUF? a YAP 2 b AWOO 1 c AWOO 9 ROWH b AWOO 2 ARRUF c";
    assert_eq!(unbound(run(src)), "c");
}

#[test]
fn branches_may_be_empty() {
    assert_eq!(run("a AWOO 1 RUF? a YIP 0 ROWH ARRUF a").unwrap(), 1);
}

#[test]
fn unbound_variable_in_expression() {
    assert_eq!(unbound(run("y AWOO x WOOF 1 y")), "x");
}

#[test]
fn unbound_left_operand_is_reported_first() {
    assert_eq!(unbound(run("y AWOO p WOOF q y")), "p");
}

#[test]
fn unbound_variable_in_comparison() {
    assert_eq!(unbound(run("GRRR k YIP 3 BORF a")), "k");
    assert_eq!(unbound(run("k AWOO 1 RUF? k YIP m ROWH ARRUF k")), "m");
}

#[test]
fn unbound_return_variable() {
    assert_eq!(unbound(run("a AWOO 1 b")), "b");
}

#[test]
fn empty_text_is_incomplete() {
    assert_eq!(parse_program("").err(), Some(ParseError::UnexpectedEnd));
    assert_eq!(parse_program("  \n\t ").err(), Some(ParseError::UnexpectedEnd));
}

#[test]
fn missing_expression_is_incomplete() {
    assert_eq!(parse_program("x AWOO").err(), Some(ParseError::UnexpectedEnd));
}

#[test]
fn comparison_needs_a_variable_on_the_left() {
    assert_eq!(
        parse_program("RUF? 5 YIP x ROWH ARRUF x").err(),
        Some(ParseError::UnexpectedToken { offset: 5 })
    );
}

#[test]
fn stray_keyword_is_unexpected() {
    assert_eq!(
        parse_program("x AWOO 1 ROWH x").err(),
        Some(ParseError::UnexpectedToken { offset: 9 })
    );
}

#[test]
fn unknown_word_is_invalid() {
    assert_eq!(
        parse_program("x AWOO 1 @ x").err(),
        Some(ParseError::InvalidWord { offset: 9 })
    );
    assert_eq!(
        parse_program("x AWOO 1 -2 x").err(),
        Some(ParseError::InvalidWord { offset: 9 })
    );
}

#[test]
fn text_after_return_variable_is_unexpected() {
    assert_eq!(
        parse_program("x AWOO 1 x x").err(),
        Some(ParseError::UnexpectedToken { offset: 11 })
    );
}

#[test]
fn unterminated_loop_is_incomplete() {
    assert_eq!(
        parse_program("i AWOO 0 GRRR i YIP 3 i AWOO i WOOF 1").err(),
        Some(ParseError::UnexpectedEnd)
    );
}

#[test]
fn keywords_are_case_sensitive_identifiers_otherwise() {
    assert_eq!(run("awoo AWOO 2 awoo").unwrap(), 2);
}

#[test]
fn parsing_is_deterministic() {
    let src = "a AWOO 2 GRRR a YIP 50 a AWOO a ARF 3 BORF a";
    assert_eq!(run(src).unwrap(), run(src).unwrap());
    assert_eq!(run(src).unwrap(), 54);
}

#[test]
fn runs_a_built_program() {
    let p = Program {
        statements: Statements {
            statements: vec![
                Statement::Assign {
                    variable: "n".to_string(),
                    expression: Expression::Const(1),
                },
                Statement::While {
                    expression: ComparisonExpression {
                        left: "n".to_string(),
                        right: Value::Const(100),
                        operator: ComparisonOperator::LessThan,
                    },
                    statements: Statements {
                        statements: vec![Statement::Assign {
                            variable: "n".to_string(),
                            expression: Expression::Expression {
                                left: Value::Variable("n".to_string()),
                                right: Value::Const(2),
                                operator: Operator::Multiply,
                            },
                        }],
                    },
                },
            ],
        },
        return_variable: "n".to_string(),
    };
    assert_eq!(p.execute().unwrap(), 128);
    assert_eq!(p.execute().unwrap(), 128);
}

#[test]
fn state_binds_and_overwrites() {
    let mut s = State::new();
    let x = "x".to_string();
    assert_eq!(s.get(&x), None);
    s.set(&x, 3);
    assert_eq!(s.get(&x), Some(3));
    s.set(&x, -4);
    assert_eq!(s.get(&x), Some(-4));
    assert_eq!(s.get(&"y".to_string()), None);
}

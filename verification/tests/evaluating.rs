use lox_tree_walk::error::{Error, RunTimeReason};
use lox_tree_walk::expr::Value;
use lox_tree_walk::interpreter::Interpreter;
use lox_tree_walk::parser::LoxParser;
use lox_tree_walk::token::scan;

const FUEL: u64 = 100_000;

fn run(source: &str) -> Result<Vec<Value>, Error> {
    let tokens = scan(source)?;
    let mut parser = LoxParser::from_tokens(tokens);
    let stmts = parser.parse()?;
    let mut interp = Interpreter::default();
    interp.interpret(&stmts, FUEL)?;
    Ok(interp.output)
}

fn num(x: f64) -> Value {
    Value::Number(x.to_bits())
}

#[test]
fn multiplication_binds_tighter_than_addition() {
    assert_eq!(run("print 1 + 2 * 3;").unwrap(), vec![num(7.0)]);
}

#[test]
fn grouping_overrides_precedence() {
    assert_eq!(run("print (1 + 2) * 3;").unwrap(), vec![num(9.0)]);
}

#[test]
fn subtraction_is_left_associative() {
    assert_eq!(run("print 8 - 3 - 2;").unwrap(), vec![num(3.0)]);
}

#[test]
fn division_is_left_associative() {
    assert_eq!(run("print 8 / 2 / 2;").unwrap(), vec![num(2.0)]);
}

#[test]
fn bang_on_positive_number_is_false() {
    assert_eq!(run("print !5;").unwrap(), vec![Value::Bool(false)]);
}

#[test]
fn bang_on_negative_number_is_true() {
    assert_eq!(run("print !(-5);").unwrap(), vec![Value::Bool(true)]);
}

#[test]
fn zero_is_not_truthy() {
    assert_eq!(run("print !0;").unwrap(), vec![Value::Bool(true)]);
}

#[test]
fn unary_minus_negates() {
    assert_eq!(run("print -3;").unwrap(), vec![num(-3.0)]);
    assert_eq!(run("print --3;").unwrap(), vec![num(3.0)]);
}

#[test]
fn unary_minus_on_string_is_a_type_error() {
    let err = run("print -\"abc\";").unwrap_err();
    assert!(matches!(
        err,
        Error::RunTimeException { reason: RunTimeReason::UnaryOperand, .. }
    ));
}

#[test]
fn bang_on_string_is_a_type_error_at_the_operator() {
    let err = run("print !\"abc\";").unwrap_err();
    match err {
        Error::RunTimeException { reason, line, col } => {
            assert_eq!(reason, RunTimeReason::NotTruthy);
            // The error carries the `!` operator's position.
            assert_eq!(line, 1);
            assert_eq!(col, 6);
        }
        other => panic!("wrong error: {:?}", other),
    }
}

#[test]
fn division_by_zero_follows_float_semantics() {
    assert_eq!(run("print 1 / 0;").unwrap(), vec![num(f64::INFINITY)]);
    assert_eq!(run("print -1 / 0;").unwrap(), vec![num(f64::NEG_INFINITY)]);
    // 0 / 0 is NaN: it compares unequal to itself.
    assert_eq!(run("print 0 / 0 == 0 / 0;").unwrap(), vec![Value::Bool(false)]);
}

#[test]
fn number_comparisons() {
    assert_eq!(
        run("print 1 < 2; print 2 <= 2; print 3 > 4; print 4 >= 4; print 1 == 1; print 1 != 1;")
            .unwrap(),
        vec![
            Value::Bool(true),
            Value::Bool(true),
            Value::Bool(false),
            Value::Bool(true),
            Value::Bool(true),
            Value::Bool(false)
        ]
    );
}

#[test]
fn arithmetic_matches_ieee_doubles() {
    assert_eq!(run("print 0.1 + 0.2;").unwrap(), vec![num(0.1f64 + 0.2f64)]);
    assert_eq!(run("print 7 / 3;").unwrap(), vec![num(7.0f64 / 3.0f64)]);
    assert_eq!(run("print 1.5 * 2.5;").unwrap(), vec![num(1.5f64 * 2.5f64)]);
}

#[test]
fn string_concatenation_and_equality() {
    assert_eq!(
        run("print \"foo\" + \"bar\";").unwrap(),
        vec![Value::String("foobar".to_string())]
    );
    assert_eq!(run("print \"a\" == \"a\";").unwrap(), vec![Value::Bool(true)]);
    assert_eq!(run("print \"a\" != \"b\";").unwrap(), vec![Value::Bool(true)]);
}

#[test]
fn string_ordering_is_a_type_error() {
    let err = run("print \"a\" < \"b\";").unwrap_err();
    assert!(matches!(
        err,
        Error::RunTimeException { reason: RunTimeReason::BinaryOperands, .. }
    ));
}

#[test]
fn mixed_operands_are_a_type_error() {
    let err = run("print 1 + \"a\";").unwrap_err();
    match err {
        Error::RunTimeException { reason, line, .. } => {
            assert_eq!(reason, RunTimeReason::BinaryOperands);
            assert_eq!(line, 1);
        }
        other => panic!("wrong error: {:?}", other),
    }
}

#[test]
fn bool_and_nil_support_only_equality() {
    assert_eq!(run("print true == true;").unwrap(), vec![Value::Bool(true)]);
    assert_eq!(run("print true != false;").unwrap(), vec![Value::Bool(true)]);
    assert_eq!(run("print nil == nil;").unwrap(), vec![Value::Bool(true)]);
    assert_eq!(run("print nil != nil;").unwrap(), vec![Value::Bool(false)]);
    assert!(run("print true + false;").is_err());
    assert!(run("print nil < nil;").is_err());
}

#[test]
fn logical_operators_short_circuit_and_keep_operand_values() {
    // The result is one of the operand values, never a boolean summary.
    assert_eq!(run("print 5 or 7;").unwrap(), vec![num(5.0)]);
    assert_eq!(run("print 0 or 7;").unwrap(), vec![num(7.0)]);
    assert_eq!(run("print 0 and 7;").unwrap(), vec![num(0.0)]);
    assert_eq!(run("print 5 and 7;").unwrap(), vec![num(7.0)]);
    // The right side is not evaluated when the left side decides: the
    // undefined name never gets read.
    assert_eq!(run("print true or missing;").unwrap(), vec![Value::Bool(true)]);
    assert_eq!(run("print false and missing;").unwrap(), vec![Value::Bool(false)]);
}

#[test]
fn assignment_is_an_expression_yielding_the_value() {
    assert_eq!(run("var x = 1; print x = 2;").unwrap(), vec![num(2.0)]);
}

#[test]
fn binary_evaluates_right_operand_first() {
    // The right operand's assignment runs before the left operand reads x.
    assert_eq!(run("var x = 1; print x + (x = 10);").unwrap(), vec![num(20.0)]);
}

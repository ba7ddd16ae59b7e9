use lox_tree_walk::error::{Error, RunTimeReason};
use lox_tree_walk::expr::Value;
use lox_tree_walk::interpreter::Interpreter;
use lox_tree_walk::parser::LoxParser;
use lox_tree_walk::token::scan;

const FUEL: u64 = 100_000;

fn run(source: &str) -> Result<Vec<Value>, Error> {
    let tokens = scan(source)?;
    let mut parser = LoxParser::from_tokens(tokens);
    let stmts = parser.parse()?;
    let mut interp = Interpreter::default();
    interp.interpret(&stmts, FUEL)?;
    Ok(interp.output)
}

fn num(x: f64) -> Value {
    Value::Number(x.to_bits())
}

#[test]
fn function_without_return_yields_nil() {
    assert_eq!(
        run("fun noop() { 1 + 1; } print noop();").unwrap(),
        vec![Value::Nil]
    );
}

#[test]
fn function_with_unreached_return_yields_nil() {
    assert_eq!(
        run("fun f() { if (false) return 1; } print f();").unwrap(),
        vec![Value::Nil]
    );
}

#[test]
fn bare_return_yields_nil() {
    assert_eq!(run("fun f() { return; } print f();").unwrap(), vec![Value::Nil]);
}

#[test]
fn return_yields_its_value() {
    assert_eq!(
        run("fun add(a, b) { return a + b; } print add(2, 3);").unwrap(),
        vec![num(5.0)]
    );
}

#[test]
fn return_skips_the_rest_of_the_body() {
    assert_eq!(
        run("fun f() { print 1; return 2; print 3; } print f();").unwrap(),
        vec![num(1.0), num(2.0)]
    );
}

#[test]
fn return_unwinds_out_of_nested_loops_and_blocks() {
    assert_eq!(
        run("fun f() { var i = 0; while (true) { i = i + 1; if (i == 4) { return i; } } } \
             print f();")
        .unwrap(),
        vec![num(4.0)]
    );
}

#[test]
fn arguments_are_evaluated_left_to_right() {
    assert_eq!(
        run("var x = 0; fun two(a, b) { return b; } print two(x = 1, x + 1);").unwrap(),
        vec![num(2.0)]
    );
}

#[test]
fn recursion_works() {
    assert_eq!(
        run("fun fib(n) { if (n < 2) return n; return fib(n - 1) + fib(n - 2); } print fib(10);")
            .unwrap(),
        vec![num(55.0)]
    );
}

#[test]
fn call_arity_must_match() {
    let err = run("fun f(a) { return a; } f(1, 2);").unwrap_err();
    assert!(matches!(
        err,
        Error::RunTimeException { reason: RunTimeReason::ArityMismatch, .. }
    ));
    let err = run("fun f(a) { return a; } f();").unwrap_err();
    assert!(matches!(
        err,
        Error::RunTimeException { reason: RunTimeReason::ArityMismatch, .. }
    ));
}

#[test]
fn only_functions_can_be_called() {
    let err = run("1();").unwrap_err();
    match err {
        Error::RunTimeException { reason, .. } => {
            assert_eq!(reason, RunTimeReason::NotCallable)
        }
        other => panic!("wrong error: {:?}", other),
    }
}

#[test]
fn parameters_shadow_outer_bindings_and_vanish_after_the_call() {
    assert_eq!(
        run("var a = 1; fun f(a) { print a; } f(9); print a;").unwrap(),
        vec![num(9.0), num(1.0)]
    );
}

#[test]
fn free_variables_resolve_in_the_callers_scope() {
    // Function values carry no environment: a free name inside the body
    // is looked up through the scopes live at the call.
    assert_eq!(
        run("var x = 1; fun show() { print x; } show(); { var x = 2; show(); }").unwrap(),
        vec![num(1.0), num(2.0)]
    );
}

#[test]
fn function_values_can_be_passed_around() {
    assert_eq!(
        run("fun twice(f, v) { return f(f(v)); } fun inc(n) { return n + 1; } \
             print twice(inc, 5);")
        .unwrap(),
        vec![num(7.0)]
    );
}

#[test]
fn runaway_recursion_exhausts_the_budget() {
    let tokens = scan("fun f() { return f(); } f();").unwrap();
    let mut parser = LoxParser::from_tokens(tokens);
    let stmts = parser.parse().unwrap();
    let mut interp = Interpreter::default();
    let res = interp.interpret(&stmts, 100);
    assert!(matches!(res, Err(Error::RecursionLimit)));
}

#[test]
fn clock_native_reports_the_installed_sample() {
    let tokens = scan("print clock();").unwrap();
    let mut parser = LoxParser::from_tokens(tokens);
    let stmts = parser.parse().unwrap();
    let mut interp = Interpreter::default();
    interp.set_clock(1234.5f64.to_bits());
    interp.interpret(&stmts, FUEL).unwrap();
    assert_eq!(interp.output, vec![num(1234.5)]);
}

#[test]
fn clock_native_takes_no_arguments() {
    let err = run("clock(1);").unwrap_err();
    assert!(matches!(
        err,
        Error::RunTimeException { reason: RunTimeReason::ArityMismatch, .. }
    ));
}

#[test]
fn function_declarations_nest() {
    assert_eq!(
        run("fun outer() { fun inner() { return 2; } return inner() + 1; } print outer();")
            .unwrap(),
        vec![num(3.0)]
    );
}

#[test]
fn calling_nil_is_not_callable() {
    let err = run("nil();").unwrap_err();
    assert!(matches!(
        err,
        Error::RunTimeException { reason: RunTimeReason::NotCallable, .. }
    ));
}

#[test]
fn function_value_prints_as_a_function() {
    let out = run("fun f() {} print f;").unwrap();
    match &out[0] {
        Value::LoxFunction(f) => assert_eq!(f.declaration.name.name, "f"),
        other => panic!("wrong value: {:?}", other),
    }
}

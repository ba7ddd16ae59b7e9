use lox_tree_walk::error::{Error, RunTimeReason};
use lox_tree_walk::expr::Value;
use lox_tree_walk::interpreter::Interpreter;
use lox_tree_walk::parser::LoxParser;
use lox_tree_walk::token::scan;

const FUEL: u64 = 100_000;

fn run(source: &str) -> Result<Vec<Value>, Error> {
    let tokens = scan(source)?;
    let mut parser = LoxParser::from_tokens(tokens);
    let stmts = parser.parse()?;
    let mut interp = Interpreter::default();
    interp.interpret(&stmts, FUEL)?;
    Ok(interp.output)
}

fn num(x: f64) -> Value {
    Value::Number(x.to_bits())
}

#[test]
fn inner_declarations_do_not_leak() {
    assert_eq!(run("var x = 1; { var x = 2; } print x;").unwrap(), vec![num(1.0)]);
}

#[test]
fn inner_scope_reads_and_shadows_outer() {
    assert_eq!(
        run("var x = 1; { print x; var x = 2; print x; } print x;").unwrap(),
        vec![num(1.0), num(2.0), num(1.0)]
    );
}

#[test]
fn assignment_in_block_writes_the_outer_binding() {
    assert_eq!(run("var x = 1; { x = 2; } print x;").unwrap(), vec![num(2.0)]);
}

#[test]
fn redeclaration_overwrites() {
    assert_eq!(run("var x = 1; var x = 2; print x;").unwrap(), vec![num(2.0)]);
}

#[test]
fn assignment_to_undeclared_name_fails() {
    let err = run("x = 1;").unwrap_err();
    match err {
        Error::UndefinedVariable { name, line, .. } => {
            assert_eq!(name, "x");
            assert_eq!(line, 1);
        }
        other => panic!("wrong error: {:?}", other),
    }
}

#[test]
fn reading_an_undeclared_name_fails() {
    let err = run("print y;").unwrap_err();
    assert!(matches!(err, Error::UndefinedVariable { .. }));
}

#[test]
fn reading_before_initialization_is_its_own_error() {
    let err = run("var x; print x;").unwrap_err();
    match err {
        Error::UninitializedVariable { name, .. } => assert_eq!(name, "x"),
        other => panic!("wrong error: {:?}", other),
    }
}

#[test]
fn uninitialized_variable_can_be_assigned_then_read() {
    assert_eq!(run("var x; x = 3; print x;").unwrap(), vec![num(3.0)]);
}

#[test]
fn if_takes_exactly_one_branch() {
    assert_eq!(run("if (1 < 2) print 1; else print 2;").unwrap(), vec![num(1.0)]);
    assert_eq!(run("if (1 > 2) print 1; else print 2;").unwrap(), vec![num(2.0)]);
    assert_eq!(run("if (false) print 1;").unwrap(), vec![]);
}

#[test]
fn condition_must_be_truthy_coercible() {
    // The coercion error carries the `if` keyword's position.
    match run("if (\"yes\") print 1;").unwrap_err() {
        Error::RunTimeException { reason, line, col } => {
            assert_eq!(reason, RunTimeReason::NotTruthy);
            assert_eq!(line, 1);
            assert_eq!(col, 0);
        }
        other => panic!("wrong error: {:?}", other),
    }
    assert!(run("if (nil) print 1;").is_err());
}

#[test]
fn while_loop_runs_until_condition_fails() {
    assert_eq!(
        run("var i = 0; while (i < 3) { print i; i = i + 1; }").unwrap(),
        vec![num(0.0), num(1.0), num(2.0)]
    );
}

#[test]
fn break_leaves_the_loop_early() {
    assert_eq!(
        run("var i = 0; while (i < 5) { i = i + 1; if (i == 3) break; } print i;").unwrap(),
        vec![num(3.0)]
    );
}

#[test]
fn break_stops_at_the_nearest_loop() {
    // The inner break must not leave the outer loop.
    assert_eq!(
        run("var n = 0; var i = 0; while (i < 2) { i = i + 1; var j = 0; \
             while (j < 10) { j = j + 1; if (j == 2) break; } n = n + j; } print n;")
        .unwrap(),
        vec![num(4.0)]
    );
}

#[test]
fn for_loop_desugars_to_while() {
    assert_eq!(
        run("for (var i = 0; i < 3; i = i + 1) print i;").unwrap(),
        vec![num(0.0), num(1.0), num(2.0)]
    );
}

#[test]
fn for_loop_with_break_and_no_condition() {
    assert_eq!(
        run("var i = 0; for (;;) { i = i + 1; if (i == 2) break; } print i;").unwrap(),
        vec![num(2.0)]
    );
}

#[test]
fn for_loop_initializer_scope_does_not_leak() {
    let err = run("for (var i = 0; i < 1; i = i + 1) {} print i;").unwrap_err();
    assert!(matches!(err, Error::UndefinedVariable { .. }));
}

#[test]
fn runtime_error_keeps_earlier_effects() {
    let tokens = scan("print 1; print missing; print 2;").unwrap();
    let mut parser = LoxParser::from_tokens(tokens);
    let stmts = parser.parse().unwrap();
    let mut interp = Interpreter::default();
    let res = interp.interpret(&stmts, FUEL);
    assert!(matches!(res, Err(Error::UndefinedVariable { .. })));
    // What was printed before the failing statement stays printed.
    assert_eq!(interp.output, vec![num(1.0)]);
}

#[test]
fn environment_persists_across_runs() {
    // The REPL keeps one interpreter: a binding made by one line is
    // visible to the next.
    let mut interp = Interpreter::default();
    let mut p1 = LoxParser::from_tokens(scan("var x = 41;").unwrap());
    let s1 = p1.parse().unwrap();
    interp.interpret(&s1, FUEL).unwrap();
    let mut p2 = LoxParser::from_tokens(scan("print x + 1;").unwrap());
    let s2 = p2.parse().unwrap();
    interp.interpret(&s2, FUEL).unwrap();
    assert_eq!(interp.output, vec![num(42.0)]);
}

#[test]
fn infinite_loop_exhausts_the_budget() {
    let tokens = scan("while (true) {}").unwrap();
    let mut parser = LoxParser::from_tokens(tokens);
    let stmts = parser.parse().unwrap();
    let mut interp = Interpreter::default();
    let res = interp.interpret(&stmts, 1000);
    assert!(matches!(res, Err(Error::RecursionLimit)));
}

#[test]
fn assignment_chains_are_right_associative() {
    assert_eq!(
        run("var a = 1; var b = 2; a = b = 7; print a; print b;").unwrap(),
        vec![num(7.0), num(7.0)]
    );
}

#[test]
fn empty_block_is_fine() {
    assert_eq!(run("{} print 1;").unwrap(), vec![num(1.0)]);
}

#[test]
fn while_condition_must_be_truthy_coercible() {
    assert!(run("while (\"forever\") print 1;").is_err());
}

#[test]
fn print_shows_strings_booleans_and_nil() {
    assert_eq!(
        run("print \"hi\"; print true; print nil;").unwrap(),
        vec![
            Value::String("hi".to_string()),
            Value::Bool(true),
            Value::Nil
        ]
    );
}

#[test]
fn unicode_named_variables_work_end_to_end() {
    assert_eq!(run("var ñ = 7; print ñ;").unwrap(), vec![num(7.0)]);
}

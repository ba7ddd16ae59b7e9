use lox_tree_walk::error::{Error, FunctionKind};
use lox_tree_walk::expr::{Expr, Literal, Stmt};
use lox_tree_walk::parser::LoxParser;
use lox_tree_walk::token::{scan, TokenType};

fn parse(source: &str) -> Result<Vec<Stmt>, Error> {
    let tokens = scan(source)?;
    let mut parser = LoxParser::from_tokens(tokens);
    parser.parse()
}

#[test]
fn assigning_to_a_literal_is_rejected_at_parse_time() {
    let err = parse("1 = 2;").unwrap_err();
    match err {
        // The error carries the `=` sign's position.
        Error::InvalidAssignment { line, col } => {
            assert_eq!(line, 1);
            assert_eq!(col, 2);
        }
        other => panic!("wrong error: {:?}", other),
    }
}

#[test]
fn assigning_to_a_call_is_rejected_at_parse_time() {
    assert!(matches!(
        parse("f() = 2;").unwrap_err(),
        Error::InvalidAssignment { .. }
    ));
}

#[test]
fn missing_semicolon_is_a_token_mismatch() {
    let err = parse("print 1").unwrap_err();
    match err {
        Error::TokenMismatch { expected, found } => {
            assert_eq!(expected, TokenType::Semicolon);
            assert_eq!(found.ty, TokenType::Eof);
        }
        other => panic!("wrong error: {:?}", other),
    }
}

#[test]
fn unclosed_parenthesis_is_a_token_mismatch() {
    assert!(matches!(
        parse("print (1 + 2;").unwrap_err(),
        Error::TokenMismatch { expected: TokenType::RightParen, .. }
    ));
}

#[test]
fn empty_expression_is_rejected() {
    assert!(matches!(
        parse("print ;").unwrap_err(),
        Error::ExpectedExpression { token_type: TokenType::Semicolon, .. }
    ));
}

#[test]
fn break_outside_a_loop_is_a_parse_error() {
    assert!(matches!(parse("break;").unwrap_err(), Error::BreakNotInLoop { .. }));
    // Inside a loop body it parses fine.
    assert!(parse("while (true) { break; }").is_ok());
    // A function body does not inherit the surrounding loop.
    assert!(matches!(
        parse("while (true) { fun f() { break; } }").unwrap_err(),
        Error::BreakNotInLoop { .. }
    ));
}

#[test]
fn return_outside_a_function_is_a_parse_error() {
    assert!(matches!(parse("return 1;").unwrap_err(), Error::ReturnNotInFun { .. }));
    assert!(parse("fun f() { return 1; }").is_ok());
    // A loop inside a function still allows return.
    assert!(parse("fun f() { while (true) { return 1; } }").is_ok());
}

#[test]
fn too_many_arguments_is_reported() {
    let mut call = String::from("f(");
    for i in 0..256 {
        if i > 0 {
            call.push_str(", ");
        }
        call.push_str("1");
    }
    call.push_str(");");
    assert!(matches!(parse(&call).unwrap_err(), Error::TooManyArguments { .. }));
}

#[test]
fn two_hundred_fifty_five_arguments_are_fine() {
    let mut call = String::from("f(");
    for i in 0..255 {
        if i > 0 {
            call.push_str(", ");
        }
        call.push_str("1");
    }
    call.push_str(");");
    assert!(parse(&call).is_ok());
}

#[test]
fn too_many_parameters_is_reported() {
    let mut decl = String::from("fun f(");
    for i in 0..256 {
        if i > 0 {
            decl.push_str(", ");
        }
        decl.push_str("p");
    }
    decl.push_str(") { }");
    assert!(matches!(
        parse(&decl).unwrap_err(),
        Error::MaxParamsExceeded { kind: FunctionKind::Function, .. }
    ));
}

#[test]
fn precedence_shapes_the_tree() {
    // 1 + 2 * 3 parses as 1 + (2 * 3): the + node's right child is the
    // multiplication.
    let stmts = parse("1 + 2 * 3;").unwrap();
    assert_eq!(stmts.len(), 1);
    match &stmts[0] {
        Stmt::Expr(Expr::Binary(left, _, right)) => {
            assert!(matches!(**left, Expr::Literal(Literal::Number(_))));
            assert!(matches!(**right, Expr::Binary(_, _, _)));
        }
        other => panic!("wrong shape: {:?}", other),
    }
}

#[test]
fn left_associativity_shapes_the_tree() {
    // 8 - 3 - 2 parses as (8 - 3) - 2.
    let stmts = parse("8 - 3 - 2;").unwrap();
    match &stmts[0] {
        Stmt::Expr(Expr::Binary(left, _, right)) => {
            assert!(matches!(**left, Expr::Binary(_, _, _)));
            assert!(matches!(**right, Expr::Literal(Literal::Number(_))));
        }
        other => panic!("wrong shape: {:?}", other),
    }
}

#[test]
fn dangling_else_binds_to_the_nearest_if() {
    let stmts = parse("if (true) if (false) print 1; else print 2;").unwrap();
    match &stmts[0] {
        Stmt::If(_, _, inner, outer_else) => {
            assert!(outer_else.is_none());
            assert!(matches!(**inner, Stmt::If(_, _, _, Some(_))));
        }
        other => panic!("wrong shape: {:?}", other),
    }
}

#[test]
fn for_desugars_into_block_and_while() {
    let stmts = parse("for (var i = 0; i < 3; i = i + 1) print i;").unwrap();
    match &stmts[0] {
        Stmt::Block(parts) => {
            assert_eq!(parts.len(), 2);
            assert!(matches!(parts[0], Stmt::VarDecl(_, Some(_))));
            assert!(matches!(parts[1], Stmt::While(_, _, _)));
        }
        other => panic!("wrong shape: {:?}", other),
    }
}

#[test]
fn for_without_condition_loops_on_true() {
    let stmts = parse("for (;;) break;").unwrap();
    match &stmts[0] {
        Stmt::While(_, cond, _) => assert!(matches!(cond, Expr::Literal(Literal::True))),
        other => panic!("wrong shape: {:?}", other),
    }
}

#[test]
fn function_body_statements_are_hoisted() {
    let stmts = parse("fun f(a, b) { print a; print b; }").unwrap();
    match &stmts[0] {
        Stmt::FunDecl(decl) => {
            assert_eq!(decl.name.name, "f");
            assert_eq!(decl.params.len(), 2);
            // The body holds the two statements directly, not one block.
            assert_eq!(decl.body.len(), 2);
        }
        other => panic!("wrong shape: {:?}", other),
    }
}

#[test]
fn empty_program_parses_to_nothing() {
    assert_eq!(parse("").unwrap().len(), 0);
}

use lox_tree_walk::ast::AST;
use lox_tree_walk::grammar::{print_usize, Binary, Expression, Grouping, PrettyPrint, Unary};
use lox_tree_walk::token::{Token, TokenType};

fn op(ty: TokenType, lexeme: &str) -> Token {
    Token { ty, lexeme: lexeme.to_string(), literal: None, line: 1, col: 0 }
}

#[test]
fn literals_print_in_decimal() {
    assert_eq!(Expression::Literal(0).print(), "0");
    assert_eq!(Expression::Literal(7).print(), "7");
    assert_eq!(Expression::Literal(12345).print(), "12345");
    assert_eq!(print_usize(908070), "908070");
}

#[test]
fn binary_prints_parenthesized_prefix() {
    let e = Expression::Binary(Binary {
        left: Box::new(Expression::Literal(1)),
        operator: op(TokenType::Plus, "+"),
        right: Box::new(Expression::Literal(2)),
    });
    assert_eq!(e.print(), "(+ 1 2)");
}

#[test]
fn unary_and_grouping_print() {
    let e = Expression::Unary(Unary {
        operator: op(TokenType::Minus, "-"),
        right: Box::new(Expression::Grouping(Grouping {
            expression: Box::new(Expression::Literal(42)),
        })),
    });
    assert_eq!(e.print(), "(- (group 42))");
}

#[test]
fn nested_tree_prints_via_ast() {
    let tree = AST {
        expr: Expression::Binary(Binary {
            left: Box::new(Expression::Unary(Unary {
                operator: op(TokenType::Minus, "-"),
                right: Box::new(Expression::Literal(123)),
            })),
            operator: op(TokenType::Star, "*"),
            right: Box::new(Expression::Grouping(Grouping {
                expression: Box::new(Expression::Literal(45)),
            })),
        }),
    };
    assert_eq!(tree.print(), "(* (- 123) (group 45))");
}

#[test]
fn kind_names() {
    assert_eq!(Expression::Literal(1).kind_name(), "literal");
    let g = Expression::Grouping(Grouping { expression: Box::new(Expression::Literal(1)) });
    assert_eq!(g.kind_name(), "grouping");
}

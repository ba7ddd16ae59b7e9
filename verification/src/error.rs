//! The error model: scan-time and parse-time errors, detected before any
//! execution, and runtime errors, which always carry a source position.
//!
//! `return` and `break` are not errors: statement execution yields a
//! separate control-flow value (see [`crate::interpreter`]), so a signal
//! can never be mistaken for a failure at the top level.

use vstd::prelude::*;

use crate::token::{Token, TokenS, TokenType};

verus! {

/// What kind of callable a parameter-limit report concerns.
#[derive(Debug, Clone, Copy, PartialEq, Eq, Structural)]
pub enum FunctionKind {
    Function,
    Method,
    Lambda,
}

/// Why evaluation rejected an operation at runtime.
#[derive(Debug, Clone, Copy, PartialEq, Eq, Structural)]
pub enum RunTimeReason {
    /// Unary minus on a value that is not a number.
    UnaryOperand,
    /// A binary operator applied to an unsupported pairing of types.
    BinaryOperands,
    /// A condition value that is neither a boolean nor a number.
    NotTruthy,
    /// A call whose callee is not a function.
    NotCallable,
    /// A call with a number of arguments other than the declared arity.
    ArityMismatch,
}

/// Every way scanning, parsing or evaluation can fail.
#[derive(Debug, PartialEq)]
pub enum Error {
    /// The scanner met a character no token starts with.
    UnexpectedCharacter { line: usize, col: i64 },
    /// End of input inside a string literal.
    UnterminatedString { line: usize, col: i64 },
    /// The parser required one token type and found another.
    TokenMismatch { expected: TokenType, found: Token },
    /// A function declaration with more than 255 parameters.
    MaxParamsExceeded { kind: FunctionKind, line: usize, col: i64 },
    /// A `return` statement outside any function body.
    ReturnNotInFun { line: usize, col: i64 },
    /// An assignment whose left-hand side is not a plain variable.
    InvalidAssignment { line: usize, col: i64 },
    /// A call with more than 255 arguments.
    TooManyArguments { line: usize, col: i64 },
    /// A token in expression position that no expression starts with.
    ExpectedExpression { token_type: TokenType, line: usize, col: i64 },
    /// A `break` statement outside any loop body.
    BreakNotInLoop { line: usize, col: i64 },
    /// A runtime type error, with the reason and the operator's position.
    RunTimeException { reason: RunTimeReason, line: usize, col: i64 },
    /// A read or assignment of a name no scope binds.
    UndefinedVariable { name: String, line: usize, col: i64 },
    /// A read of a binding declared without an initializer.
    UninitializedVariable { name: String, line: usize, col: i64 },
    /// Evaluation exceeded the configured recursion budget.
    RecursionLimit,
}

/// The ghost value of an [`Error`].
pub enum ErrorV {
    UnexpectedCharacter { line: int, col: int },
    UnterminatedString { line: int, col: int },
    TokenMismatch { expected: TokenType, found: TokenS },
    MaxParamsExceeded { kind: FunctionKind, line: int, col: int },
    ReturnNotInFun { line: int, col: int },
    InvalidAssignment { line: int, col: int },
    TooManyArguments { line: int, col: int },
    ExpectedExpression { token_type: TokenType, line: int, col: int },
    BreakNotInLoop { line: int, col: int },
    RunTimeException { reason: RunTimeReason, line: int, col: int },
    UndefinedVariable { name: Seq<char>, line: int, col: int },
    UninitializedVariable { name: Seq<char>, line: int, col: int },
    RecursionLimit,
}

impl View for Error {
    type V = ErrorV;

    open spec fn view(&self) -> ErrorV {
        match self {
            Error::UnexpectedCharacter { line, col } => ErrorV::UnexpectedCharacter {
                line: *line as int,
                col: *col as int,
            },
            Error::UnterminatedString { line, col } => ErrorV::UnterminatedString {
                line: *line as int,
                col: *col as int,
            },
            Error::TokenMismatch { expected, found } => ErrorV::TokenMismatch {
                expected: *expected,
                found: found@,
            },
            Error::MaxParamsExceeded { kind, line, col } => ErrorV::MaxParamsExceeded {
                kind: *kind,
                line: *line as int,
                col: *col as int,
            },
            Error::ReturnNotInFun { line, col } => ErrorV::ReturnNotInFun {
                line: *line as int,
                col: *col as int,
            },
            Error::InvalidAssignment { line, col } => ErrorV::InvalidAssignment {
                line: *line as int,
                col: *col as int,
            },
            Error::TooManyArguments { line, col } => ErrorV::TooManyArguments {
                line: *line as int,
                col: *col as int,
            },
            Error::ExpectedExpression { token_type, line, col } => ErrorV::ExpectedExpression {
                token_type: *token_type,
                line: *line as int,
                col: *col as int,
            },
            Error::BreakNotInLoop { line, col } => ErrorV::BreakNotInLoop {
                line: *line as int,
                col: *col as int,
            },
            Error::RunTimeException { reason, line, col } => ErrorV::RunTimeException {
                reason: *reason,
                line: *line as int,
                col: *col as int,
            },
            Error::UndefinedVariable { name, line, col } => ErrorV::UndefinedVariable {
                name: name@,
                line: *line as int,
                col: *col as int,
            },
            Error::UninitializedVariable { name, line, col } => ErrorV::UninitializedVariable {
                name: name@,
                line: *line as int,
                col: *col as int,
            },
            Error::RecursionLimit => ErrorV::RecursionLimit,
        }
    }
}

} // verus!

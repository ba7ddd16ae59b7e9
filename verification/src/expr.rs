//! The abstract syntax tree and the runtime value model.
//!
//! Expressions and statements are passive, exclusively-owned tree data.
//! Runtime values are a tagged union; numbers carry IEEE-754 binary64 bit
//! patterns (see [`crate::num`]), and a function value holds only its
//! (shared, immutable) declaration — it captures no environment, so calling
//! a function chains its scope onto the caller's environment.

use vstd::prelude::*;

use std::rc::Rc;

use crate::token::{Token, TokenType};

verus! {

/// A source position: the line a construct appears on and its column.
#[derive(Debug, Clone, Copy, PartialEq, Eq, Structural)]
pub struct SourceLocation {
    pub line: usize,
    pub col: i64,
}

/// An identifier occurrence, with the position it was written at.
/// Two occurrences of the same name are the same binding key; the
/// position only serves error reports.
#[derive(Debug, PartialEq)]
pub struct Symbol {
    pub name: String,
    pub line: usize,
    pub col: i64,
}

/// The ghost value of a [`Symbol`]: its name as a character sequence
/// plus the source position.
pub struct SymbolV {
    pub name: Seq<char>,
    pub line: int,
    pub col: int,
}

impl View for Symbol {
    type V = SymbolV;

    open spec fn view(&self) -> SymbolV {
        SymbolV { name: self.name@, line: self.line as int, col: self.col as int }
    }
}

impl Clone for Symbol {
    fn clone(&self) -> (r: Self)
        ensures
            r@ == self@,
    {
        Symbol { name: self.name.clone(), line: self.line, col: self.col }
    }
}

/// A short-circuiting logical operator.
#[derive(Debug, Clone, Copy, PartialEq, Eq, Structural)]
pub enum LogicalOp {
    Or,
    And,
}

/// The two unary operators.
#[derive(Debug, Clone, Copy, PartialEq, Eq, Structural)]
pub enum UnaryOpTy {
    Minus,
    Bang,
}

/// A unary operator together with its source position.
#[derive(Debug, Clone, Copy, PartialEq, Eq, Structural)]
pub struct UnaryOp {
    pub ty: UnaryOpTy,
    pub line: usize,
    pub col: i64,
}

/// The binary (non-short-circuiting) operators.
#[derive(Debug, Clone, Copy, PartialEq, Eq, Structural)]
pub enum BinaryOpTy {
    EqualEqual,
    NotEqual,
    Less,
    LessEqual,
    Greater,
    GreaterEqual,
    Plus,
    Minus,
    Star,
    Slash,
}

/// A binary operator together with its source position.
#[derive(Debug, Clone, Copy, PartialEq, Eq, Structural)]
pub struct BinaryOp {
    pub ty: BinaryOpTy,
    pub line: usize,
    pub col: i64,
}

/// A literal as it appears in the syntax tree. Numbers are binary64 bit
/// patterns; see [`crate::num`].
#[derive(Debug, PartialEq)]
pub enum Literal {
    Number(u64),
    String(String),
    True,
    False,
    Nil,
}

/// An expression node. Each node exclusively owns its children; operator
/// nodes carry their operator's source position.
#[derive(Debug, PartialEq)]
pub enum Expr {
    Literal(Literal),
    Unary(UnaryOp, Box<Expr>),
    Binary(Box<Expr>, BinaryOp, Box<Expr>),
    Call(Box<Expr>, SourceLocation, Vec<Expr>),
    Grouping(Box<Expr>),
    Variable(Symbol),
    Assign(Symbol, Box<Expr>),
    Logical(Box<Expr>, LogicalOp, SourceLocation, Box<Expr>),
}

/// A function declaration: name, parameters in order, and the body's
/// statements (the braces' block wrapper is discarded at parse time).
#[derive(Debug, PartialEq)]
pub struct FunDecl {
    pub name: Symbol,
    pub params: Vec<Symbol>,
    pub body: Vec<Stmt>,
}

/// A statement node. `If`, `While` and `Return` carry the position of
/// their keyword for error reports; function declarations are shared via
/// `Rc` so that a function value can hold its declaration without copying
/// the body.
#[derive(Debug, PartialEq)]
pub enum Stmt {
    Expr(Expr),
    FunDecl(Rc<FunDecl>),
    If(SourceLocation, Expr, Box<Stmt>, Option<Box<Stmt>>),
    Print(Expr),
    VarDecl(Symbol, Option<Expr>),
    Block(Vec<Stmt>),
    Return(SourceLocation, Option<Expr>),
    While(SourceLocation, Expr, Box<Stmt>),
    Break,
}

/// Which built-in a native function value is.
#[derive(Debug, Clone, Copy, PartialEq, Eq, Structural)]
pub enum NativeKind {
    Clock,
}

/// A built-in callable exposed in the global scope, such as the clock.
#[derive(Debug, PartialEq)]
pub struct NativeFunction {
    pub name: String,
    pub arity: u8,
    pub kind: NativeKind,
}

impl Clone for NativeFunction {
    fn clone(&self) -> (r: Self)
        ensures
            r@ == self@,
    {
        NativeFunction { name: self.name.clone(), arity: self.arity, kind: self.kind }
    }
}

/// The ghost value of a [`NativeFunction`].
pub struct NativeV {
    pub name: Seq<char>,
    pub arity: u8,
    pub kind: NativeKind,
}

impl View for NativeFunction {
    type V = NativeV;

    open spec fn view(&self) -> NativeV {
        NativeV { name: self.name@, arity: self.arity, kind: self.kind }
    }
}

/// A user-declared function value: it wraps the declaration and nothing
/// else (no captured environment).
#[derive(Debug, PartialEq)]
pub struct LoxFunction {
    pub declaration: Rc<FunDecl>,
}

impl LoxFunction {
    /// How many arguments a call of this function must supply.
    pub fn arity(&self) -> (r: usize)
        ensures
            r == self.declaration.params@.len(),
    {
        self.declaration.params.len()
    }
}

/// A runtime value. `Undefined` is distinct from `Nil`: it marks a binding
/// that was declared without an initializer, so that reading it is a
/// reportable error distinct from reading an absent name.
#[derive(Debug, PartialEq)]
pub enum Value {
    Number(u64),
    String(String),
    Bool(bool),
    Nil,
    Undefined,
    NativeFunction(NativeFunction),
    LoxFunction(LoxFunction),
}

/// The ghost value of a runtime [`Value`]: strings become character
/// sequences; a function value carries its declaration.
pub enum ValueV {
    Number(u64),
    Str(Seq<char>),
    Bool(bool),
    Nil,
    Undefined,
    Native(NativeV),
    Fun(FunDecl),
}

impl View for Value {
    type V = ValueV;

    open spec fn view(&self) -> ValueV {
        match self {
            Value::Number(b) => ValueV::Number(*b),
            Value::String(s) => ValueV::Str(s@),
            Value::Bool(b) => ValueV::Bool(*b),
            Value::Nil => ValueV::Nil,
            Value::Undefined => ValueV::Undefined,
            Value::NativeFunction(n) => ValueV::Native(n@),
            Value::LoxFunction(f) => ValueV::Fun(*f.declaration),
        }
    }
}

impl Clone for Value {
    fn clone(&self) -> (r: Self)
        ensures
            r@ == self@,
    {
        match self {
            Value::Number(b) => Value::Number(*b),
            Value::String(s) => Value::String(s.clone()),
            Value::Bool(b) => Value::Bool(*b),
            Value::Nil => Value::Nil,
            Value::Undefined => Value::Undefined,
            Value::NativeFunction(n) => Value::NativeFunction(n.clone()),
            Value::LoxFunction(f) => Value::LoxFunction(
                LoxFunction { declaration: Rc::clone(&f.declaration) },
            ),
        }
    }
}


/// The token types that form unary operators.
pub open spec fn is_unary_op_token(t: TokenType) -> bool {
    t == TokenType::Minus || t == TokenType::Bang
}

/// The unary operator a token type denotes.
pub open spec fn unary_ty_of(t: TokenType) -> UnaryOpTy
    recommends
        is_unary_op_token(t),
{
    if t == TokenType::Minus {
        UnaryOpTy::Minus
    } else {
        UnaryOpTy::Bang
    }
}

impl UnaryOp {
    /// The unary operator a token spells, carrying the token's position.
    pub fn from_token(current: &Token) -> (r: UnaryOp)
        requires
            is_unary_op_token(current.ty),
        ensures
            r.ty == unary_ty_of(current.ty),
            r.line == current.line,
            r.col == current.col,
    {
        match current.ty {
            TokenType::Minus => UnaryOp { ty: UnaryOpTy::Minus, line: current.line, col: current.col },
            _ => UnaryOp { ty: UnaryOpTy::Bang, line: current.line, col: current.col },
        }
    }
}

/// The token types that form binary operators.
pub open spec fn is_binary_op_token(t: TokenType) -> bool {
    ||| t == TokenType::Minus
    ||| t == TokenType::Plus
    ||| t == TokenType::Slash
    ||| t == TokenType::Star
    ||| t == TokenType::BangEqual
    ||| t == TokenType::EqualEqual
    ||| t == TokenType::Greater
    ||| t == TokenType::GreaterEqual
    ||| t == TokenType::Less
    ||| t == TokenType::LessEqual
}

/// The binary operator a token type denotes.
pub open spec fn binary_ty_of(t: TokenType) -> BinaryOpTy
    recommends
        is_binary_op_token(t),
{
    if t == TokenType::Minus {
        BinaryOpTy::Minus
    } else if t == TokenType::Plus {
        BinaryOpTy::Plus
    } else if t == TokenType::Slash {
        BinaryOpTy::Slash
    } else if t == TokenType::Star {
        BinaryOpTy::Star
    } else if t == TokenType::BangEqual {
        BinaryOpTy::NotEqual
    } else if t == TokenType::EqualEqual {
        BinaryOpTy::EqualEqual
    } else if t == TokenType::Greater {
        BinaryOpTy::Greater
    } else if t == TokenType::GreaterEqual {
        BinaryOpTy::GreaterEqual
    } else if t == TokenType::Less {
        BinaryOpTy::Less
    } else {
        BinaryOpTy::LessEqual
    }
}

impl BinaryOp {
    /// The binary operator a token spells, carrying the token's position.
    pub fn from_token(value: &Token) -> (r: BinaryOp)
        requires
            is_binary_op_token(value.ty),
        ensures
            r.ty == binary_ty_of(value.ty),
            r.line == value.line,
            r.col == value.col,
    {
        let ty = match value.ty {
            TokenType::Minus => BinaryOpTy::Minus,
            TokenType::Plus => BinaryOpTy::Plus,
            TokenType::Slash => BinaryOpTy::Slash,
            TokenType::Star => BinaryOpTy::Star,
            TokenType::BangEqual => BinaryOpTy::NotEqual,
            TokenType::EqualEqual => BinaryOpTy::EqualEqual,
            TokenType::Greater => BinaryOpTy::Greater,
            TokenType::GreaterEqual => BinaryOpTy::GreaterEqual,
            TokenType::LessEqual => BinaryOpTy::LessEqual,
            _ => BinaryOpTy::Less,
        };
        BinaryOp { ty, line: value.line, col: value.col }
    }
}

} // verus!

//! The tree-walking evaluator.
//!
//! [`eval_expr`], [`eval_args`], [`exec_stmt`] and [`exec_seq`] are a
//! definitional, fuel-bounded interpreter in ghost code: a pure function
//! from syntax, state and a recursion budget to the next state and result.
//! The executable interpreter below is proved to return exactly what they
//! say. Running out of fuel is a reported resource-exhaustion error, never
//! an unsound answer.
//!
//! Design choices this module pins down:
//! - `return` and `break` travel as a control-flow value ([`Flow`]), caught
//!   at the call and loop boundary respectively; they are not errors.
//! - A function value holds only its declaration: a call pushes one scope
//!   onto the *caller's* environment (there are no closures), binds the
//!   parameters there, and pops it on every exit path.
//! - A call's arity must match the declaration, or it is a runtime error.
//! - A binary expression evaluates its right operand first, then the left.
//! - The `clock` native reads the time sampled when the run began (the
//!   driver refreshes it before each run), so a run is a pure function of
//!   program, state and that sample.

use vstd::prelude::*;

use std::rc::Rc;

use crate::env::{
    env_assign, env_define, env_lookup, lemma_env_assign_keys, scope_keys, scope_lookup,
    Environment,
};
use crate::error::{Error, ErrorV, RunTimeReason};
use crate::expr::{
    BinaryOp, BinaryOpTy, Expr, FunDecl, Literal, LogicalOp, LoxFunction, NativeFunction,
    NativeKind, NativeV, SourceLocation, Stmt, Symbol, UnaryOp, UnaryOpTy, Value, ValueV,
};
use crate::num::{
    add_bits, cmp_bits, div_bits, mul_bits, neg_bits, num_add, num_cmp, num_div, num_gt_zero,
    num_mul, num_neg, num_sub, sub_bits,
};

verus! {

/// The interpreter's observable state: the scope stack and the values
/// printed so far.
pub struct StateS {
    pub env: Seq<Seq<(Seq<char>, ValueV)>>,
    pub out: Seq<ValueV>,
}

/// How a statement finished: fell through, returned a value, or broke out
/// of the nearest loop.
#[derive(Debug, PartialEq)]
pub enum Flow {
    Normal,
    Return(Value),
    Break,
}

/// The ghost value of a [`Flow`].
pub enum FlowV {
    Normal,
    Return(ValueV),
    Break,
}

impl View for Flow {
    type V = FlowV;

    open spec fn view(&self) -> FlowV {
        match self {
            Flow::Normal => FlowV::Normal,
            Flow::Return(v) => FlowV::Return(v@),
            Flow::Break => FlowV::Break,
        }
    }
}

/// The truthiness coercion: booleans are themselves, a number is truthy
/// exactly when it is strictly greater than zero, and nothing else is
/// coercible.
pub open spec fn truthy(v: ValueV) -> Option<bool> {
    match v {
        ValueV::Bool(b) => Option::Some(b),
        ValueV::Number(bits) => Option::Some(num_gt_zero(bits)),
        _ => Option::None,
    }
}

/// The error for a value that is not coercible to a boolean, at the
/// position of the operator or keyword that demanded the coercion.
pub open spec fn truthy_err(line: int, col: int) -> ErrorV {
    ErrorV::RunTimeException { reason: RunTimeReason::NotTruthy, line, col }
}

/// What a binary operator yields on two evaluated operands, dispatching on
/// the runtime type pair exactly as the language defines it: numbers
/// support all ten operators with IEEE semantics, strings concatenation
/// and (in)equality, booleans and nil only (in)equality; every other
/// pairing is a type error at the operator's position.
pub open spec fn binary_result(op: BinaryOp, l: ValueV, r: ValueV) -> Result<ValueV, ErrorV> {
    match (l, r) {
        (ValueV::Number(a), ValueV::Number(b)) => match op.ty {
            BinaryOpTy::EqualEqual => Result::Ok(ValueV::Bool(cmp_bits(a, b) == 1)),
            BinaryOpTy::NotEqual => Result::Ok(ValueV::Bool(cmp_bits(a, b) != 1)),
            BinaryOpTy::Less => Result::Ok(ValueV::Bool(cmp_bits(a, b) == 0)),
            BinaryOpTy::LessEqual => Result::Ok(
                ValueV::Bool(cmp_bits(a, b) == 0 || cmp_bits(a, b) == 1),
            ),
            BinaryOpTy::Greater => Result::Ok(ValueV::Bool(cmp_bits(a, b) == 2)),
            BinaryOpTy::GreaterEqual => Result::Ok(
                ValueV::Bool(cmp_bits(a, b) == 2 || cmp_bits(a, b) == 1),
            ),
            BinaryOpTy::Plus => Result::Ok(ValueV::Number(add_bits(a, b))),
            BinaryOpTy::Minus => Result::Ok(ValueV::Number(sub_bits(a, b))),
            BinaryOpTy::Star => Result::Ok(ValueV::Number(mul_bits(a, b))),
            BinaryOpTy::Slash => Result::Ok(ValueV::Number(div_bits(a, b))),
        },
        (ValueV::Str(a), ValueV::Str(b)) => match op.ty {
            BinaryOpTy::Plus => Result::Ok(ValueV::Str(a + b)),
            BinaryOpTy::EqualEqual => Result::Ok(ValueV::Bool(a == b)),
            BinaryOpTy::NotEqual => Result::Ok(ValueV::Bool(a != b)),
            _ => Result::Err(
                ErrorV::RunTimeException {
                    reason: RunTimeReason::BinaryOperands,
                    line: op.line as int,
                    col: op.col as int,
                },
            ),
        },
        (ValueV::Bool(a), ValueV::Bool(b)) => match op.ty {
            BinaryOpTy::EqualEqual => Result::Ok(ValueV::Bool(a == b)),
            BinaryOpTy::NotEqual => Result::Ok(ValueV::Bool(a != b)),
            _ => Result::Err(
                ErrorV::RunTimeException {
                    reason: RunTimeReason::BinaryOperands,
                    line: op.line as int,
                    col: op.col as int,
                },
            ),
        },
        (ValueV::Nil, ValueV::Nil) => match op.ty {
            BinaryOpTy::EqualEqual => Result::Ok(ValueV::Bool(true)),
            BinaryOpTy::NotEqual => Result::Ok(ValueV::Bool(false)),
            _ => Result::Err(
                ErrorV::RunTimeException {
                    reason: RunTimeReason::BinaryOperands,
                    line: op.line as int,
                    col: op.col as int,
                },
            ),
        },
        _ => Result::Err(
            ErrorV::RunTimeException {
                reason: RunTimeReason::BinaryOperands,
                line: op.line as int,
                col: op.col as int,
            },
        ),
    }
}

/// The ghost value of a syntactic literal.
pub open spec fn literal_value(l: Literal) -> ValueV {
    match l {
        Literal::Number(b) => ValueV::Number(b),
        Literal::String(s) => ValueV::Str(s@),
        Literal::True => ValueV::Bool(true),
        Literal::False => ValueV::Bool(false),
        Literal::Nil => ValueV::Nil,
    }
}

/// The environment after binding each parameter from `i` on to its
/// argument value, in the innermost scope.
pub open spec fn bind_params_env(
    env: Seq<Seq<(Seq<char>, ValueV)>>,
    params: Seq<Symbol>,
    i: int,
    args: Seq<ValueV>,
) -> Seq<Seq<(Seq<char>, ValueV)>>
    decreases params.len() - i,
{
    if i < 0 || i >= params.len() {
        env
    } else {
        bind_params_env(env_define(env, params[i]@.name, args[i]), params, i + 1, args)
    }
}


/// The number of syntax nodes in an expression (at least one).
pub open spec fn expr_size(e: Expr) -> nat
    decreases e, 0nat,
{
    match e {
        Expr::Literal(_) => 1,
        Expr::Variable(_) => 1,
        Expr::Unary(_, sub) => 1 + expr_size(*sub),
        Expr::Grouping(g) => 1 + expr_size(*g),
        Expr::Assign(_, sub) => 1 + expr_size(*sub),
        Expr::Binary(l, _, r) => 1 + expr_size(*l) + expr_size(*r),
        Expr::Logical(l, _, _, r) => 1 + expr_size(*l) + expr_size(*r),
        Expr::Call(c, _, cargs) => 1 + expr_size(*c) + exprs_size_from(cargs@, 0),
    }
}

/// The number of syntax nodes in the expressions from index `i` on.
pub open spec fn exprs_size_from(es: Seq<Expr>, i: int) -> nat
    decreases es, es.len() - i + 1,
{
    if i < 0 || i >= es.len() {
        0
    } else {
        expr_size(es[i]) + exprs_size_from(es, i + 1)
    }
}

/// The number of syntax nodes in a statement (at least one).
pub open spec fn stmt_size(s: Stmt) -> nat
    decreases s, 0nat,
{
    match s {
        Stmt::Expr(e) => 1 + expr_size(e),
        Stmt::Print(e) => 1 + expr_size(e),
        Stmt::VarDecl(_, init) => match init {
            Option::None => 1,
            Option::Some(e) => 1 + expr_size(e),
        },
        Stmt::FunDecl(_) => 1,
        Stmt::Block(stmts) => 1 + stmts_size_from(stmts@, 0),
        Stmt::If(_, c, t, e) => match e {
            Option::None => 1 + expr_size(c) + stmt_size(*t),
            Option::Some(eb) => 1 + expr_size(c) + stmt_size(*t) + stmt_size(*eb),
        },
        Stmt::While(_, c, b) => 1 + expr_size(c) + stmt_size(*b),
        Stmt::Return(_, val) => match val {
            Option::None => 1,
            Option::Some(e) => 1 + expr_size(e),
        },
        Stmt::Break => 1,
    }
}

/// The number of syntax nodes in the statements from index `i` on.
pub open spec fn stmts_size_from(ss: Seq<Stmt>, i: int) -> nat
    decreases ss, ss.len() - i + 1,
{
    if i < 0 || i >= ss.len() {
        0
    } else {
        stmt_size(ss[i]) + stmts_size_from(ss, i + 1)
    }
}


/// Calls a declared function on already-evaluated argument values: the
/// arity must match; one scope is pushed onto the caller's environment,
/// the parameters are bound there, the body runs on the remaining budget,
/// and the scope is dropped again on every exit path. Falling off the end
/// of the body (or leaving it by `break`) yields `Nil`; an executed
/// `return` yields its value.
pub open spec fn call_function(
    decl: FunDecl,
    vs: Seq<ValueV>,
    loc: SourceLocation,
    st: StateS,
    clock: u64,
    fuel: nat,
) -> (StateS, Result<ValueV, ErrorV>)
    decreases fuel, 0nat, 0nat,
{
    if vs.len() != decl.params@.len() {
        (
            st,
            Result::Err(
                ErrorV::RunTimeException {
                    reason: RunTimeReason::ArityMismatch,
                    line: loc.line as int,
                    col: loc.col as int,
                },
            ),
        )
    } else if fuel == 0 {
        (st, Result::Err(ErrorV::RecursionLimit))
    } else {
        let env1 = bind_params_env(st.env.push(Seq::empty()), decl.params@, 0, vs);
        let (st3, r3) = exec_seq(
            decl.body@,
            0,
            StateS { env: env1, out: st.out },
            clock,
            (fuel - 1) as nat,
        );
        let st4 = StateS { env: st3.env.drop_last(), out: st3.out };
        match r3 {
            Result::Err(err) => (st4, Result::Err(err)),
            Result::Ok(FlowV::Return(v)) => (st4, Result::Ok(v)),
            Result::Ok(_) => (st4, Result::Ok(ValueV::Nil)),
        }
    }
}

/// Evaluates one expression: the next state and the value or runtime error.
pub open spec fn eval_expr(e: Expr, st: StateS, clock: u64, fuel: nat) -> (StateS, Result<
    ValueV,
    ErrorV,
>)
    decreases fuel, expr_size(e), 0nat,
{
    match e {
        Expr::Literal(l) => (st, Result::Ok(literal_value(l))),
        Expr::Grouping(g) => eval_expr(*g, st, clock, fuel),
        Expr::Variable(sym) => (
            st,
            match env_lookup(st.env, sym@.name) {
                Option::None => Result::Err(
                    ErrorV::UndefinedVariable {
                        name: sym@.name,
                        line: sym@.line,
                        col: sym@.col,
                    },
                ),
                Option::Some(ValueV::Undefined) => Result::Err(
                    ErrorV::UninitializedVariable {
                        name: sym@.name,
                        line: sym@.line,
                        col: sym@.col,
                    },
                ),
                Option::Some(v) => Result::Ok(v),
            },
        ),
        Expr::Assign(sym, sub) => {
            let (st1, r1) = eval_expr(*sub, st, clock, fuel);
            match r1 {
                Result::Err(err) => (st1, Result::Err(err)),
                Result::Ok(v) => match env_assign(st1.env, sym@.name, v) {
                    Option::Some(env2) => (
                        StateS { env: env2, out: st1.out },
                        Result::Ok(v),
                    ),
                    Option::None => (
                        st1,
                        Result::Err(
                            ErrorV::UndefinedVariable {
                                name: sym@.name,
                                line: sym@.line,
                                col: sym@.col,
                            },
                        ),
                    ),
                },
            }
        },
        Expr::Unary(op, sub) => {
            let (st1, r1) = eval_expr(*sub, st, clock, fuel);
            match r1 {
                Result::Err(err) => (st1, Result::Err(err)),
                Result::Ok(v) => match op.ty {
                    UnaryOpTy::Minus => match v {
                        ValueV::Number(b) => (st1, Result::Ok(ValueV::Number(neg_bits(b)))),
                        _ => (
                            st1,
                            Result::Err(
                                ErrorV::RunTimeException {
                                    reason: RunTimeReason::UnaryOperand,
                                    line: op.line as int,
                                    col: op.col as int,
                                },
                            ),
                        ),
                    },
                    UnaryOpTy::Bang => match truthy(v) {
                        Option::Some(b) => (st1, Result::Ok(ValueV::Bool(!b))),
                        Option::None => (
                            st1,
                            Result::Err(truthy_err(op.line as int, op.col as int)),
                        ),
                    },
                },
            }
        },
        Expr::Binary(le, op, re) => {
            let (st1, r1) = eval_expr(*re, st, clock, fuel);
            match r1 {
                Result::Err(err) => (st1, Result::Err(err)),
                Result::Ok(rv) => {
                    let (st2, r2) = eval_expr(*le, st1, clock, fuel);
                    match r2 {
                        Result::Err(err) => (st2, Result::Err(err)),
                        Result::Ok(lv) => (st2, binary_result(op, lv, rv)),
                    }
                },
            }
        },
        Expr::Logical(le, op, lloc, re) => {
            let (st1, r1) = eval_expr(*le, st, clock, fuel);
            match r1 {
                Result::Err(err) => (st1, Result::Err(err)),
                Result::Ok(lv) => match truthy(lv) {
                    Option::None => (
                        st1,
                        Result::Err(truthy_err(lloc.line as int, lloc.col as int)),
                    ),
                    Option::Some(b) => {
                        let decided = if op is Or {
                            b
                        } else {
                            !b
                        };
                        if decided {
                            (st1, Result::Ok(lv))
                        } else {
                            eval_expr(*re, st1, clock, fuel)
                        }
                    },
                },
            }
        },
        Expr::Call(callee, loc, cargs) => {
            let (st1, r1) = eval_expr(*callee, st, clock, fuel);
            match r1 {
                Result::Err(err) => (st1, Result::Err(err)),
                Result::Ok(cv) => {
                    let (st2, r2) = eval_args(cargs@, 0, st1, clock, fuel);
                    match r2 {
                        Result::Err(err) => (st2, Result::Err(err)),
                        Result::Ok(vs) => match cv {
                            ValueV::Fun(decl) => call_function(decl, vs, loc, st2, clock, fuel),
                            ValueV::Native(n) => {
                                if vs.len() != n.arity as int {
                                    (
                                        st2,
                                        Result::Err(
                                            ErrorV::RunTimeException {
                                                reason: RunTimeReason::ArityMismatch,
                                                line: loc.line as int,
                                                col: loc.col as int,
                                            },
                                        ),
                                    )
                                } else {
                                    (st2, Result::Ok(ValueV::Number(clock)))
                                }
                            },
                            _ => (
                                st2,
                                Result::Err(
                                    ErrorV::RunTimeException {
                                        reason: RunTimeReason::NotCallable,
                                        line: loc.line as int,
                                        col: loc.col as int,
                                    },
                                ),
                            ),
                        },
                    }
                },
            }
        },
    }
}

proof fn lemma_expr_size_pos(e: Expr)
    ensures
        expr_size(e) >= 1,
{
}

proof fn lemma_stmt_size_pos(s: Stmt)
    ensures
        stmt_size(s) >= 1,
{
}

/// Evaluates the arguments from index `i` on, left to right.
pub open spec fn eval_args(args: Seq<Expr>, i: int, st: StateS, clock: u64, fuel: nat) -> (StateS, Result<
    Seq<ValueV>,
    ErrorV,
>)
    decreases fuel, exprs_size_from(args, i), 1nat
        via eval_args_dec
{
    if i < 0 || i >= args.len() {
        (st, Result::Ok(Seq::empty()))
    } else {
        let (st1, r1) = eval_expr(args[i], st, clock, fuel);
        match r1 {
            Result::Err(err) => (st1, Result::Err(err)),
            Result::Ok(v) => {
                let (st2, r2) = eval_args(args, i + 1, st1, clock, fuel);
                match r2 {
                    Result::Err(err) => (st2, Result::Err(err)),
                    Result::Ok(vs) => (st2, Result::Ok(seq![v] + vs)),
                }
            },
        }
    }
}

/// Executes one statement: the next state and how control left it.
pub open spec fn exec_stmt(s: Stmt, st: StateS, clock: u64, fuel: nat) -> (StateS, Result<
    FlowV,
    ErrorV,
>)
    decreases fuel, stmt_size(s), 0nat,
{
    match s {
        Stmt::Expr(e) => {
            let (st1, r1) = eval_expr(e, st, clock, fuel);
            match r1 {
                Result::Err(err) => (st1, Result::Err(err)),
                Result::Ok(_) => (st1, Result::Ok(FlowV::Normal)),
            }
        },
        Stmt::Print(e) => {
            let (st1, r1) = eval_expr(e, st, clock, fuel);
            match r1 {
                Result::Err(err) => (st1, Result::Err(err)),
                Result::Ok(v) => (
                    StateS { env: st1.env, out: st1.out.push(v) },
                    Result::Ok(FlowV::Normal),
                ),
            }
        },
        Stmt::VarDecl(sym, init) => match init {
            Option::None => (
                StateS { env: env_define(st.env, sym@.name, ValueV::Undefined), out: st.out },
                Result::Ok(FlowV::Normal),
            ),
            Option::Some(e) => {
                let (st1, r1) = eval_expr(e, st, clock, fuel);
                match r1 {
                    Result::Err(err) => (st1, Result::Err(err)),
                    Result::Ok(v) => (
                        StateS { env: env_define(st1.env, sym@.name, v), out: st1.out },
                        Result::Ok(FlowV::Normal),
                    ),
                }
            },
        },
        Stmt::FunDecl(decl) => (
            StateS {
                env: env_define(st.env, decl.name@.name, ValueV::Fun(*decl)),
                out: st.out,
            },
            Result::Ok(FlowV::Normal),
        ),
        Stmt::Block(stmts) => {
            let (st1, r1) = exec_seq(
                stmts@,
                0,
                StateS { env: st.env.push(Seq::empty()), out: st.out },
                clock,
                fuel,
            );
            (StateS { env: st1.env.drop_last(), out: st1.out }, r1)
        },
        Stmt::If(iloc, cond, then_b, else_b) => {
            let (st1, r1) = eval_expr(cond, st, clock, fuel);
            match r1 {
                Result::Err(err) => (st1, Result::Err(err)),
                Result::Ok(cv) => match truthy(cv) {
                    Option::None => (
                        st1,
                        Result::Err(truthy_err(iloc.line as int, iloc.col as int)),
                    ),
                    Option::Some(true) => exec_stmt(*then_b, st1, clock, fuel),
                    Option::Some(false) => match else_b {
                        Option::Some(eb) => exec_stmt(*eb, st1, clock, fuel),
                        Option::None => (st1, Result::Ok(FlowV::Normal)),
                    },
                },
            }
        },
        Stmt::While(wloc, cond, body) => {
            let (st1, r1) = eval_expr(cond, st, clock, fuel);
            match r1 {
                Result::Err(err) => (st1, Result::Err(err)),
                Result::Ok(cv) => match truthy(cv) {
                    Option::None => (
                        st1,
                        Result::Err(truthy_err(wloc.line as int, wloc.col as int)),
                    ),
                    Option::Some(false) => (st1, Result::Ok(FlowV::Normal)),
                    Option::Some(true) => {
                        let (st2, r2) = exec_stmt(*body, st1, clock, fuel);
                        match r2 {
                            Result::Err(err) => (st2, Result::Err(err)),
                            Result::Ok(FlowV::Break) => (st2, Result::Ok(FlowV::Normal)),
                            Result::Ok(FlowV::Return(v)) => (
                                st2,
                                Result::Ok(FlowV::Return(v)),
                            ),
                            Result::Ok(FlowV::Normal) => {
                                if fuel == 0 {
                                    (st2, Result::Err(ErrorV::RecursionLimit))
                                } else {
                                    exec_stmt(s, st2, clock, (fuel - 1) as nat)
                                }
                            },
                        }
                    },
                },
            }
        },
        Stmt::Return(_loc, val) => match val {
            Option::None => (st, Result::Ok(FlowV::Return(ValueV::Nil))),
            Option::Some(e) => {
                let (st1, r1) = eval_expr(e, st, clock, fuel);
                match r1 {
                    Result::Err(err) => (st1, Result::Err(err)),
                    Result::Ok(v) => (st1, Result::Ok(FlowV::Return(v))),
                }
            },
        },
        Stmt::Break => (st, Result::Ok(FlowV::Break)),
    }
}

/// Executes the statements from index `i` on, in the current environment,
/// stopping at the first non-normal outcome.
pub open spec fn exec_seq(stmts: Seq<Stmt>, i: int, st: StateS, clock: u64, fuel: nat) -> (StateS, Result<
    FlowV,
    ErrorV,
>)
    decreases fuel, stmts_size_from(stmts, i), 1nat
        via exec_seq_dec
{
    if i < 0 || i >= stmts.len() {
        (st, Result::Ok(FlowV::Normal))
    } else {
        let (st1, r1) = exec_stmt(stmts[i], st, clock, fuel);
        match r1 {
            Result::Err(err) => (st1, Result::Err(err)),
            Result::Ok(FlowV::Normal) => exec_seq(stmts, i + 1, st1, clock, fuel),
            Result::Ok(f) => (st1, Result::Ok(f)),
        }
    }
}

#[via_fn]
proof fn eval_args_dec(args: Seq<Expr>, i: int, st: StateS, clock: u64, fuel: nat) {
    if 0 <= i < args.len() {
        lemma_expr_size_pos(args[i]);
    }
}

#[via_fn]
proof fn exec_seq_dec(stmts: Seq<Stmt>, i: int, st: StateS, clock: u64, fuel: nat) {
    if 0 <= i < stmts.len() {
        lemma_stmt_size_pos(stmts[i]);
    }
}


proof fn lemma_env_assign_len(env: Seq<Seq<(Seq<char>, ValueV)>>, name: Seq<char>, v: ValueV)
    ensures
        env_assign(env, name, v) matches Option::Some(e2) ==> e2.len() == env.len(),
    decreases env.len(),
{
    if env.len() > 0 && !(scope_lookup(env.last(), name) is Some) {
        lemma_env_assign_len(env.drop_last(), name, v);
    }
}

proof fn lemma_bind_params_len(
    env: Seq<Seq<(Seq<char>, ValueV)>>,
    params: Seq<Symbol>,
    i: int,
    args: Seq<ValueV>,
)
    requires
        env.len() >= 1,
    ensures
        bind_params_env(env, params, i, args).len() == env.len(),
    decreases params.len() - i,
{
    if 0 <= i < params.len() {
        lemma_bind_params_len(env_define(env, params[i]@.name, args[i]), params, i + 1, args);
    }
}

/// Evaluating an expression neither adds nor drops scopes.
pub proof fn lemma_eval_expr_env_len(e: Expr, st: StateS, clock: u64, fuel: nat)
    requires
        st.env.len() >= 1,
    ensures
        eval_expr(e, st, clock, fuel).0.env.len() == st.env.len(),
    decreases fuel, expr_size(e), 0nat,
{
    match e {
        Expr::Literal(_) => {},
        Expr::Variable(_) => {},
        Expr::Grouping(g) => {
            lemma_eval_expr_env_len(*g, st, clock, fuel);
        },
        Expr::Unary(_, sub) => {
            lemma_eval_expr_env_len(*sub, st, clock, fuel);
        },
        Expr::Assign(sym, sub) => {
            lemma_eval_expr_env_len(*sub, st, clock, fuel);
            let (st1, r1) = eval_expr(*sub, st, clock, fuel);
            if r1 is Ok {
                lemma_env_assign_len(st1.env, sym@.name, r1->Ok_0);
            }
        },
        Expr::Binary(le, _, re) => {
            lemma_eval_expr_env_len(*re, st, clock, fuel);
            let (st1, r1) = eval_expr(*re, st, clock, fuel);
            if r1 is Ok {
                lemma_eval_expr_env_len(*le, st1, clock, fuel);
            }
        },
        Expr::Logical(le, _, _, re) => {
            lemma_eval_expr_env_len(*le, st, clock, fuel);
            let (st1, r1) = eval_expr(*le, st, clock, fuel);
            if r1 is Ok {
                lemma_eval_expr_env_len(*re, st1, clock, fuel);
            }
        },
        Expr::Call(callee, loc, cargs) => {
            lemma_eval_expr_env_len(*callee, st, clock, fuel);
            let (st1, r1) = eval_expr(*callee, st, clock, fuel);
            if r1 is Ok {
                lemma_eval_args_env_len(cargs@, 0, st1, clock, fuel);
                let (st2, r2) = eval_args(cargs@, 0, st1, clock, fuel);
                if r2 is Ok {
                    match r1->Ok_0 {
                        ValueV::Fun(decl) => {
                            lemma_call_function_env_len(decl, r2->Ok_0, loc, st2, clock, fuel);
                        },
                        _ => {},
                    }
                }
            }
        },
    }
}

/// Evaluating an argument list neither adds nor drops scopes.
pub proof fn lemma_eval_args_env_len(args: Seq<Expr>, i: int, st: StateS, clock: u64, fuel: nat)
    requires
        st.env.len() >= 1,
    ensures
        eval_args(args, i, st, clock, fuel).0.env.len() == st.env.len(),
    decreases fuel, exprs_size_from(args, i), 1nat,
{
    if 0 <= i < args.len() {
        lemma_expr_size_pos(args[i]);
        lemma_eval_expr_env_len(args[i], st, clock, fuel);
        let (st1, r1) = eval_expr(args[i], st, clock, fuel);
        if r1 is Ok {
            lemma_eval_args_env_len(args, i + 1, st1, clock, fuel);
        }
    }
}

/// Executing a statement neither adds nor drops scopes: every scope it
/// pushes, it pops again on every exit path.
pub proof fn lemma_exec_stmt_env_len(s: Stmt, st: StateS, clock: u64, fuel: nat)
    requires
        st.env.len() >= 1,
    ensures
        exec_stmt(s, st, clock, fuel).0.env.len() == st.env.len(),
    decreases fuel, stmt_size(s), 0nat,
{
    match s {
        Stmt::Expr(e) => {
            lemma_eval_expr_env_len(e, st, clock, fuel);
        },
        Stmt::Print(e) => {
            lemma_eval_expr_env_len(e, st, clock, fuel);
        },
        Stmt::VarDecl(_, init) => {
            match init {
                Option::None => {},
                Option::Some(e) => {
                    lemma_eval_expr_env_len(e, st, clock, fuel);
                },
            }
        },
        Stmt::FunDecl(_) => {},
        Stmt::Block(stmts) => {
            lemma_exec_seq_env_len(
                stmts@,
                0,
                StateS { env: st.env.push(Seq::empty()), out: st.out },
                clock,
                fuel,
            );
        },
        Stmt::If(_, cond, then_b, else_b) => {
            lemma_eval_expr_env_len(cond, st, clock, fuel);
            let (st1, r1) = eval_expr(cond, st, clock, fuel);
            if r1 is Ok {
                match truthy(r1->Ok_0) {
                    Option::Some(true) => {
                        lemma_exec_stmt_env_len(*then_b, st1, clock, fuel);
                    },
                    Option::Some(false) => {
                        match else_b {
                            Option::Some(eb) => {
                                lemma_exec_stmt_env_len(*eb, st1, clock, fuel);
                            },
                            Option::None => {},
                        }
                    },
                    Option::None => {},
                }
            }
        },
        Stmt::While(_, cond, body) => {
            lemma_eval_expr_env_len(cond, st, clock, fuel);
            let (st1, r1) = eval_expr(cond, st, clock, fuel);
            if r1 is Ok && truthy(r1->Ok_0) == Option::Some(true) {
                lemma_exec_stmt_env_len(*body, st1, clock, fuel);
                let (st2, r2) = exec_stmt(*body, st1, clock, fuel);
                if r2 == Result::<FlowV, ErrorV>::Ok(FlowV::Normal) && fuel > 0 {
                    lemma_exec_stmt_env_len(s, st2, clock, (fuel - 1) as nat);
                }
            }
        },
        Stmt::Return(_, val) => {
            match val {
                Option::None => {},
                Option::Some(e) => {
                    lemma_eval_expr_env_len(e, st, clock, fuel);
                },
            }
        },
        Stmt::Break => {},
    }
}

/// Executing a statement sequence neither adds nor drops scopes.
pub proof fn lemma_exec_seq_env_len(stmts: Seq<Stmt>, i: int, st: StateS, clock: u64, fuel: nat)
    requires
        st.env.len() >= 1,
    ensures
        exec_seq(stmts, i, st, clock, fuel).0.env.len() == st.env.len(),
    decreases fuel, stmts_size_from(stmts, i), 1nat,
{
    if 0 <= i < stmts.len() {
        lemma_stmt_size_pos(stmts[i]);
        lemma_exec_stmt_env_len(stmts[i], st, clock, fuel);
        let (st1, r1) = exec_stmt(stmts[i], st, clock, fuel);
        if r1 == Result::<FlowV, ErrorV>::Ok(FlowV::Normal) {
            lemma_exec_seq_env_len(stmts, i + 1, st1, clock, fuel);
        }
    }
}


/// The ghost views of the printed values.
pub open spec fn out_view(vs: Seq<Value>) -> Seq<ValueV> {
    vs.map_values(|v: Value| v@)
}

proof fn lemma_out_view_push(vs: Seq<Value>, v: Value)
    ensures
        out_view(vs.push(v)) == out_view(vs).push(v@),
{
    assert(out_view(vs.push(v)) =~= out_view(vs).push(v@));
}

/// The executable result agrees with the ghost value-or-error.
pub open spec fn val_res_matches(r: Result<Value, Error>, res: Result<ValueV, ErrorV>) -> bool {
    match (r, res) {
        (Result::Ok(v), Result::Ok(vv)) => v@ == vv,
        (Result::Err(e), Result::Err(ee)) => e@ == ee,
        _ => false,
    }
}

/// The executable result agrees with the ghost flow-or-error.
pub open spec fn flow_res_matches(r: Result<Flow, Error>, res: Result<FlowV, ErrorV>) -> bool {
    match (r, res) {
        (Result::Ok(f), Result::Ok(ff)) => f@ == ff,
        (Result::Err(e), Result::Err(ee)) => e@ == ee,
        _ => false,
    }
}

/// The executable argument values agree with the ghost ones.
pub open spec fn args_res_matches(
    r: Result<Vec<Value>, Error>,
    res: Result<Seq<ValueV>, ErrorV>,
) -> bool {
    match (r, res) {
        (Result::Ok(vs), Result::Ok(vv)) => out_view(vs@) == vv,
        (Result::Err(e), Result::Err(ee)) => e@ == ee,
        _ => false,
    }
}

/// The truthiness coercion on a runtime value; see [`truthy`]. A value
/// that is not coercible is a runtime error at the given position — the
/// operator or keyword that demanded the coercion.
pub fn is_truthy(val: &Value, line: usize, col: i64) -> (r: Result<bool, Error>)
    ensures
        match truthy(val@) {
            Option::Some(b) => r is Ok && r->Ok_0 == b,
            Option::None => r matches Err(e) && e@ == truthy_err(line as int, col as int),
        },
{
    match val {
        Value::Bool(b) => Result::Ok(*b),
        Value::Number(bits) => Result::Ok(num_cmp(*bits, 0) == 2),
        _ => Result::Err(
            Error::RunTimeException { reason: RunTimeReason::NotTruthy, line, col },
        ),
    }
}

/// Applies a binary operator to two already-evaluated operands; see
/// [`binary_result`].
pub fn apply_binary(op: &BinaryOp, lv: Value, rv: Value) -> (r: Result<Value, Error>)
    ensures
        val_res_matches(r, binary_result(*op, lv@, rv@)),
{
    match (lv, rv) {
        (Value::Number(a), Value::Number(b)) => match op.ty {
            BinaryOpTy::EqualEqual => Result::Ok(Value::Bool(num_cmp(a, b) == 1)),
            BinaryOpTy::NotEqual => Result::Ok(Value::Bool(num_cmp(a, b) != 1)),
            BinaryOpTy::Less => Result::Ok(Value::Bool(num_cmp(a, b) == 0)),
            BinaryOpTy::LessEqual => {
                let c = num_cmp(a, b);
                Result::Ok(Value::Bool(c == 0 || c == 1))
            },
            BinaryOpTy::Greater => Result::Ok(Value::Bool(num_cmp(a, b) == 2)),
            BinaryOpTy::GreaterEqual => {
                let c = num_cmp(a, b);
                Result::Ok(Value::Bool(c == 2 || c == 1))
            },
            BinaryOpTy::Plus => Result::Ok(Value::Number(num_add(a, b))),
            BinaryOpTy::Minus => Result::Ok(Value::Number(num_sub(a, b))),
            BinaryOpTy::Star => Result::Ok(Value::Number(num_mul(a, b))),
            BinaryOpTy::Slash => Result::Ok(Value::Number(num_div(a, b))),
        },
        (Value::String(a), Value::String(b)) => match op.ty {
            BinaryOpTy::Plus => Result::Ok(Value::String(a.concat(b.as_str()))),
            BinaryOpTy::EqualEqual => Result::Ok(Value::Bool(a == b)),
            BinaryOpTy::NotEqual => Result::Ok(Value::Bool(!(a == b))),
            _ => Result::Err(
                Error::RunTimeException {
                    reason: RunTimeReason::BinaryOperands,
                    line: op.line,
                    col: op.col,
                },
            ),
        },
        (Value::Bool(a), Value::Bool(b)) => match op.ty {
            BinaryOpTy::EqualEqual => Result::Ok(Value::Bool(a == b)),
            BinaryOpTy::NotEqual => Result::Ok(Value::Bool(a != b)),
            _ => Result::Err(
                Error::RunTimeException {
                    reason: RunTimeReason::BinaryOperands,
                    line: op.line,
                    col: op.col,
                },
            ),
        },
        (Value::Nil, Value::Nil) => match op.ty {
            BinaryOpTy::EqualEqual => Result::Ok(Value::Bool(true)),
            BinaryOpTy::NotEqual => Result::Ok(Value::Bool(false)),
            _ => Result::Err(
                Error::RunTimeException {
                    reason: RunTimeReason::BinaryOperands,
                    line: op.line,
                    col: op.col,
                },
            ),
        },
        _ => Result::Err(
            Error::RunTimeException {
                reason: RunTimeReason::BinaryOperands,
                line: op.line,
                col: op.col,
            },
        ),
    }
}

/// The interpreter: the scope stack, the values printed so far, and the
/// clock sample the `clock` native reports.
#[derive(Debug)]
pub struct Interpreter {
    pub env: Environment,
    pub output: Vec<Value>,
    pub clock: u64,
}

/// The state a fresh interpreter starts in: one global scope holding the
/// `clock` native, and nothing printed.
pub open spec fn initial_state() -> StateS {
    StateS {
        env: seq![
            seq![
                (
                    "clock"@,
                    ValueV::Native(NativeV { name: "clock"@, arity: 0, kind: NativeKind::Clock }),
                ),
            ],
        ],
        out: Seq::empty(),
    }
}

impl Default for Interpreter {
    /// A fresh interpreter: the globals hold the `clock` native, nothing
    /// is printed yet, and the clock sample is zero until the driver sets
    /// it.
    fn default() -> (r: Self)
        ensures
            r.wf(),
            r.clock == 0,
            r.st() == initial_state(),
    {
        let mut env = Environment::new();
        let sym = Symbol { name: String::from_str("clock"), line: 0, col: -1 };
        env.define(
            &sym,
            Value::NativeFunction(
                NativeFunction {
                    name: String::from_str("clock"),
                    arity: 0,
                    kind: NativeKind::Clock,
                },
            ),
        );
        let r = Interpreter { env, output: Vec::new(), clock: 0 };
        proof {
            assert(r.st().env =~~= initial_state().env);
            assert(r.st().out =~= initial_state().out);
        }
        r
    }
}

impl Interpreter {
    /// The ghost state: scope stack and output log.
    pub open spec fn st(&self) -> StateS {
        StateS { env: self.env@, out: out_view(self.output@) }
    }

    pub open spec fn wf(&self) -> bool {
        self.env.wf()
    }

    /// The possibly-mutated environment, whose bottom scope is the
    /// globals a driver persists between runs.
    pub fn globals(&self) -> (g: &Environment)
        ensures
            g@ == self.env@,
    {
        &self.env
    }

    /// Installs the clock sample the `clock` native will report.
    pub fn set_clock(&mut self, bits: u64)
        ensures
            final(self).wf() == old(self).wf(),
            final(self).st() == old(self).st(),
            final(self).clock == bits,
    {
        self.clock = bits;
    }

    /// Evaluates an expression: the result and the state change are
    /// exactly those of [`eval_expr`] under the given recursion budget.
    pub fn get_value(&mut self, expr: &Expr, fuel: u64) -> (r: Result<Value, Error>)
        requires
            old(self).wf(),
        ensures
            final(self).wf(),
            final(self).clock == old(self).clock,
            ({
                let (st2, res) = eval_expr(*expr, old(self).st(), old(self).clock, fuel as nat);
                final(self).st() == st2 && val_res_matches(r, res)
            }),
        decreases fuel, expr_size(*expr), 0nat,
    {
        match expr {
            Expr::Literal(l) => match l {
                Literal::Number(b) => Result::Ok(Value::Number(*b)),
                Literal::String(s) => Result::Ok(Value::String(s.clone())),
                Literal::True => Result::Ok(Value::Bool(true)),
                Literal::False => Result::Ok(Value::Bool(false)),
                Literal::Nil => Result::Ok(Value::Nil),
            },
            Expr::Grouping(g) => self.get_value(g, fuel),
            Expr::Variable(sym) => match self.env.get(sym) {
                Result::Ok(v) => match v {
                    Value::Undefined => Result::Err(
                        Error::UninitializedVariable {
                            name: sym.name.clone(),
                            line: sym.line,
                            col: sym.col,
                        },
                    ),
                    other => Result::Ok(other),
                },
                Result::Err(e) => Result::Err(e),
            },
            Expr::Assign(sym, sub) => {
                let v = match self.get_value(sub, fuel) {
                    Result::Ok(v) => v,
                    Result::Err(e) => {
                        return Result::Err(e);
                    },
                };
                match self.env.assign(sym, v.clone()) {
                    Result::Ok(_) => Result::Ok(v),
                    Result::Err(e) => Result::Err(e),
                }
            },
            Expr::Unary(op, sub) => self.interpret_unary(op, sub, fuel),
            Expr::Binary(le, op, re) => self.interpret_binary(le, re, op, fuel),
            Expr::Logical(le, op, lloc, re) => self.interpret_logical(le, op, lloc, re, fuel),
            Expr::Call(callee, loc, cargs) => {
                let cv = match self.get_value(callee, fuel) {
                    Result::Ok(v) => v,
                    Result::Err(e) => {
                        return Result::Err(e);
                    },
                };

                let argv = match self.eval_arg_list(cargs, 0, fuel) {
                    Result::Ok(vs) => vs,
                    Result::Err(e) => {
                        return Result::Err(e);
                    },
                };
                let ghost cvv = cv@;
                proof {
                    assert(out_view(argv@).len() == argv@.len());
                    let (st1s, r1s) = eval_expr(**callee, old(self).st(), old(self).clock, fuel as nat);
                    let (st2s, r2s) = eval_args(cargs@, 0, st1s, old(self).clock, fuel as nat);
                    assert(self.st() == st2s);
                    assert(r2s matches Result::Ok(vs) && vs == out_view(argv@));
                }
                match cv {
                    Value::LoxFunction(f) => {
                        proof {
                            assert(cvv is Fun);
                            let (st1s, r1s) = eval_expr(**callee, old(self).st(), old(self).clock, fuel as nat);
                            let (st2s, r2s) = eval_args(cargs@, 0, st1s, old(self).clock, fuel as nat);
                            let (stc, rc) = call_function(cvv->Fun_0, out_view(argv@), *loc, st2s, old(self).clock, fuel as nat);
                            assert(eval_expr(*expr, old(self).st(), old(self).clock, fuel as nat) == (stc, rc));
                        }
                        if argv.len() != f.declaration.params.len() {
                            return Result::Err(
                                Error::RunTimeException {
                                    reason: RunTimeReason::ArityMismatch,
                                    line: loc.line,
                                    col: loc.col,
                                },
                            );
                        }
                        if fuel == 0 {
                            return Result::Err(Error::RecursionLimit);
                        }
                        self.env.push_scope();
                        let ghost pushed_env = self.env@;
                        self.bind_params(&f.declaration.params, &argv);
                        proof {
                            lemma_bind_params_len(
                                pushed_env,
                                f.declaration.params@,
                                0,
                                out_view(argv@),
                            );
                        }
                        let ghost bound = self.st();
                        let res = self.run_seq(&f.declaration.body, 0, fuel - 1);
                        proof {
                            lemma_exec_seq_env_len(
                                f.declaration.body@,
                                0,
                                bound,
                                old(self).clock,
                                (fuel - 1) as nat,
                            );
                        }
                        self.env.pop_scope();
                        match res {
                            Result::Ok(Flow::Return(v)) => Result::Ok(v),
                            Result::Ok(_) => Result::Ok(Value::Nil),
                            Result::Err(e) => Result::Err(e),
                        }
                    },
                    Value::NativeFunction(n) => {
                        if argv.len() != n.arity as usize {
                            return Result::Err(
                                Error::RunTimeException {
                                    reason: RunTimeReason::ArityMismatch,
                                    line: loc.line,
                                    col: loc.col,
                                },
                            );
                        }
                        Result::Ok(Value::Number(self.clock))
                    },
                    _ => Result::Err(
                        Error::RunTimeException {
                            reason: RunTimeReason::NotCallable,
                            line: loc.line,
                            col: loc.col,
                        },
                    ),
                }
            },
        }
    }

    /// Evaluates a unary operator expression: the operand first, then
    /// negation (numbers only) or logical not via truthiness.
    fn interpret_unary(&mut self, op: &UnaryOp, right: &Expr, fuel: u64) -> (r: Result<
        Value,
        Error,
    >)
        requires
            old(self).wf(),
        ensures
            final(self).wf(),
            final(self).clock == old(self).clock,
            ({
                let (st1, r1) = eval_expr(*right, old(self).st(), old(self).clock, fuel as nat);
                &&& final(self).st() == st1
                &&& match r1 {
                    Result::Err(err) => r matches Result::Err(e) && e@ == err,
                    Result::Ok(v) => match op.ty {
                        UnaryOpTy::Minus => match v {
                            ValueV::Number(b) => r matches Result::Ok(rv) && rv@
                                == ValueV::Number(neg_bits(b)),
                            _ => r matches Result::Err(e) && e@ == (ErrorV::RunTimeException {
                                reason: RunTimeReason::UnaryOperand,
                                line: op.line as int,
                                col: op.col as int,
                            }),
                        },
                        UnaryOpTy::Bang => match truthy(v) {
                            Option::Some(b) => r matches Result::Ok(rv) && rv@ == ValueV::Bool(!b),
                            Option::None => r matches Result::Err(e) && e@ == truthy_err(
                                op.line as int,
                                op.col as int,
                            ),
                        },
                    },
                }
            }),
        decreases fuel, expr_size(*right), 3nat,
    {
        let v = match self.get_value(right, fuel) {
            Result::Ok(v) => v,
            Result::Err(e) => {
                return Result::Err(e);
            },
        };
        match op.ty {
            UnaryOpTy::Minus => match v {
                Value::Number(b) => Result::Ok(Value::Number(num_neg(b))),
                _ => Result::Err(
                    Error::RunTimeException {
                        reason: RunTimeReason::UnaryOperand,
                        line: op.line,
                        col: op.col,
                    },
                ),
            },
            UnaryOpTy::Bang => match is_truthy(&v, op.line, op.col) {
                Result::Ok(b) => Result::Ok(Value::Bool(!b)),
                Result::Err(e) => Result::Err(e),
            },
        }
    }

    /// Evaluates a binary operator expression: the right operand first,
    /// then the left, then the operator on the two values.
    fn interpret_binary(&mut self, left: &Expr, right: &Expr, op: &BinaryOp, fuel: u64) -> (r:
        Result<Value, Error>)
        requires
            old(self).wf(),
        ensures
            final(self).wf(),
            final(self).clock == old(self).clock,
            ({
                let (st1, r1) = eval_expr(*right, old(self).st(), old(self).clock, fuel as nat);
                match r1 {
                    Result::Err(err) => {
                        &&& final(self).st() == st1
                        &&& r matches Result::Err(e) && e@ == err
                    },
                    Result::Ok(rv) => {
                        let (st2, r2) = eval_expr(*left, st1, old(self).clock, fuel as nat);
                        &&& final(self).st() == st2
                        &&& match r2 {
                            Result::Err(err) => r matches Result::Err(e) && e@ == err,
                            Result::Ok(lv) => val_res_matches(r, binary_result(*op, lv, rv)),
                        }
                    },
                }
            }),
        decreases fuel, expr_size(*left) + expr_size(*right), 3nat,
    {
        let rv = match self.get_value(right, fuel) {
            Result::Ok(v) => v,
            Result::Err(e) => {
                return Result::Err(e);
            },
        };
        proof {
            lemma_expr_size_pos(*right);
        }
        let lv = match self.get_value(left, fuel) {
            Result::Ok(v) => v,
            Result::Err(e) => {
                return Result::Err(e);
            },
        };
        apply_binary(op, lv, rv)
    }

    /// Evaluates a short-circuiting logical expression: the left operand
    /// decides by truthiness whether the right one is evaluated at all;
    /// the result is always one of the two operand values.
    fn interpret_logical(
        &mut self,
        left: &Expr,
        op: &LogicalOp,
        loc: &SourceLocation,
        right: &Expr,
        fuel: u64,
    ) -> (r: Result<Value, Error>)
        requires
            old(self).wf(),
        ensures
            final(self).wf(),
            final(self).clock == old(self).clock,
            ({
                let (st1, r1) = eval_expr(*left, old(self).st(), old(self).clock, fuel as nat);
                match r1 {
                    Result::Err(err) => {
                        &&& final(self).st() == st1
                        &&& r matches Result::Err(e) && e@ == err
                    },
                    Result::Ok(lv) => match truthy(lv) {
                        Option::None => {
                            &&& final(self).st() == st1
                            &&& r matches Result::Err(e) && e@ == truthy_err(
                                loc.line as int,
                                loc.col as int,
                            )
                        },
                        Option::Some(b) => {
                            let decided = if *op is Or {
                                b
                            } else {
                                !b
                            };
                            if decided {
                                &&& final(self).st() == st1
                                &&& r matches Result::Ok(rv) && rv@ == lv
                            } else {
                                let (st2, r2) = eval_expr(*right, st1, old(self).clock, fuel as nat);
                                final(self).st() == st2 && val_res_matches(r, r2)
                            }
                        },
                    },
                }
            }),
        decreases fuel, expr_size(*left) + expr_size(*right), 3nat,
    {
        let lv = match self.get_value(left, fuel) {
            Result::Ok(v) => v,
            Result::Err(e) => {
                return Result::Err(e);
            },
        };
        let b = match is_truthy(&lv, loc.line, loc.col) {
            Result::Ok(b) => b,
            Result::Err(e) => {
                return Result::Err(e);
            },
        };
        let decided = match op {
            LogicalOp::Or => b,
            LogicalOp::And => !b,
        };
        if decided {
            Result::Ok(lv)
        } else {
            proof {
                lemma_expr_size_pos(*left);
            }
            self.get_value(right, fuel)
        }
    }

    /// Evaluates the call arguments from index `i` on, left to right.
    fn eval_arg_list(&mut self, args: &Vec<Expr>, i: usize, fuel: u64) -> (r: Result<
        Vec<Value>,
        Error,
    >)
        requires
            old(self).wf(),
            i <= args@.len(),
        ensures
            final(self).wf(),
            final(self).clock == old(self).clock,
            ({
                let (st2, res) = eval_args(args@, i as int, old(self).st(), old(self).clock, fuel as nat);
                final(self).st() == st2 && args_res_matches(r, res)
            }),
        decreases fuel, exprs_size_from(args@, i as int), 1nat,
    {
        if i >= args.len() {
            let empty: Vec<Value> = Vec::new();
            proof {
                assert(out_view(empty@) =~= Seq::<ValueV>::empty());
            }
            return Result::Ok(empty);
        }
        let v = match self.get_value(&args[i], fuel) {
            Result::Ok(v) => v,
            Result::Err(e) => {
                return Result::Err(e);
            },
        };
        proof {
            lemma_expr_size_pos(args@[i as int]);
        }
        let rest = match self.eval_arg_list(args, i + 1, fuel) {
            Result::Ok(vs) => vs,
            Result::Err(e) => {
                return Result::Err(e);
            },
        };
        let ghost vv = v@;
        let ghost rest0 = rest@;
        let mut out = rest;
        out.insert(0, v);
        proof {
            assert(out_view(out@) =~= seq![vv] + out_view(rest0));
        }
        Result::Ok(out)
    }

    /// Binds each parameter to its argument value in the innermost scope.
    fn bind_params(&mut self, params: &Vec<Symbol>, args: &Vec<Value>)
        requires
            old(self).wf(),
            params@.len() == args@.len(),
        ensures
            final(self).wf(),
            final(self).clock == old(self).clock,
            final(self).output == old(self).output,
            final(self).env@ == bind_params_env(old(self).env@, params@, 0, out_view(args@)),
    {
        let n = params.len();
        let mut i: usize = 0;
        while i < n
            invariant
                self.wf(),
                n == params@.len(),
                params@.len() == args@.len(),
                i <= n,
                self.clock == old(self).clock,
                self.output == old(self).output,
                bind_params_env(old(self).env@, params@, 0, out_view(args@)) == bind_params_env(
                    self.env@,
                    params@,
                    i as int,
                    out_view(args@),
                ),
            decreases n - i,
        {
            proof {
                assert(out_view(args@)[i as int] == args@[i as int]@);
            }
            self.env.define(&params[i], args[i].clone());
            i = i + 1;
        }
    }

    /// Executes the statements from index `i` on in the current
    /// environment, stopping at the first non-normal outcome.
    fn run_seq(&mut self, stmts: &Vec<Stmt>, i: usize, fuel: u64) -> (r: Result<Flow, Error>)
        requires
            old(self).wf(),
            i <= stmts@.len(),
        ensures
            final(self).wf(),
            final(self).clock == old(self).clock,
            ({
                let (st2, res) = exec_seq(stmts@, i as int, old(self).st(), old(self).clock, fuel as nat);
                final(self).st() == st2 && flow_res_matches(r, res)
            }),
        decreases fuel, stmts_size_from(stmts@, i as int), 1nat,
    {
        if i >= stmts.len() {
            return Result::Ok(Flow::Normal);
        }
        let f = match self.evaluate(&stmts[i], fuel) {
            Result::Ok(f) => f,
            Result::Err(e) => {
                return Result::Err(e);
            },
        };
        proof {
            lemma_stmt_size_pos(stmts@[i as int]);
        }
        match f {
            Flow::Normal => self.run_seq(stmts, i + 1, fuel),
            other => Result::Ok(other),
        }
    }

    /// Executes one statement: the state change and control flow are
    /// exactly those of [`exec_stmt`] under the given recursion budget.
    pub fn evaluate(&mut self, stmt: &Stmt, fuel: u64) -> (r: Result<Flow, Error>)
        requires
            old(self).wf(),
        ensures
            final(self).wf(),
            final(self).clock == old(self).clock,
            ({
                let (st2, res) = exec_stmt(*stmt, old(self).st(), old(self).clock, fuel as nat);
                final(self).st() == st2 && flow_res_matches(r, res)
            }),
        decreases fuel, stmt_size(*stmt), 0nat,
    {
        match stmt {
            Stmt::Expr(e) => match self.get_value(e, fuel) {
                Result::Ok(_) => Result::Ok(Flow::Normal),
                Result::Err(e) => Result::Err(e),
            },
            Stmt::Print(e) => {
                let v = match self.get_value(e, fuel) {
                    Result::Ok(v) => v,
                    Result::Err(e) => {
                        return Result::Err(e);
                    },
                };
                proof {
                    lemma_out_view_push(self.output@, v);
                }
                self.output.push(v);
                Result::Ok(Flow::Normal)
            },
            Stmt::VarDecl(sym, init) => {
                match init {
                    Option::None => {
                        self.env.define(sym, Value::Undefined);
                        Result::Ok(Flow::Normal)
                    },
                    Option::Some(e) => {
                        let v = match self.get_value(e, fuel) {
                            Result::Ok(v) => v,
                            Result::Err(e) => {
                                return Result::Err(e);
                            },
                        };
                        self.env.define(sym, v);
                        Result::Ok(Flow::Normal)
                    },
                }
            },
            Stmt::FunDecl(decl) => {
                let func = Value::LoxFunction(LoxFunction { declaration: Rc::clone(decl) });
                self.env.define(&decl.name, func);
                Result::Ok(Flow::Normal)
            },
            Stmt::Block(stmts) => self.interpret_block(stmts, fuel),
            Stmt::If(iloc, cond, then_b, else_b) => {
                let cv = match self.get_value(cond, fuel) {
                    Result::Ok(v) => v,
                    Result::Err(e) => {
                        return Result::Err(e);
                    },
                };
                let b = match is_truthy(&cv, iloc.line, iloc.col) {
                    Result::Ok(b) => b,
                    Result::Err(e) => {
                        return Result::Err(e);
                    },
                };
                if b {
                    self.evaluate(then_b, fuel)
                } else {
                    match else_b {
                        Option::Some(eb) => self.evaluate(eb, fuel),
                        Option::None => Result::Ok(Flow::Normal),
                    }
                }
            },
            Stmt::While(wloc, cond, body) => {
                let cv = match self.get_value(cond, fuel) {
                    Result::Ok(v) => v,
                    Result::Err(e) => {
                        return Result::Err(e);
                    },
                };
                let b = match is_truthy(&cv, wloc.line, wloc.col) {
                    Result::Ok(b) => b,
                    Result::Err(e) => {
                        return Result::Err(e);
                    },
                };
                if !b {
                    return Result::Ok(Flow::Normal);
                }
                let f = match self.evaluate(body, fuel) {
                    Result::Ok(f) => f,
                    Result::Err(e) => {
                        return Result::Err(e);
                    },
                };
                match f {
                    Flow::Break => Result::Ok(Flow::Normal),
                    Flow::Return(v) => Result::Ok(Flow::Return(v)),
                    Flow::Normal => {
                        if fuel == 0 {
                            Result::Err(Error::RecursionLimit)
                        } else {
                            self.evaluate(stmt, fuel - 1)
                        }
                    },
                }
            },
            Stmt::Return(_loc, val) => {
                match val {
                    Option::None => Result::Ok(Flow::Return(Value::Nil)),
                    Option::Some(e) => {
                        let v = match self.get_value(e, fuel) {
                            Result::Ok(v) => v,
                            Result::Err(e) => {
                                return Result::Err(e);
                            },
                        };
                        Result::Ok(Flow::Return(v))
                    },
                }
            },
            Stmt::Break => Result::Ok(Flow::Break),
        }
    }

    /// Executes a block: a fresh scope for the statements, dropped again
    /// on every exit path, normal or not.
    pub fn interpret_block(&mut self, statements: &Vec<Stmt>, fuel: u64) -> (r: Result<Flow, Error>)
        requires
            old(self).wf(),
        ensures
            final(self).wf(),
            final(self).clock == old(self).clock,
            ({
                let pushed = StateS {
                    env: old(self).st().env.push(Seq::<(Seq<char>, ValueV)>::empty()),
                    out: old(self).st().out,
                };
                let (st1, res) = exec_seq(statements@, 0, pushed, old(self).clock, fuel as nat);
                &&& final(self).st() == (StateS { env: st1.env.drop_last(), out: st1.out })
                &&& flow_res_matches(r, res)
            }),
        decreases fuel, stmts_size_from(statements@, 0), 2nat,
    {
        self.env.push_scope();
        let ghost pushed = self.st();
        let res = self.run_seq(statements, 0, fuel);
        proof {
            lemma_exec_seq_env_len(statements@, 0, pushed, old(self).clock, fuel as nat);
        }
        self.env.pop_scope();
        res
    }

    /// Runs a program's top-level statements in the current environment.
    /// A signal that reaches the top (impossible for parsed programs)
    /// simply ends the run.
    pub fn interpret(&mut self, stmts: &Vec<Stmt>, fuel: u64) -> (r: Result<(), Error>)
        requires
            old(self).wf(),
        ensures
            final(self).wf(),
            final(self).clock == old(self).clock,
            ({
                let (st2, res) = exec_seq(stmts@, 0, old(self).st(), old(self).clock, fuel as nat);
                &&& final(self).st() == st2
                &&& match (r, res) {
                    (Result::Ok(_), Result::Ok(_)) => true,
                    (Result::Err(e), Result::Err(ee)) => e@ == ee,
                    _ => false,
                }
            }),
    {
        match self.run_seq(stmts, 0, fuel) {
            Result::Ok(_) => Result::Ok(()),
            Result::Err(e) => Result::Err(e),
        }
    }
}



/// Calling a function neither adds nor drops scopes.
pub proof fn lemma_call_function_env_len(
    decl: FunDecl,
    vs: Seq<ValueV>,
    loc: SourceLocation,
    st: StateS,
    clock: u64,
    fuel: nat,
)
    requires
        st.env.len() >= 1,
    ensures
        call_function(decl, vs, loc, st, clock, fuel).0.env.len() == st.env.len(),
    decreases fuel, 0nat, 0nat,
{
    if vs.len() == decl.params@.len() && fuel > 0 {
        let env1 = bind_params_env(st.env.push(Seq::empty()), decl.params@, 0, vs);
        lemma_bind_params_len(st.env.push(Seq::empty()), decl.params@, 0, vs);
        lemma_exec_seq_env_len(
            decl.body@,
            0,
            StateS { env: env1, out: st.out },
            clock,
            (fuel - 1) as nat,
        );
    }
}

/// Parentheses are transparent to evaluation: a grouping evaluates to
/// exactly what its inner expression evaluates to, in the same state and
/// under the same budget.
pub proof fn lemma_grouping_transparent(g: Expr, st: StateS, clock: u64, fuel: nat)
    requires
        g is Grouping,
    ensures
        eval_expr(g, st, clock, fuel) == eval_expr(*g->Grouping_0, st, clock, fuel),
{
}

/// A call whose body finishes without executing a `return` statement
/// yields `Nil`, whatever else the body did.
pub proof fn lemma_call_fallthrough_nil(
    decl: FunDecl,
    vs: Seq<ValueV>,
    loc: SourceLocation,
    st: StateS,
    clock: u64,
    fuel: nat,
)
    requires
        vs.len() == decl.params@.len(),
        fuel > 0,
        ({
            let env1 = bind_params_env(st.env.push(Seq::empty()), decl.params@, 0, vs);
            let (st3, r3) = exec_seq(
                decl.body@,
                0,
                StateS { env: env1, out: st.out },
                clock,
                (fuel - 1) as nat,
            );
            r3 matches Result::Ok(f) && !(f is Return)
        }),
    ensures
        call_function(decl, vs, loc, st, clock, fuel).1 == Result::<ValueV, ErrorV>::Ok(
            ValueV::Nil,
        ),
{
}


/// `post` keeps every value `pre` had already printed, in place, and may
/// only append.
pub open spec fn out_extends(pre: Seq<ValueV>, post: Seq<ValueV>) -> bool {
    &&& pre.len() <= post.len()
    &&& forall|i: int| 0 <= i < pre.len() ==> post[i] == pre[i]
}

/// Evaluating an expression never retracts printed output.
pub proof fn lemma_eval_expr_out_extends(e: Expr, st: StateS, clock: u64, fuel: nat)
    ensures
        out_extends(st.out, eval_expr(e, st, clock, fuel).0.out),
    decreases fuel, expr_size(e), 0nat,
{
    match e {
        Expr::Literal(_) => {},
        Expr::Variable(_) => {},
        Expr::Grouping(g) => {
            lemma_eval_expr_out_extends(*g, st, clock, fuel);
        },
        Expr::Unary(_, sub) => {
            lemma_eval_expr_out_extends(*sub, st, clock, fuel);
        },
        Expr::Assign(_, sub) => {
            lemma_eval_expr_out_extends(*sub, st, clock, fuel);
        },
        Expr::Binary(le, _, re) => {
            lemma_eval_expr_out_extends(*re, st, clock, fuel);
            let (st1, r1) = eval_expr(*re, st, clock, fuel);
            if r1 is Ok {
                lemma_eval_expr_out_extends(*le, st1, clock, fuel);
            }
        },
        Expr::Logical(le, _, _, re) => {
            lemma_eval_expr_out_extends(*le, st, clock, fuel);
            let (st1, r1) = eval_expr(*le, st, clock, fuel);
            if r1 is Ok {
                lemma_eval_expr_out_extends(*re, st1, clock, fuel);
            }
        },
        Expr::Call(callee, loc, cargs) => {
            lemma_eval_expr_out_extends(*callee, st, clock, fuel);
            let (st1, r1) = eval_expr(*callee, st, clock, fuel);
            if r1 is Ok {
                lemma_eval_args_out_extends(cargs@, 0, st1, clock, fuel);
                let (st2, r2) = eval_args(cargs@, 0, st1, clock, fuel);
                if r2 is Ok {
                    match r1->Ok_0 {
                        ValueV::Fun(decl) => {
                            lemma_call_function_out_extends(
                                decl,
                                r2->Ok_0,
                                loc,
                                st2,
                                clock,
                                fuel,
                            );
                        },
                        _ => {},
                    }
                }
            }
        },
    }
}

/// Evaluating an argument list never retracts printed output.
pub proof fn lemma_eval_args_out_extends(args: Seq<Expr>, i: int, st: StateS, clock: u64, fuel: nat)
    ensures
        out_extends(st.out, eval_args(args, i, st, clock, fuel).0.out),
    decreases fuel, exprs_size_from(args, i), 1nat,
{
    if 0 <= i < args.len() {
        lemma_expr_size_pos(args[i]);
        lemma_eval_expr_out_extends(args[i], st, clock, fuel);
        let (st1, r1) = eval_expr(args[i], st, clock, fuel);
        if r1 is Ok {
            lemma_eval_args_out_extends(args, i + 1, st1, clock, fuel);
        }
    }
}

/// Calling a function never retracts printed output.
pub proof fn lemma_call_function_out_extends(
    decl: FunDecl,
    vs: Seq<ValueV>,
    loc: SourceLocation,
    st: StateS,
    clock: u64,
    fuel: nat,
)
    ensures
        out_extends(st.out, call_function(decl, vs, loc, st, clock, fuel).0.out),
    decreases fuel, 0nat, 0nat,
{
    if vs.len() == decl.params@.len() && fuel > 0 {
        let env1 = bind_params_env(st.env.push(Seq::empty()), decl.params@, 0, vs);
        lemma_exec_seq_out_extends(
            decl.body@,
            0,
            StateS { env: env1, out: st.out },
            clock,
            (fuel - 1) as nat,
        );
    }
}

/// Executing a statement never retracts printed output, on any path —
/// also when it ends in an error or a control-flow signal.
pub proof fn lemma_exec_stmt_out_extends(s: Stmt, st: StateS, clock: u64, fuel: nat)
    ensures
        out_extends(st.out, exec_stmt(s, st, clock, fuel).0.out),
    decreases fuel, stmt_size(s), 0nat,
{
    match s {
        Stmt::Expr(e) => {
            lemma_eval_expr_out_extends(e, st, clock, fuel);
        },
        Stmt::Print(e) => {
            lemma_eval_expr_out_extends(e, st, clock, fuel);
        },
        Stmt::VarDecl(_, init) => {
            match init {
                Option::None => {},
                Option::Some(e) => {
                    lemma_eval_expr_out_extends(e, st, clock, fuel);
                },
            }
        },
        Stmt::FunDecl(_) => {},
        Stmt::Block(stmts) => {
            lemma_exec_seq_out_extends(
                stmts@,
                0,
                StateS { env: st.env.push(Seq::empty()), out: st.out },
                clock,
                fuel,
            );
        },
        Stmt::If(_, cond, then_b, else_b) => {
            lemma_eval_expr_out_extends(cond, st, clock, fuel);
            let (st1, r1) = eval_expr(cond, st, clock, fuel);
            if r1 is Ok {
                match truthy(r1->Ok_0) {
                    Option::Some(true) => {
                        lemma_exec_stmt_out_extends(*then_b, st1, clock, fuel);
                    },
                    Option::Some(false) => {
                        match else_b {
                            Option::Some(eb) => {
                                lemma_exec_stmt_out_extends(*eb, st1, clock, fuel);
                            },
                            Option::None => {},
                        }
                    },
                    Option::None => {},
                }
            }
        },
        Stmt::While(_, cond, body) => {
            lemma_eval_expr_out_extends(cond, st, clock, fuel);
            let (st1, r1) = eval_expr(cond, st, clock, fuel);
            if r1 is Ok && truthy(r1->Ok_0) == Option::Some(true) {
                lemma_exec_stmt_out_extends(*body, st1, clock, fuel);
                let (st2, r2) = exec_stmt(*body, st1, clock, fuel);
                if r2 == Result::<FlowV, ErrorV>::Ok(FlowV::Normal) && fuel > 0 {
                    lemma_exec_stmt_out_extends(s, st2, clock, (fuel - 1) as nat);
                }
            }
        },
        Stmt::Return(_, val) => {
            match val {
                Option::None => {},
                Option::Some(e) => {
                    lemma_eval_expr_out_extends(e, st, clock, fuel);
                },
            }
        },
        Stmt::Break => {},
    }
}

/// Executing a statement sequence never retracts printed output.
pub proof fn lemma_exec_seq_out_extends(stmts: Seq<Stmt>, i: int, st: StateS, clock: u64, fuel: nat)
    ensures
        out_extends(st.out, exec_seq(stmts, i, st, clock, fuel).0.out),
    decreases fuel, stmts_size_from(stmts, i), 1nat,
{
    if 0 <= i < stmts.len() {
        lemma_stmt_size_pos(stmts[i]);
        lemma_exec_stmt_out_extends(stmts[i], st, clock, fuel);
        let (st1, r1) = exec_stmt(stmts[i], st, clock, fuel);
        if r1 == Result::<FlowV, ErrorV>::Ok(FlowV::Normal) {
            lemma_exec_seq_out_extends(stmts, i + 1, st1, clock, fuel);
        }
    }
}


/// The first `n` scopes of `post` bind exactly the names the first `n`
/// scopes of `pre` bind (their values may differ).
pub open spec fn scopes_keys_preserved(
    pre: Seq<Seq<(Seq<char>, ValueV)>>,
    post: Seq<Seq<(Seq<char>, ValueV)>>,
    n: int,
) -> bool {
    forall|j: int| 0 <= j < n ==> scope_keys(#[trigger] post[j]) == scope_keys(pre[j])
}

proof fn lemma_keys_preserved_trans(
    a: Seq<Seq<(Seq<char>, ValueV)>>,
    b: Seq<Seq<(Seq<char>, ValueV)>>,
    c: Seq<Seq<(Seq<char>, ValueV)>>,
    n: int,
)
    requires
        scopes_keys_preserved(a, b, n),
        scopes_keys_preserved(b, c, n),
    ensures
        scopes_keys_preserved(a, c, n),
{
    assert forall|j: int| 0 <= j < n implies scope_keys(#[trigger] c[j]) == scope_keys(a[j]) by {
        assert(scope_keys(b[j]) == scope_keys(a[j]));
    }
}

proof fn lemma_bind_params_below(
    env: Seq<Seq<(Seq<char>, ValueV)>>,
    params: Seq<Symbol>,
    i: int,
    args: Seq<ValueV>,
)
    requires
        env.len() >= 1,
    ensures
        forall|j: int|
            0 <= j < env.len() - 1 ==> #[trigger] bind_params_env(env, params, i, args)[j]
                == env[j],
    decreases params.len() - i,
{
    if 0 <= i < params.len() {
        let d = env_define(env, params[i]@.name, args[i]);
        lemma_bind_params_below(d, params, i + 1, args);
        assert forall|j: int|
            0 <= j < env.len() - 1 implies #[trigger] bind_params_env(env, params, i, args)[j]
            == env[j] by {
            assert(bind_params_env(d, params, i + 1, args)[j] == d[j]);
            assert(d[j] == env[j]);
        }
    }
}

/// Evaluating an expression may rewrite bound values but never adds or
/// removes a binding in any scope.
pub proof fn lemma_eval_expr_keeps_scope_names(e: Expr, st: StateS, clock: u64, fuel: nat)
    requires
        st.env.len() >= 1,
    ensures
        scopes_keys_preserved(st.env, eval_expr(e, st, clock, fuel).0.env, st.env.len() as int),
    decreases fuel, expr_size(e), 0nat,
{
    let n = st.env.len() as int;
    match e {
        Expr::Literal(_) => {},
        Expr::Variable(_) => {},
        Expr::Grouping(g) => {
            lemma_eval_expr_keeps_scope_names(*g, st, clock, fuel);
        },
        Expr::Unary(_, sub) => {
            lemma_eval_expr_keeps_scope_names(*sub, st, clock, fuel);
        },
        Expr::Assign(sym, sub) => {
            lemma_eval_expr_keeps_scope_names(*sub, st, clock, fuel);
            lemma_eval_expr_env_len(*sub, st, clock, fuel);
            let (st1, r1) = eval_expr(*sub, st, clock, fuel);
            if r1 is Ok {
                lemma_env_assign_keys(st1.env, sym@.name, r1->Ok_0);
                match env_assign(st1.env, sym@.name, r1->Ok_0) {
                    Option::Some(env2) => {
                        lemma_keys_preserved_trans(st.env, st1.env, env2, n);
                    },
                    Option::None => {},
                }
            }
        },
        Expr::Binary(le, _, re) => {
            lemma_eval_expr_keeps_scope_names(*re, st, clock, fuel);
            lemma_eval_expr_env_len(*re, st, clock, fuel);
            let (st1, r1) = eval_expr(*re, st, clock, fuel);
            if r1 is Ok {
                lemma_eval_expr_keeps_scope_names(*le, st1, clock, fuel);
                let (st2, _) = eval_expr(*le, st1, clock, fuel);
                lemma_keys_preserved_trans(st.env, st1.env, st2.env, n);
            }
        },
        Expr::Logical(le, _, _, re) => {
            lemma_eval_expr_keeps_scope_names(*le, st, clock, fuel);
            lemma_eval_expr_env_len(*le, st, clock, fuel);
            let (st1, r1) = eval_expr(*le, st, clock, fuel);
            if r1 is Ok {
                lemma_eval_expr_keeps_scope_names(*re, st1, clock, fuel);
                let (st2, _) = eval_expr(*re, st1, clock, fuel);
                lemma_keys_preserved_trans(st.env, st1.env, st2.env, n);
            }
        },
        Expr::Call(callee, loc, cargs) => {
            lemma_eval_expr_keeps_scope_names(*callee, st, clock, fuel);
            lemma_eval_expr_env_len(*callee, st, clock, fuel);
            let (st1, r1) = eval_expr(*callee, st, clock, fuel);
            if r1 is Ok {
                lemma_eval_args_keeps_scope_names(cargs@, 0, st1, clock, fuel);
                lemma_eval_args_env_len(cargs@, 0, st1, clock, fuel);
                let (st2, r2) = eval_args(cargs@, 0, st1, clock, fuel);
                lemma_keys_preserved_trans(st.env, st1.env, st2.env, n);
                if r2 is Ok {
                    match r1->Ok_0 {
                        ValueV::Fun(decl) => {
                            lemma_call_function_keeps_scope_names(
                                decl,
                                r2->Ok_0,
                                loc,
                                st2,
                                clock,
                                fuel,
                            );
                            let (st4, _) = call_function(decl, r2->Ok_0, loc, st2, clock, fuel);
                            lemma_keys_preserved_trans(st.env, st2.env, st4.env, n);
                        },
                        _ => {},
                    }
                }
            }
        },
    }
}

/// Evaluating an argument list never adds or removes a binding in any
/// scope.
pub proof fn lemma_eval_args_keeps_scope_names(
    args: Seq<Expr>,
    i: int,
    st: StateS,
    clock: u64,
    fuel: nat,
)
    requires
        st.env.len() >= 1,
    ensures
        scopes_keys_preserved(st.env, eval_args(args, i, st, clock, fuel).0.env, st.env.len() as int),
    decreases fuel, exprs_size_from(args, i), 1nat,
{
    let n = st.env.len() as int;
    if 0 <= i < args.len() {
        lemma_expr_size_pos(args[i]);
        lemma_eval_expr_keeps_scope_names(args[i], st, clock, fuel);
        lemma_eval_expr_env_len(args[i], st, clock, fuel);
        let (st1, r1) = eval_expr(args[i], st, clock, fuel);
        if r1 is Ok {
            lemma_eval_args_keeps_scope_names(args, i + 1, st1, clock, fuel);
            let (st2, _) = eval_args(args, i + 1, st1, clock, fuel);
            lemma_keys_preserved_trans(st.env, st1.env, st2.env, n);
        }
    }
}

/// A call touches only its own fresh scope: every scope of the caller
/// keeps exactly the names it had.
pub proof fn lemma_call_function_keeps_scope_names(
    decl: FunDecl,
    vs: Seq<ValueV>,
    loc: SourceLocation,
    st: StateS,
    clock: u64,
    fuel: nat,
)
    requires
        st.env.len() >= 1,
    ensures
        scopes_keys_preserved(
            st.env,
            call_function(decl, vs, loc, st, clock, fuel).0.env,
            st.env.len() as int,
        ),
    decreases fuel, 0nat, 0nat,
{
    let n = st.env.len() as int;
    if vs.len() == decl.params@.len() && fuel > 0 {
        let pushed = st.env.push(Seq::empty());
        let env1 = bind_params_env(pushed, decl.params@, 0, vs);
        lemma_bind_params_below(pushed, decl.params@, 0, vs);
        lemma_bind_params_len(pushed, decl.params@, 0, vs);
        let bst = StateS { env: env1, out: st.out };
        lemma_exec_seq_keeps_scope_names(decl.body@, 0, bst, clock, (fuel - 1) as nat);
        lemma_exec_seq_env_len(decl.body@, 0, bst, clock, (fuel - 1) as nat);
        let (st3, _) = exec_seq(decl.body@, 0, bst, clock, (fuel - 1) as nat);
        assert forall|j: int| 0 <= j < n implies scope_keys(
            #[trigger] st3.env.drop_last()[j],
        ) == scope_keys(st.env[j]) by {
            assert(env1[j] == st.env[j]);
            assert(scope_keys(st3.env[j]) == scope_keys(env1[j]));
            assert(st3.env.drop_last()[j] == st3.env[j]);
        }
    }
}

/// Inner declarations do not leak: executing a statement never adds or
/// removes a binding in any *enclosing* scope. `var` writes the innermost
/// scope alone, blocks and calls drop the scopes they pushed, and
/// assignment rewrites values, never the set of names.
pub proof fn lemma_exec_stmt_keeps_scope_names(s: Stmt, st: StateS, clock: u64, fuel: nat)
    requires
        st.env.len() >= 1,
    ensures
        scopes_keys_preserved(
            st.env,
            exec_stmt(s, st, clock, fuel).0.env,
            st.env.len() as int - 1,
        ),
    decreases fuel, stmt_size(s), 0nat,
{
    let n = st.env.len() as int;
    match s {
        Stmt::Expr(e) => {
            lemma_eval_expr_keeps_scope_names(e, st, clock, fuel);
        },
        Stmt::Print(e) => {
            lemma_eval_expr_keeps_scope_names(e, st, clock, fuel);
        },
        Stmt::VarDecl(sym, init) => {
            match init {
                Option::None => {},
                Option::Some(e) => {
                    lemma_eval_expr_keeps_scope_names(e, st, clock, fuel);
                    lemma_eval_expr_env_len(e, st, clock, fuel);
                    let (st1, r1) = eval_expr(e, st, clock, fuel);
                    if r1 is Ok {
                        assert forall|j: int| 0 <= j < n - 1 implies scope_keys(
                            #[trigger] env_define(st1.env, sym@.name, r1->Ok_0)[j],
                        ) == scope_keys(st.env[j]) by {
                            assert(env_define(st1.env, sym@.name, r1->Ok_0)[j] == st1.env[j]);
                            assert(scope_keys(st1.env[j]) == scope_keys(st.env[j]));
                        }
                    }
                },
            }
        },
        Stmt::FunDecl(_) => {},
        Stmt::Block(stmts) => {
            let pushed = StateS { env: st.env.push(Seq::empty()), out: st.out };
            lemma_exec_seq_keeps_scope_names(stmts@, 0, pushed, clock, fuel);
            lemma_exec_seq_env_len(stmts@, 0, pushed, clock, fuel);
            let (st1, _) = exec_seq(stmts@, 0, pushed, clock, fuel);
            assert forall|j: int| 0 <= j < n - 1 implies scope_keys(
                #[trigger] st1.env.drop_last()[j],
            ) == scope_keys(st.env[j]) by {
                assert(scope_keys(st1.env[j]) == scope_keys(pushed.env[j]));
                assert(pushed.env[j] == st.env[j]);
                assert(st1.env.drop_last()[j] == st1.env[j]);
            }
        },
        Stmt::If(_, cond, then_b, else_b) => {
            lemma_eval_expr_keeps_scope_names(cond, st, clock, fuel);
            lemma_eval_expr_env_len(cond, st, clock, fuel);
            let (st1, r1) = eval_expr(cond, st, clock, fuel);
            if r1 is Ok {
                match truthy(r1->Ok_0) {
                    Option::Some(true) => {
                        lemma_exec_stmt_keeps_scope_names(*then_b, st1, clock, fuel);
                        let (st2, _) = exec_stmt(*then_b, st1, clock, fuel);
                        lemma_keys_preserved_trans(st.env, st1.env, st2.env, n - 1);
                    },
                    Option::Some(false) => {
                        match else_b {
                            Option::Some(eb) => {
                                lemma_exec_stmt_keeps_scope_names(*eb, st1, clock, fuel);
                                let (st2, _) = exec_stmt(*eb, st1, clock, fuel);
                                lemma_keys_preserved_trans(st.env, st1.env, st2.env, n - 1);
                            },
                            Option::None => {},
                        }
                    },
                    Option::None => {},
                }
            }
        },
        Stmt::While(_, cond, body) => {
            lemma_eval_expr_keeps_scope_names(cond, st, clock, fuel);
            lemma_eval_expr_env_len(cond, st, clock, fuel);
            let (st1, r1) = eval_expr(cond, st, clock, fuel);
            if r1 is Ok && truthy(r1->Ok_0) == Option::Some(true) {
                lemma_exec_stmt_keeps_scope_names(*body, st1, clock, fuel);
                lemma_exec_stmt_env_len(*body, st1, clock, fuel);
                let (st2, r2) = exec_stmt(*body, st1, clock, fuel);
                lemma_keys_preserved_trans(st.env, st1.env, st2.env, n - 1);
                if r2 == Result::<FlowV, ErrorV>::Ok(FlowV::Normal) && fuel > 0 {
                    lemma_exec_stmt_keeps_scope_names(s, st2, clock, (fuel - 1) as nat);
                    let (st3, _) = exec_stmt(s, st2, clock, (fuel - 1) as nat);
                    lemma_keys_preserved_trans(st.env, st2.env, st3.env, n - 1);
                }
            }
        },
        Stmt::Return(_, val) => {
            match val {
                Option::None => {},
                Option::Some(e) => {
                    lemma_eval_expr_keeps_scope_names(e, st, clock, fuel);
                },
            }
        },
        Stmt::Break => {},
    }
}

/// Executing a statement sequence never adds or removes a binding in any
/// enclosing scope.
pub proof fn lemma_exec_seq_keeps_scope_names(
    stmts: Seq<Stmt>,
    i: int,
    st: StateS,
    clock: u64,
    fuel: nat,
)
    requires
        st.env.len() >= 1,
    ensures
        scopes_keys_preserved(
            st.env,
            exec_seq(stmts, i, st, clock, fuel).0.env,
            st.env.len() as int - 1,
        ),
    decreases fuel, stmts_size_from(stmts, i), 1nat,
{
    let n = st.env.len() as int;
    if 0 <= i < stmts.len() {
        lemma_stmt_size_pos(stmts[i]);
        lemma_exec_stmt_keeps_scope_names(stmts[i], st, clock, fuel);
        lemma_exec_stmt_env_len(stmts[i], st, clock, fuel);
        let (st1, r1) = exec_stmt(stmts[i], st, clock, fuel);
        if r1 == Result::<FlowV, ErrorV>::Ok(FlowV::Normal) {
            lemma_exec_seq_keeps_scope_names(stmts, i + 1, st1, clock, fuel);
            let (st2, _) = exec_seq(stmts, i + 1, st1, clock, fuel);
            lemma_keys_preserved_trans(st.env, st1.env, st2.env, n - 1);
        }
    }
}

} // verus!

//! The parser: recursive descent over the token sequence, precedence
//! climbing for expressions, and statement forms with error recovery.
//!
//! Every parsing function is proved to terminate, to leave the token
//! stream itself untouched, to keep the cursor inside the stream, and to
//! consume at least one token on success. An accepted expression's tree is
//! proved to linearize to exactly the token types consumed (see
//! [`expr_token_types`]), every parsing function owes success — with the
//! result's kind and the cursor's landing point fixed — on a witness
//! class of inputs, and the parse-time errors (an invalid assignment
//! target, `break` outside a loop, `return` outside a function) are
//! stated with their positions. Parsing fails fast: the first error is
//! reported, after the cursor has re-synchronized at a statement
//! boundary.

use vstd::prelude::*;

use std::rc::Rc;

use crate::error::{Error, ErrorV, FunctionKind};
use crate::expr::{
    binary_ty_of, is_binary_op_token, BinaryOp, BinaryOpTy, Expr, FunDecl, Literal, LogicalOp,
    SourceLocation,
    Stmt, Symbol, UnaryOp, UnaryOpTy,
};
use crate::token::{Token, TokenLit, TokenType};

verus! {


/// The token type a binary operator is written as.
pub open spec fn token_of_binary(op: BinaryOpTy) -> TokenType {
    match op {
        BinaryOpTy::Minus => TokenType::Minus,
        BinaryOpTy::Plus => TokenType::Plus,
        BinaryOpTy::Slash => TokenType::Slash,
        BinaryOpTy::Star => TokenType::Star,
        BinaryOpTy::NotEqual => TokenType::BangEqual,
        BinaryOpTy::EqualEqual => TokenType::EqualEqual,
        BinaryOpTy::Greater => TokenType::Greater,
        BinaryOpTy::GreaterEqual => TokenType::GreaterEqual,
        BinaryOpTy::Less => TokenType::Less,
        BinaryOpTy::LessEqual => TokenType::LessEqual,
    }
}

/// The token type a unary operator is written as.
pub open spec fn token_of_unary(op: UnaryOpTy) -> TokenType {
    match op {
        UnaryOpTy::Minus => TokenType::Minus,
        UnaryOpTy::Bang => TokenType::Bang,
    }
}

/// The token type a logical operator is written as.
pub open spec fn token_of_logical(op: LogicalOp) -> TokenType {
    match op {
        LogicalOp::Or => TokenType::Or,
        LogicalOp::And => TokenType::And,
    }
}

/// The token types an expression is written as, in source order: its
/// linearization back into the token stream.
pub open spec fn expr_token_types(e: Expr) -> Seq<TokenType>
    decreases e, 0nat,
{
    match e {
        Expr::Literal(l) => seq![
            match l {
                Literal::Number(_) => TokenType::Number,
                Literal::String(_) => TokenType::QuotedString,
                Literal::True => TokenType::True,
                Literal::False => TokenType::False,
                Literal::Nil => TokenType::Nil,
            },
        ],
        Expr::Variable(_) => seq![TokenType::Identifier],
        Expr::Unary(op, sub) => seq![token_of_unary(op.ty)] + expr_token_types(*sub),
        Expr::Binary(l, op, r) => expr_token_types(*l) + seq![token_of_binary(op.ty)]
            + expr_token_types(*r),
        Expr::Logical(l, op, _, r) => expr_token_types(*l) + seq![token_of_logical(op)]
            + expr_token_types(*r),
        Expr::Grouping(g) => seq![TokenType::LeftParen] + expr_token_types(*g)
            + seq![TokenType::RightParen],
        Expr::Assign(_, sub) => seq![TokenType::Identifier, TokenType::Equal] + expr_token_types(
            *sub,
        ),
        Expr::Call(c, _, cargs) => expr_token_types(*c) + seq![TokenType::LeftParen]
            + args_token_types(cargs@, 0) + seq![TokenType::RightParen],
    }
}

/// The token types of a comma-separated argument list from index `i` on.
pub open spec fn args_token_types(args: Seq<Expr>, i: int) -> Seq<TokenType>
    decreases args, args.len() - i + 1,
{
    if i < 0 || i >= args.len() {
        Seq::empty()
    } else if i == args.len() - 1 {
        expr_token_types(args[i])
    } else {
        expr_token_types(args[i]) + seq![TokenType::Comma] + args_token_types(args, i + 1)
    }
}

/// The token types of a token sequence.
pub open spec fn token_types(ts: Seq<Token>) -> Seq<TokenType> {
    ts.map_values(|t: Token| t.ty)
}

/// From `c` on, the tokens spell 255 single-token arguments each followed
/// by a comma: the shape that overruns the argument cap.
pub open spec fn args_run(ts: Seq<Token>, c: int) -> bool {
    forall|k: int|
        0 <= k < 255 ==> (atom_token(#[trigger] ts[c + 2 * k]) && ts[c + 1 + 2 * k].ty
            == TokenType::Comma)
}

/// From `c + 2` on, the tokens spell 255 parameters each followed by a
/// comma: the shape that overruns the parameter cap.
pub open spec fn params_run(ts: Seq<Token>, c: int) -> bool {
    forall|k: int|
        0 <= k < 255 ==> (#[trigger] ts[c + 2 + 2 * k].ty == TokenType::Identifier && ts[c + 3
            + 2 * k].ty == TokenType::Comma)
}

/// A token that is a complete expression by itself: a literal with its
/// payload in place, or an identifier.
pub open spec fn atom_token(t: Token) -> bool {
    ||| t.ty == TokenType::False
    ||| t.ty == TokenType::True
    ||| t.ty == TokenType::Nil
    ||| (t.ty == TokenType::Number && t.literal matches Option::Some(TokenLit::Num(_)))
    ||| (t.ty == TokenType::QuotedString && t.literal matches Option::Some(TokenLit::Str(_)))
    ||| t.ty == TokenType::Identifier
}

/// A token type that extends an operand chain: an operator or a call's
/// opening parenthesis. Everything below assignment stops in front of any
/// other token.
pub open spec fn continues_operand(t: TokenType) -> bool {
    ||| is_binary_op_token(t)
    ||| t == TokenType::Or
    ||| t == TokenType::And
    ||| t == TokenType::LeftParen
}

/// A token type that continues an expression after a complete operand:
/// an operand extension or an assignment sign.
pub open spec fn continues_expr(t: TokenType) -> bool {
    continues_operand(t) || t == TokenType::Equal
}

/// A leaf node: what one atom token parses to.
pub open spec fn is_leaf(e: Expr) -> bool {
    e is Literal || e is Variable
}

/// `e` is exactly the leaf the atom token `t` parses to: the matching
/// literal, or a variable carrying the token's name and position.
pub open spec fn leaf_of(e: Expr, t: Token) -> bool {
    &&& is_leaf(e)
    &&& t.ty == TokenType::False ==> e == Expr::Literal(Literal::False)
    &&& t.ty == TokenType::True ==> e == Expr::Literal(Literal::True)
    &&& t.ty == TokenType::Nil ==> e == Expr::Literal(Literal::Nil)
    &&& t.ty == TokenType::Number ==> (t.literal matches Option::Some(TokenLit::Num(n)) ==> e
        == Expr::Literal(Literal::Number(n)))
    &&& t.ty == TokenType::QuotedString ==> (t.literal matches Option::Some(TokenLit::Str(lit))
        ==> (e matches Expr::Literal(l) && l matches Literal::String(s2) && s2@ == lit@))
    &&& t.ty == TokenType::Identifier ==> (e matches Expr::Variable(sym) && sym@.name == t.lexeme@
        && sym@.line == t.line as int && sym@.col == t.col as int)
}

/// `e` is `a op b`: the leaves of the atom tokens at `c` and `c + 2`,
/// joined by the operator written at `c + 1`.
pub open spec fn flat_at(e: Expr, ts: Seq<Token>, c: int) -> bool {
    e matches Expr::Binary(l, op, r) && leaf_of(*l, ts[c]) && leaf_of(*r, ts[c + 2]) && op.ty
        == binary_ty_of(ts[c + 1].ty) && op.line == ts[c + 1].line && op.col == ts[c + 1].col
}

/// The left-associated tree of the five tokens at `c`:
/// `(a op1 b) op2 c`.
pub open spec fn left_assoc_at(e: Expr, ts: Seq<Token>, c: int) -> bool {
    e matches Expr::Binary(l, op, r) && flat_at(*l, ts, c) && leaf_of(*r, ts[c + 4]) && op.ty
        == binary_ty_of(ts[c + 3].ty) && op.line == ts[c + 3].line && op.col == ts[c + 3].col
}

/// The precedence tree of the five tokens at `c`: `a op1 (b op2 c)`, the
/// tighter operator grouped to the right.
pub open spec fn prec_at(e: Expr, ts: Seq<Token>, c: int) -> bool {
    e matches Expr::Binary(l, op, r) && leaf_of(*l, ts[c]) && op.ty == binary_ty_of(ts[c + 1].ty)
        && op.line == ts[c + 1].line && op.col == ts[c + 1].col && flat_at(*r, ts, c + 2)
}

proof fn lemma_types_split(ts: Seq<Token>, a: int, b: int, c: int)
    requires
        0 <= a <= b <= c <= ts.len(),
    ensures
        token_types(ts.subrange(a, c)) == token_types(ts.subrange(a, b)) + token_types(
            ts.subrange(b, c),
        ),
{
    assert(token_types(ts.subrange(a, c)) =~= token_types(ts.subrange(a, b)) + token_types(
        ts.subrange(b, c),
    ));
}

proof fn lemma_types_single(ts: Seq<Token>, a: int)
    requires
        0 <= a < ts.len(),
    ensures
        token_types(ts.subrange(a, a + 1)) == seq![ts[a].ty],
{
    assert(token_types(ts.subrange(a, a + 1)) =~= seq![ts[a].ty]);
}

proof fn lemma_types_empty(ts: Seq<Token>, a: int)
    requires
        0 <= a <= ts.len(),
    ensures
        token_types(ts.subrange(a, a)) == Seq::<TokenType>::empty(),
{
    assert(token_types(ts.subrange(a, a)) =~= Seq::<TokenType>::empty());
}

proof fn lemma_args_types_push(args: Seq<Expr>, a: Expr, i: int)
    requires
        0 <= i <= args.len(),
    ensures
        i < args.len() ==> args_token_types(args.push(a), i) == args_token_types(args, i)
            + seq![TokenType::Comma] + expr_token_types(a),
        i == args.len() ==> args_token_types(args.push(a), i) == expr_token_types(a),
    decreases args.len() - i,
{
    let p = args.push(a);
    if i == args.len() {
        assert(p[i] == a);
    } else {
        lemma_args_types_push(args, a, i + 1);
        assert(p[i] == args[i]);
        if i == args.len() - 1 {
            assert(expr_token_types(args[i]) + seq![TokenType::Comma] + expr_token_types(a)
                =~= args_token_types(args, i) + seq![TokenType::Comma] + expr_token_types(a));
        } else {
            assert(expr_token_types(p[i]) + seq![TokenType::Comma] + (args_token_types(args, i + 1)
                + seq![TokenType::Comma] + expr_token_types(a)) =~= args_token_types(args, i)
                + seq![TokenType::Comma] + expr_token_types(a));
        }
    }
}

/// The parser's cursor over a scanned token sequence, with the flags that
/// make `break` and `return` parse-time errors outside their constructs.
#[derive(Debug)]
pub struct LoxParser {
    pub tokens: Vec<Token>,
    pub current: usize,
    pub in_loop: bool,
    pub in_function: bool,
}

/// The cursor stays strictly inside a nonempty stream that ends with the
/// end-of-input marker.
pub open spec fn parser_wf(p: LoxParser) -> bool {
    &&& p.tokens@.len() >= 1
    &&& p.tokens@.last().ty == TokenType::Eof
    &&& p.current < p.tokens@.len()
}

/// What every parsing step guarantees: well-formedness, the same stream
/// and flags, a cursor that never moves backwards — and forwards when
/// `consumed` holds.
pub open spec fn parse_step(pre: LoxParser, post: LoxParser, consumed: bool) -> bool {
    &&& parser_wf(post)
    &&& post.tokens@ == pre.tokens@
    &&& post.in_loop == pre.in_loop
    &&& post.in_function == pre.in_function
    &&& pre.current <= post.current
    &&& (consumed ==> pre.current < post.current)
}

impl LoxParser {
    pub open spec fn wf(&self) -> bool {
        parser_wf(*self)
    }

    /// The type of the token under the cursor.
    pub open spec fn peek_ty(&self) -> TokenType {
        self.tokens@[self.current as int].ty
    }

    /// A parser at the start of the given token sequence.
    pub fn from_tokens(tokens: Vec<Token>) -> (r: LoxParser)
        requires
            tokens@.len() >= 1,
            tokens@.last().ty == TokenType::Eof,
        ensures
            r.wf(),
            r.tokens@ == tokens@,
            r.current == 0,
            r.in_loop == false,
            r.in_function == false,
    {
        LoxParser { tokens, current: 0, in_loop: false, in_function: false }
    }

    /// The token under the cursor.
    pub fn peek(&self) -> (t: &Token)
        requires
            self.wf(),
        ensures
            *t == self.tokens@[self.current as int],
    {
        &self.tokens[self.current]
    }

    /// Whether the cursor has reached the end-of-input marker.
    pub fn is_at_end(&self) -> (r: bool)
        requires
            self.wf(),
        ensures
            r == (self.peek_ty() == TokenType::Eof),
    {
        self.peek().ty == TokenType::Eof
    }

    /// Whether the token under the cursor has the given type (never true
    /// at the end of input).
    pub fn check_type(&self, token: TokenType) -> (r: bool)
        requires
            self.wf(),
        ensures
            r == (self.peek_ty() != TokenType::Eof && self.peek_ty() == token),
    {
        if self.is_at_end() {
            return false;
        }
        self.peek().ty == token
    }

    /// Moves the cursor past the current token, unless it is the
    /// end-of-input marker.
    pub fn advance(&mut self)
        requires
            old(self).wf(),
        ensures
            parse_step(*old(self), *final(self), false),
            old(self).peek_ty() != TokenType::Eof ==> final(self).current == old(self).current
                + 1,
            old(self).peek_ty() == TokenType::Eof ==> final(self).current == old(self).current,
    {
        if !self.is_at_end() {
            // Reading the length ties the cursor bound to a machine word,
            // so the increment cannot overflow.
            let n = self.tokens.len();
            proof {
                assert(self.current < n);
            }
            self.current = self.current + 1;
        }
    }

    /// Advances past the current token when its type is one of `types`.
    pub fn match_one_of(&mut self, types: Vec<TokenType>) -> (r: bool)
        requires
            old(self).wf(),
        ensures
            parse_step(*old(self), *final(self), r),
            r == (old(self).peek_ty() != TokenType::Eof && types@.contains(old(self).peek_ty())),
            r ==> final(self).current == old(self).current + 1,
            !r ==> final(self).current == old(self).current,
    {
        let n = types.len();
        let mut i: usize = 0;
        while i < n
            invariant
                self.wf(),
                *self == *old(self),
                n == types@.len(),
                i <= n,
                forall|k: int| 0 <= k < i ==> types@[k] != self.peek_ty() || self.peek_ty() == TokenType::Eof,
            decreases n - i,
        {
            if self.check_type(types[i]) {
                self.advance();
                return true;
            }
            i = i + 1;
        }
        false
    }

    /// Requires the current token to have the given type: returns it and
    /// advances, or reports the mismatch without moving.
    pub fn consume(&mut self, tok: TokenType) -> (r: Result<Token, Error>)
        requires
            old(self).wf(),
        ensures
            parse_step(*old(self), *final(self), r is Ok),
            ({
                let t = old(self).tokens@[old(self).current as int];
                if t.ty != TokenType::Eof && t.ty == tok {
                    &&& r matches Result::Ok(got) && got@ == t@
                    &&& final(self).current == old(self).current + 1
                } else {
                    &&& r matches Result::Err(e) && e@ == (ErrorV::TokenMismatch {
                        expected: tok,
                        found: t@,
                    })
                    &&& final(self).current == old(self).current
                }
            }),
    {
        if self.check_type(tok) {
            let t = self.peek().clone();
            self.advance();
            return Result::Ok(t);
        }
        Result::Err(Error::TokenMismatch { expected: tok, found: self.peek().clone() })
    }

    /// After a parse error: skips ahead to a statement boundary — just
    /// past a semicolon, or in front of a token that begins a statement,
    /// or the end of input.
    pub fn synchronize(&mut self)
        requires
            old(self).wf(),
        ensures
            parse_step(*old(self), *final(self), false),
            old(self).peek_ty() != TokenType::Eof ==> final(self).current > old(self).current,
            ({
                let p = final(self).peek_ty();
                ||| p == TokenType::Eof
                ||| (final(self).current >= 1 && final(self).tokens@[final(self).current - 1].ty
                    == TokenType::Semicolon)
                ||| p == TokenType::Class
                ||| p == TokenType::Fun
                ||| p == TokenType::Var
                ||| p == TokenType::For
                ||| p == TokenType::If
                ||| p == TokenType::While
                ||| p == TokenType::Print
                ||| p == TokenType::Return
            }),
    {
        self.advance();
        loop
            invariant
                self.wf(),
                self.tokens@ == old(self).tokens@,
                self.in_loop == old(self).in_loop,
                self.in_function == old(self).in_function,
                old(self).current <= self.current,
                old(self).peek_ty() != TokenType::Eof ==> old(self).current < self.current,
                self.current >= 1 || self.peek_ty() == TokenType::Eof,
            ensures
                self.wf(),
                self.tokens@ == old(self).tokens@,
                self.in_loop == old(self).in_loop,
                self.in_function == old(self).in_function,
                old(self).current <= self.current,
                old(self).peek_ty() != TokenType::Eof ==> old(self).current < self.current,
                ({
                    let p = self.peek_ty();
                    ||| p == TokenType::Eof
                    ||| (self.current >= 1 && self.tokens@[self.current - 1].ty
                        == TokenType::Semicolon)
                    ||| p == TokenType::Class
                    ||| p == TokenType::Fun
                    ||| p == TokenType::Var
                    ||| p == TokenType::For
                    ||| p == TokenType::If
                    ||| p == TokenType::While
                    ||| p == TokenType::Print
                    ||| p == TokenType::Return
                }),
            decreases self.tokens@.len() - self.current,
        {
            if self.is_at_end() {
                break ;
            }
            if self.tokens[self.current - 1].ty == TokenType::Semicolon {
                break ;
            }
            let p = self.peek().ty;
            match p {
                TokenType::Class | TokenType::Fun | TokenType::Var | TokenType::For
                    | TokenType::If | TokenType::While | TokenType::Print | TokenType::Return => {
                    break ;
                },
                _ => {},
            }
            self.advance();
        }
    }

    /// An expression: assignment has the lowest precedence.
    pub fn expr(&mut self) -> (r: Result<Expr, Error>)
        requires
            old(self).wf(),
        ensures
            parse_step(*old(self), *final(self), r is Ok),
            ({
                let ts = old(self).tokens@;
                let c = old(self).current as int;
                (ts[c].ty == TokenType::Identifier && ts[c + 1].ty == TokenType::Equal
                    && atom_token(ts[c + 2]) && !continues_expr(ts[c + 3].ty)) ==> ({
                    &&& r matches Result::Ok(e)
                    &&& e matches Expr::Assign(sym, v) && sym@.name == ts[c].lexeme@ && sym@.line
                        == ts[c].line as int && sym@.col == ts[c].col as int && leaf_of(
                        *v,
                        ts[c + 2],
                    )
                    &&& final(self).current == old(self).current + 3
                })
            }),
            ({
                let ts = old(self).tokens@;
                let c = old(self).current as int;
                (ts[c].ty == TokenType::Identifier && ts[c + 1].ty == TokenType::Equal && ts[c
                    + 2].ty == TokenType::Identifier && ts[c + 3].ty == TokenType::Equal
                    && atom_token(ts[c + 4]) && !continues_expr(ts[c + 5].ty)) ==> ({
                    &&& r matches Result::Ok(e)
                    &&& e matches Expr::Assign(s1, v1) && s1@.name == ts[c].lexeme@ && ({
                        &&& (*v1) matches Expr::Assign(s2, v2)
                        &&& s2@.name == ts[c + 2].lexeme@
                        &&& leaf_of(*v2, ts[c + 4])
                    })
                    &&& final(self).current == old(self).current + 5
                })
            }),
            r matches Result::Err(e) ==> (e@ matches ErrorV::TokenMismatch { expected, .. }
                ==> expected == TokenType::RightParen),
            ({
                let t0 = old(self).tokens@[old(self).current as int];
                let t1 = old(self).tokens@[old(self).current + 1];
                (atom_token(t0) && !continues_expr(t1.ty)) ==> ({
                    &&& r matches Result::Ok(e2)
                    &&& leaf_of(e2, t0)
                    &&& final(self).current == old(self).current + 1
                })
            }),
            ({
                let ts = old(self).tokens@;
                let c = old(self).current as int;
                (atom_token(ts[c]) && (ts[c + 1].ty == TokenType::Minus || ts[c + 1].ty
                    == TokenType::Plus) && atom_token(ts[c + 2]) && (ts[c + 3].ty
                    == TokenType::Minus || ts[c + 3].ty == TokenType::Plus) && atom_token(
                    ts[c + 4],
                ) && !continues_expr(ts[c + 5].ty)) ==> ({
                    &&& r matches Result::Ok(e)
                    &&& left_assoc_at(e, ts, c)
                    &&& final(self).current == old(self).current + 5
                })
            }),
            ({
                let ts = old(self).tokens@;
                let c = old(self).current as int;
                (atom_token(ts[c]) && (ts[c + 1].ty == TokenType::Minus || ts[c + 1].ty
                    == TokenType::Plus) && atom_token(ts[c + 2]) && (ts[c + 3].ty
                    == TokenType::Slash || ts[c + 3].ty == TokenType::Star) && atom_token(
                    ts[c + 4],
                ) && !continues_expr(ts[c + 5].ty)) ==> ({
                    &&& r matches Result::Ok(e)
                    &&& prec_at(e, ts, c)
                    &&& final(self).current == old(self).current + 5
                })
            }),
            ({
                let ts = old(self).tokens@;
                let c = old(self).current as int;
                (atom_token(ts[c]) && ts[c].ty != TokenType::Identifier && ts[c + 1].ty
                    == TokenType::Equal && atom_token(ts[c + 2]) && !continues_expr(
                    ts[c + 3].ty,
                )) ==> ({
                    &&& r matches Result::Err(e)
                    &&& e@ == (ErrorV::InvalidAssignment {
                        line: ts[c + 1].line as int,
                        col: ts[c + 1].col as int,
                    })
                })
            }),
            r matches Result::Ok(e) ==> token_types(
                old(self).tokens@.subrange(old(self).current as int, final(self).current as int),
            ) == expr_token_types(e),
        decreases self.tokens@.len() - self.current, 24nat,
    {
        self.assignment()
    }

    /// Assignment, right-associative: the left side must be a plain
    /// variable, anything else is an invalid assignment target, reported
    /// at the `=` sign.
    fn assignment(&mut self) -> (r: Result<Expr, Error>)
        requires
            old(self).wf(),
        ensures
            parse_step(*old(self), *final(self), r is Ok),
            ({
                let ts = old(self).tokens@;
                let c = old(self).current as int;
                (ts[c].ty == TokenType::Identifier && ts[c + 1].ty == TokenType::Equal
                    && atom_token(ts[c + 2]) && !continues_expr(ts[c + 3].ty)) ==> ({
                    &&& r matches Result::Ok(e)
                    &&& e matches Expr::Assign(sym, v) && sym@.name == ts[c].lexeme@ && sym@.line
                        == ts[c].line as int && sym@.col == ts[c].col as int && leaf_of(
                        *v,
                        ts[c + 2],
                    )
                    &&& final(self).current == old(self).current + 3
                })
            }),
            ({
                let ts = old(self).tokens@;
                let c = old(self).current as int;
                (ts[c].ty == TokenType::Identifier && ts[c + 1].ty == TokenType::Equal && ts[c
                    + 2].ty == TokenType::Identifier && ts[c + 3].ty == TokenType::Equal
                    && atom_token(ts[c + 4]) && !continues_expr(ts[c + 5].ty)) ==> ({
                    &&& r matches Result::Ok(e)
                    &&& e matches Expr::Assign(s1, v1) && s1@.name == ts[c].lexeme@ && ({
                        &&& (*v1) matches Expr::Assign(s2, v2)
                        &&& s2@.name == ts[c + 2].lexeme@
                        &&& leaf_of(*v2, ts[c + 4])
                    })
                    &&& final(self).current == old(self).current + 5
                })
            }),
            r matches Result::Err(e) ==> (e@ matches ErrorV::TokenMismatch { expected, .. }
                ==> expected == TokenType::RightParen),
            ({
                let t0 = old(self).tokens@[old(self).current as int];
                let t1 = old(self).tokens@[old(self).current + 1];
                (atom_token(t0) && !continues_expr(t1.ty)) ==> ({
                    &&& r matches Result::Ok(e2)
                    &&& leaf_of(e2, t0)
                    &&& final(self).current == old(self).current + 1
                })
            }),
            ({
                let ts = old(self).tokens@;
                let c = old(self).current as int;
                (atom_token(ts[c]) && (ts[c + 1].ty == TokenType::Minus || ts[c + 1].ty
                    == TokenType::Plus) && atom_token(ts[c + 2]) && (ts[c + 3].ty
                    == TokenType::Minus || ts[c + 3].ty == TokenType::Plus) && atom_token(
                    ts[c + 4],
                ) && !continues_expr(ts[c + 5].ty)) ==> ({
                    &&& r matches Result::Ok(e)
                    &&& left_assoc_at(e, ts, c)
                    &&& final(self).current == old(self).current + 5
                })
            }),
            ({
                let ts = old(self).tokens@;
                let c = old(self).current as int;
                (atom_token(ts[c]) && (ts[c + 1].ty == TokenType::Minus || ts[c + 1].ty
                    == TokenType::Plus) && atom_token(ts[c + 2]) && (ts[c + 3].ty
                    == TokenType::Slash || ts[c + 3].ty == TokenType::Star) && atom_token(
                    ts[c + 4],
                ) && !continues_expr(ts[c + 5].ty)) ==> ({
                    &&& r matches Result::Ok(e)
                    &&& prec_at(e, ts, c)
                    &&& final(self).current == old(self).current + 5
                })
            }),
            ({
                let ts = old(self).tokens@;
                let c = old(self).current as int;
                (atom_token(ts[c]) && ts[c].ty != TokenType::Identifier && ts[c + 1].ty
                    == TokenType::Equal && atom_token(ts[c + 2]) && !continues_expr(
                    ts[c + 3].ty,
                )) ==> ({
                    &&& r matches Result::Err(e)
                    &&& e@ == (ErrorV::InvalidAssignment {
                        line: ts[c + 1].line as int,
                        col: ts[c + 1].col as int,
                    })
                })
            }),
            r matches Result::Ok(e) ==> token_types(
                old(self).tokens@.subrange(old(self).current as int, final(self).current as int),
            ) == expr_token_types(e),
        decreases self.tokens@.len() - self.current, 22nat,
    {
        let ghost ts = self.tokens@;
        let ghost i0 = self.current as int;
        let e = match self.or() {
            Result::Ok(e) => e,
            Result::Err(err) => {
                return Result::Err(err);
            },
        };
        let ghost k = self.current as int;
        if self.match_one_of(vec![TokenType::Equal]) {
            let eq_line = self.tokens[self.current - 1].line;
            let eq_col = self.tokens[self.current - 1].col;
            let value = match self.assignment() {
                Result::Ok(v) => v,
                Result::Err(err) => {
                    return Result::Err(err);
                },
            };
            let ghost j = self.current as int;
            if let Expr::Variable(sym) = e {
                proof {
                    lemma_types_split(ts, i0, k, j);
                    lemma_types_split(ts, k, k + 1, j);
                    lemma_types_single(ts, k);
                    assert(token_types(ts.subrange(i0, j)) =~= seq![
                        TokenType::Identifier,
                        TokenType::Equal,
                    ] + expr_token_types(value));
                    if atom_token(ts[i0]) && ts[i0].ty != TokenType::Identifier && ts[i0 + 1].ty
                        == TokenType::Equal {
                        lemma_types_single(ts, i0);
                        assert(token_types(ts.subrange(i0, i0 + 1))[0] == ts[i0].ty);
                        assert(false);
                    }
                }
                return Result::Ok(Expr::Assign(sym, Box::new(value)));
            }
            return Result::Err(Error::InvalidAssignment { line: eq_line, col: eq_col });
        }
        Result::Ok(e)
    }

    /// `or`, left-associative and short-circuiting.
    fn or(&mut self) -> (r: Result<Expr, Error>)
        requires
            old(self).wf(),
        ensures
            parse_step(*old(self), *final(self), r is Ok),
            r matches Result::Err(e) ==> (e@ matches ErrorV::TokenMismatch { expected, .. }
                ==> expected == TokenType::RightParen),
            ({
                let t0 = old(self).tokens@[old(self).current as int];
                let t1 = old(self).tokens@[old(self).current + 1];
                (atom_token(t0) && !continues_operand(t1.ty)) ==> ({
                    &&& r matches Result::Ok(e2)
                    &&& leaf_of(e2, t0)
                    &&& final(self).current == old(self).current + 1
                })
            }),
            ({
                let ts = old(self).tokens@;
                let c = old(self).current as int;
                (atom_token(ts[c]) && (ts[c + 1].ty == TokenType::Minus || ts[c + 1].ty
                    == TokenType::Plus) && atom_token(ts[c + 2]) && (ts[c + 3].ty
                    == TokenType::Minus || ts[c + 3].ty == TokenType::Plus) && atom_token(
                    ts[c + 4],
                ) && !continues_expr(ts[c + 5].ty)) ==> ({
                    &&& r matches Result::Ok(e)
                    &&& left_assoc_at(e, ts, c)
                    &&& final(self).current == old(self).current + 5
                })
            }),
            ({
                let ts = old(self).tokens@;
                let c = old(self).current as int;
                (atom_token(ts[c]) && (ts[c + 1].ty == TokenType::Minus || ts[c + 1].ty
                    == TokenType::Plus) && atom_token(ts[c + 2]) && (ts[c + 3].ty
                    == TokenType::Slash || ts[c + 3].ty == TokenType::Star) && atom_token(
                    ts[c + 4],
                ) && !continues_expr(ts[c + 5].ty)) ==> ({
                    &&& r matches Result::Ok(e)
                    &&& prec_at(e, ts, c)
                    &&& final(self).current == old(self).current + 5
                })
            }),
            r matches Result::Ok(e) ==> token_types(
                old(self).tokens@.subrange(old(self).current as int, final(self).current as int),
            ) == expr_token_types(e),
        decreases self.tokens@.len() - self.current, 20nat,
    {
        let ghost ts = self.tokens@;
        let ghost i0 = self.current as int;
        let mut e = match self.and() {
            Result::Ok(e) => e,
            Result::Err(err) => {
                return Result::Err(err);
            },
        };
        loop
            invariant
                self.wf(),
                self.tokens@ == ts,
                ts == old(self).tokens@,
                i0 == old(self).current as int,
                self.in_loop == old(self).in_loop,
                self.in_function == old(self).in_function,
                old(self).current < self.current,
                (atom_token(ts[i0]) && !continues_operand(ts[i0 + 1].ty)) ==> self.current as int
                    == i0 + 1 && leaf_of(e, ts[i0]),
                ({
                    let c = i0;
                    (atom_token(ts[c]) && (ts[c + 1].ty == TokenType::Minus || ts[c + 1].ty
                    == TokenType::Plus) && atom_token(ts[c + 2]) && (ts[c + 3].ty
                    == TokenType::Minus || ts[c + 3].ty == TokenType::Plus) && atom_token(
                    ts[c + 4],
                ) && !continues_expr(ts[c + 5].ty)) ==> self.current as int == i0 + 5 && left_assoc_at(e, ts, i0)
                }),
                ({
                    let c = i0;
                    (atom_token(ts[c]) && (ts[c + 1].ty == TokenType::Minus || ts[c + 1].ty
                    == TokenType::Plus) && atom_token(ts[c + 2]) && (ts[c + 3].ty
                    == TokenType::Slash || ts[c + 3].ty == TokenType::Star) && atom_token(
                    ts[c + 4],
                ) && !continues_expr(ts[c + 5].ty)) ==> self.current as int == i0 + 5 && prec_at(e, ts, i0)
                }),
                token_types(ts.subrange(i0, self.current as int)) == expr_token_types(e),
            ensures
                self.wf(),
                self.tokens@ == ts,
                self.in_loop == old(self).in_loop,
                self.in_function == old(self).in_function,
                old(self).current < self.current,
                (atom_token(ts[i0]) && !continues_operand(ts[i0 + 1].ty)) ==> self.current as int
                    == i0 + 1 && leaf_of(e, ts[i0]),
                ({
                    let c = i0;
                    (atom_token(ts[c]) && (ts[c + 1].ty == TokenType::Minus || ts[c + 1].ty
                    == TokenType::Plus) && atom_token(ts[c + 2]) && (ts[c + 3].ty
                    == TokenType::Minus || ts[c + 3].ty == TokenType::Plus) && atom_token(
                    ts[c + 4],
                ) && !continues_expr(ts[c + 5].ty)) ==> self.current as int == i0 + 5 && left_assoc_at(e, ts, i0)
                }),
                ({
                    let c = i0;
                    (atom_token(ts[c]) && (ts[c + 1].ty == TokenType::Minus || ts[c + 1].ty
                    == TokenType::Plus) && atom_token(ts[c + 2]) && (ts[c + 3].ty
                    == TokenType::Slash || ts[c + 3].ty == TokenType::Star) && atom_token(
                    ts[c + 4],
                ) && !continues_expr(ts[c + 5].ty)) ==> self.current as int == i0 + 5 && prec_at(e, ts, i0)
                }),
                token_types(ts.subrange(i0, self.current as int)) == expr_token_types(e),
            decreases self.tokens@.len() - self.current,
        {
            let ghost k = self.current as int;
            let ghost e0 = e;
            if !self.match_one_of(vec![TokenType::Or]) {
                break ;
            }
            let op_line = self.tokens[self.current - 1].line;
            let op_col = self.tokens[self.current - 1].col;
            let right = match self.and() {
                Result::Ok(e) => e,
                Result::Err(err) => {
                    return Result::Err(err);
                },
            };
            let ghost j = self.current as int;
            e = Expr::Logical(
                Box::new(e),
                LogicalOp::Or,
                SourceLocation { line: op_line, col: op_col },
                Box::new(right),
            );
            proof {
                lemma_types_split(ts, i0, k, j);
                lemma_types_split(ts, k, k + 1, j);
                lemma_types_single(ts, k);
                assert(token_types(ts.subrange(i0, j)) =~= expr_token_types(e0)
                    + seq![TokenType::Or] + expr_token_types(right));
            }
        }
        Result::Ok(e)
    }

    /// `and`, left-associative and short-circuiting; binds tighter than
    /// `or`.
    fn and(&mut self) -> (r: Result<Expr, Error>)
        requires
            old(self).wf(),
        ensures
            parse_step(*old(self), *final(self), r is Ok),
            r matches Result::Err(e) ==> (e@ matches ErrorV::TokenMismatch { expected, .. }
                ==> expected == TokenType::RightParen),
            ({
                let t0 = old(self).tokens@[old(self).current as int];
                let t1 = old(self).tokens@[old(self).current + 1];
                (atom_token(t0) && !continues_operand(t1.ty)) ==> ({
                    &&& r matches Result::Ok(e2)
                    &&& leaf_of(e2, t0)
                    &&& final(self).current == old(self).current + 1
                })
            }),
            ({
                let ts = old(self).tokens@;
                let c = old(self).current as int;
                (atom_token(ts[c]) && (ts[c + 1].ty == TokenType::Minus || ts[c + 1].ty
                    == TokenType::Plus) && atom_token(ts[c + 2]) && (ts[c + 3].ty
                    == TokenType::Minus || ts[c + 3].ty == TokenType::Plus) && atom_token(
                    ts[c + 4],
                ) && !continues_expr(ts[c + 5].ty)) ==> ({
                    &&& r matches Result::Ok(e)
                    &&& left_assoc_at(e, ts, c)
                    &&& final(self).current == old(self).current + 5
                })
            }),
            ({
                let ts = old(self).tokens@;
                let c = old(self).current as int;
                (atom_token(ts[c]) && (ts[c + 1].ty == TokenType::Minus || ts[c + 1].ty
                    == TokenType::Plus) && atom_token(ts[c + 2]) && (ts[c + 3].ty
                    == TokenType::Slash || ts[c + 3].ty == TokenType::Star) && atom_token(
                    ts[c + 4],
                ) && !continues_expr(ts[c + 5].ty)) ==> ({
                    &&& r matches Result::Ok(e)
                    &&& prec_at(e, ts, c)
                    &&& final(self).current == old(self).current + 5
                })
            }),
            r matches Result::Ok(e) ==> token_types(
                old(self).tokens@.subrange(old(self).current as int, final(self).current as int),
            ) == expr_token_types(e),
        decreases self.tokens@.len() - self.current, 18nat,
    {
        let ghost ts = self.tokens@;
        let ghost i0 = self.current as int;
        let mut e = match self.equality() {
            Result::Ok(e) => e,
            Result::Err(err) => {
                return Result::Err(err);
            },
        };
        loop
            invariant
                self.wf(),
                self.tokens@ == ts,
                ts == old(self).tokens@,
                i0 == old(self).current as int,
                self.in_loop == old(self).in_loop,
                self.in_function == old(self).in_function,
                old(self).current < self.current,
                (atom_token(ts[i0]) && !continues_operand(ts[i0 + 1].ty)) ==> self.current as int
                    == i0 + 1 && leaf_of(e, ts[i0]),
                ({
                    let c = i0;
                    (atom_token(ts[c]) && (ts[c + 1].ty == TokenType::Minus || ts[c + 1].ty
                    == TokenType::Plus) && atom_token(ts[c + 2]) && (ts[c + 3].ty
                    == TokenType::Minus || ts[c + 3].ty == TokenType::Plus) && atom_token(
                    ts[c + 4],
                ) && !continues_expr(ts[c + 5].ty)) ==> self.current as int == i0 + 5 && left_assoc_at(e, ts, i0)
                }),
                ({
                    let c = i0;
                    (atom_token(ts[c]) && (ts[c + 1].ty == TokenType::Minus || ts[c + 1].ty
                    == TokenType::Plus) && atom_token(ts[c + 2]) && (ts[c + 3].ty
                    == TokenType::Slash || ts[c + 3].ty == TokenType::Star) && atom_token(
                    ts[c + 4],
                ) && !continues_expr(ts[c + 5].ty)) ==> self.current as int == i0 + 5 && prec_at(e, ts, i0)
                }),
                token_types(ts.subrange(i0, self.current as int)) == expr_token_types(e),
            ensures
                self.wf(),
                self.tokens@ == ts,
                self.in_loop == old(self).in_loop,
                self.in_function == old(self).in_function,
                old(self).current < self.current,
                (atom_token(ts[i0]) && !continues_operand(ts[i0 + 1].ty)) ==> self.current as int
                    == i0 + 1 && leaf_of(e, ts[i0]),
                ({
                    let c = i0;
                    (atom_token(ts[c]) && (ts[c + 1].ty == TokenType::Minus || ts[c + 1].ty
                    == TokenType::Plus) && atom_token(ts[c + 2]) && (ts[c + 3].ty
                    == TokenType::Minus || ts[c + 3].ty == TokenType::Plus) && atom_token(
                    ts[c + 4],
                ) && !continues_expr(ts[c + 5].ty)) ==> self.current as int == i0 + 5 && left_assoc_at(e, ts, i0)
                }),
                ({
                    let c = i0;
                    (atom_token(ts[c]) && (ts[c + 1].ty == TokenType::Minus || ts[c + 1].ty
                    == TokenType::Plus) && atom_token(ts[c + 2]) && (ts[c + 3].ty
                    == TokenType::Slash || ts[c + 3].ty == TokenType::Star) && atom_token(
                    ts[c + 4],
                ) && !continues_expr(ts[c + 5].ty)) ==> self.current as int == i0 + 5 && prec_at(e, ts, i0)
                }),
                token_types(ts.subrange(i0, self.current as int)) == expr_token_types(e),
            decreases self.tokens@.len() - self.current,
        {
            let ghost k = self.current as int;
            let ghost e0 = e;
            if !self.match_one_of(vec![TokenType::And]) {
                break ;
            }
            let op_line = self.tokens[self.current - 1].line;
            let op_col = self.tokens[self.current - 1].col;
            let right = match self.equality() {
                Result::Ok(e) => e,
                Result::Err(err) => {
                    return Result::Err(err);
                },
            };
            let ghost j = self.current as int;
            e = Expr::Logical(
                Box::new(e),
                LogicalOp::And,
                SourceLocation { line: op_line, col: op_col },
                Box::new(right),
            );
            proof {
                lemma_types_split(ts, i0, k, j);
                lemma_types_split(ts, k, k + 1, j);
                lemma_types_single(ts, k);
                assert(token_types(ts.subrange(i0, j)) =~= expr_token_types(e0)
                    + seq![TokenType::And] + expr_token_types(right));
            }
        }
        Result::Ok(e)
    }

    /// Equality operators, left-associative.
    fn equality(&mut self) -> (r: Result<Expr, Error>)
        requires
            old(self).wf(),
        ensures
            parse_step(*old(self), *final(self), r is Ok),
            r matches Result::Err(e) ==> (e@ matches ErrorV::TokenMismatch { expected, .. }
                ==> expected == TokenType::RightParen),
            ({
                let t0 = old(self).tokens@[old(self).current as int];
                let t1 = old(self).tokens@[old(self).current + 1];
                (atom_token(t0) && !continues_operand(t1.ty)) ==> ({
                    &&& r matches Result::Ok(e2)
                    &&& leaf_of(e2, t0)
                    &&& final(self).current == old(self).current + 1
                })
            }),
            ({
                let ts = old(self).tokens@;
                let c = old(self).current as int;
                (atom_token(ts[c]) && (ts[c + 1].ty == TokenType::Minus || ts[c + 1].ty
                    == TokenType::Plus) && atom_token(ts[c + 2]) && (ts[c + 3].ty
                    == TokenType::Minus || ts[c + 3].ty == TokenType::Plus) && atom_token(
                    ts[c + 4],
                ) && !continues_expr(ts[c + 5].ty)) ==> ({
                    &&& r matches Result::Ok(e)
                    &&& left_assoc_at(e, ts, c)
                    &&& final(self).current == old(self).current + 5
                })
            }),
            ({
                let ts = old(self).tokens@;
                let c = old(self).current as int;
                (atom_token(ts[c]) && (ts[c + 1].ty == TokenType::Minus || ts[c + 1].ty
                    == TokenType::Plus) && atom_token(ts[c + 2]) && (ts[c + 3].ty
                    == TokenType::Slash || ts[c + 3].ty == TokenType::Star) && atom_token(
                    ts[c + 4],
                ) && !continues_expr(ts[c + 5].ty)) ==> ({
                    &&& r matches Result::Ok(e)
                    &&& prec_at(e, ts, c)
                    &&& final(self).current == old(self).current + 5
                })
            }),
            r matches Result::Ok(e) ==> token_types(
                old(self).tokens@.subrange(old(self).current as int, final(self).current as int),
            ) == expr_token_types(e),
        decreases self.tokens@.len() - self.current, 16nat,
    {
        let ghost ts = self.tokens@;
        let ghost i0 = self.current as int;
        let mut e = match self.comparision() {
            Result::Ok(e) => e,
            Result::Err(err) => {
                return Result::Err(err);
            },
        };
        loop
            invariant
                self.wf(),
                self.tokens@ == ts,
                ts == old(self).tokens@,
                i0 == old(self).current as int,
                self.in_loop == old(self).in_loop,
                self.in_function == old(self).in_function,
                old(self).current < self.current,
                (atom_token(ts[i0]) && !continues_operand(ts[i0 + 1].ty)) ==> self.current as int
                    == i0 + 1 && leaf_of(e, ts[i0]),
                ({
                    let c = i0;
                    (atom_token(ts[c]) && (ts[c + 1].ty == TokenType::Minus || ts[c + 1].ty
                    == TokenType::Plus) && atom_token(ts[c + 2]) && (ts[c + 3].ty
                    == TokenType::Minus || ts[c + 3].ty == TokenType::Plus) && atom_token(
                    ts[c + 4],
                ) && !continues_expr(ts[c + 5].ty)) ==> self.current as int == i0 + 5 && left_assoc_at(e, ts, i0)
                }),
                ({
                    let c = i0;
                    (atom_token(ts[c]) && (ts[c + 1].ty == TokenType::Minus || ts[c + 1].ty
                    == TokenType::Plus) && atom_token(ts[c + 2]) && (ts[c + 3].ty
                    == TokenType::Slash || ts[c + 3].ty == TokenType::Star) && atom_token(
                    ts[c + 4],
                ) && !continues_expr(ts[c + 5].ty)) ==> self.current as int == i0 + 5 && prec_at(e, ts, i0)
                }),
                token_types(ts.subrange(i0, self.current as int)) == expr_token_types(e),
            ensures
                self.wf(),
                self.tokens@ == ts,
                self.in_loop == old(self).in_loop,
                self.in_function == old(self).in_function,
                old(self).current < self.current,
                (atom_token(ts[i0]) && !continues_operand(ts[i0 + 1].ty)) ==> self.current as int
                    == i0 + 1 && leaf_of(e, ts[i0]),
                ({
                    let c = i0;
                    (atom_token(ts[c]) && (ts[c + 1].ty == TokenType::Minus || ts[c + 1].ty
                    == TokenType::Plus) && atom_token(ts[c + 2]) && (ts[c + 3].ty
                    == TokenType::Minus || ts[c + 3].ty == TokenType::Plus) && atom_token(
                    ts[c + 4],
                ) && !continues_expr(ts[c + 5].ty)) ==> self.current as int == i0 + 5 && left_assoc_at(e, ts, i0)
                }),
                ({
                    let c = i0;
                    (atom_token(ts[c]) && (ts[c + 1].ty == TokenType::Minus || ts[c + 1].ty
                    == TokenType::Plus) && atom_token(ts[c + 2]) && (ts[c + 3].ty
                    == TokenType::Slash || ts[c + 3].ty == TokenType::Star) && atom_token(
                    ts[c + 4],
                ) && !continues_expr(ts[c + 5].ty)) ==> self.current as int == i0 + 5 && prec_at(e, ts, i0)
                }),
                token_types(ts.subrange(i0, self.current as int)) == expr_token_types(e),
            decreases self.tokens@.len() - self.current,
        {
            let ghost k = self.current as int;
            let ghost e0 = e;
            if !self.match_one_of(vec![TokenType::BangEqual, TokenType::EqualEqual]) {
                break ;
            }
            let op = BinaryOp::from_token(&self.tokens[self.current - 1]);
            let right = match self.comparision() {
                Result::Ok(e) => e,
                Result::Err(err) => {
                    return Result::Err(err);
                },
            };
            let ghost j = self.current as int;
            e = Expr::Binary(Box::new(e), op, Box::new(right));
            proof {
                assert(ts[k].ty == token_of_binary(op.ty));
                lemma_types_split(ts, i0, k, j);
                lemma_types_split(ts, k, k + 1, j);
                lemma_types_single(ts, k);
                assert(token_types(ts.subrange(i0, j)) =~= expr_token_types(e0)
                    + seq![token_of_binary(op.ty)] + expr_token_types(right));
            }
        }
        Result::Ok(e)
    }

    /// Comparison operators, left-associative; bind tighter than equality.
    fn comparision(&mut self) -> (r: Result<Expr, Error>)
        requires
            old(self).wf(),
        ensures
            parse_step(*old(self), *final(self), r is Ok),
            r matches Result::Err(e) ==> (e@ matches ErrorV::TokenMismatch { expected, .. }
                ==> expected == TokenType::RightParen),
            ({
                let t0 = old(self).tokens@[old(self).current as int];
                let t1 = old(self).tokens@[old(self).current + 1];
                (atom_token(t0) && !continues_operand(t1.ty)) ==> ({
                    &&& r matches Result::Ok(e2)
                    &&& leaf_of(e2, t0)
                    &&& final(self).current == old(self).current + 1
                })
            }),
            ({
                let ts = old(self).tokens@;
                let c = old(self).current as int;
                (atom_token(ts[c]) && (ts[c + 1].ty == TokenType::Minus || ts[c + 1].ty
                    == TokenType::Plus) && atom_token(ts[c + 2]) && (ts[c + 3].ty
                    == TokenType::Minus || ts[c + 3].ty == TokenType::Plus) && atom_token(
                    ts[c + 4],
                ) && !continues_expr(ts[c + 5].ty)) ==> ({
                    &&& r matches Result::Ok(e)
                    &&& left_assoc_at(e, ts, c)
                    &&& final(self).current == old(self).current + 5
                })
            }),
            ({
                let ts = old(self).tokens@;
                let c = old(self).current as int;
                (atom_token(ts[c]) && (ts[c + 1].ty == TokenType::Minus || ts[c + 1].ty
                    == TokenType::Plus) && atom_token(ts[c + 2]) && (ts[c + 3].ty
                    == TokenType::Slash || ts[c + 3].ty == TokenType::Star) && atom_token(
                    ts[c + 4],
                ) && !continues_expr(ts[c + 5].ty)) ==> ({
                    &&& r matches Result::Ok(e)
                    &&& prec_at(e, ts, c)
                    &&& final(self).current == old(self).current + 5
                })
            }),
            r matches Result::Ok(e) ==> token_types(
                old(self).tokens@.subrange(old(self).current as int, final(self).current as int),
            ) == expr_token_types(e),
        decreases self.tokens@.len() - self.current, 14nat,
    {
        let ghost ts = self.tokens@;
        let ghost i0 = self.current as int;
        let mut e = match self.term() {
            Result::Ok(e) => e,
            Result::Err(err) => {
                return Result::Err(err);
            },
        };
        loop
            invariant
                self.wf(),
                self.tokens@ == ts,
                ts == old(self).tokens@,
                i0 == old(self).current as int,
                self.in_loop == old(self).in_loop,
                self.in_function == old(self).in_function,
                old(self).current < self.current,
                (atom_token(ts[i0]) && !continues_operand(ts[i0 + 1].ty)) ==> self.current as int
                    == i0 + 1 && leaf_of(e, ts[i0]),
                ({
                    let c = i0;
                    (atom_token(ts[c]) && (ts[c + 1].ty == TokenType::Minus || ts[c + 1].ty
                    == TokenType::Plus) && atom_token(ts[c + 2]) && (ts[c + 3].ty
                    == TokenType::Minus || ts[c + 3].ty == TokenType::Plus) && atom_token(
                    ts[c + 4],
                ) && !continues_expr(ts[c + 5].ty)) ==> self.current as int == i0 + 5 && left_assoc_at(e, ts, i0)
                }),
                ({
                    let c = i0;
                    (atom_token(ts[c]) && (ts[c + 1].ty == TokenType::Minus || ts[c + 1].ty
                    == TokenType::Plus) && atom_token(ts[c + 2]) && (ts[c + 3].ty
                    == TokenType::Slash || ts[c + 3].ty == TokenType::Star) && atom_token(
                    ts[c + 4],
                ) && !continues_expr(ts[c + 5].ty)) ==> self.current as int == i0 + 5 && prec_at(e, ts, i0)
                }),
                token_types(ts.subrange(i0, self.current as int)) == expr_token_types(e),
            ensures
                self.wf(),
                self.tokens@ == ts,
                self.in_loop == old(self).in_loop,
                self.in_function == old(self).in_function,
                old(self).current < self.current,
                (atom_token(ts[i0]) && !continues_operand(ts[i0 + 1].ty)) ==> self.current as int
                    == i0 + 1 && leaf_of(e, ts[i0]),
                ({
                    let c = i0;
                    (atom_token(ts[c]) && (ts[c + 1].ty == TokenType::Minus || ts[c + 1].ty
                    == TokenType::Plus) && atom_token(ts[c + 2]) && (ts[c + 3].ty
                    == TokenType::Minus || ts[c + 3].ty == TokenType::Plus) && atom_token(
                    ts[c + 4],
                ) && !continues_expr(ts[c + 5].ty)) ==> self.current as int == i0 + 5 && left_assoc_at(e, ts, i0)
                }),
                ({
                    let c = i0;
                    (atom_token(ts[c]) && (ts[c + 1].ty == TokenType::Minus || ts[c + 1].ty
                    == TokenType::Plus) && atom_token(ts[c + 2]) && (ts[c + 3].ty
                    == TokenType::Slash || ts[c + 3].ty == TokenType::Star) && atom_token(
                    ts[c + 4],
                ) && !continues_expr(ts[c + 5].ty)) ==> self.current as int == i0 + 5 && prec_at(e, ts, i0)
                }),
                token_types(ts.subrange(i0, self.current as int)) == expr_token_types(e),
            decreases self.tokens@.len() - self.current,
        {
            let ghost k = self.current as int;
            let ghost e0 = e;
            if !self.match_one_of(
                vec![
                    TokenType::Greater,
                    TokenType::GreaterEqual,
                    TokenType::Less,
                    TokenType::LessEqual,
                ],
            ) {
                break ;
            }
            let op = BinaryOp::from_token(&self.tokens[self.current - 1]);
            let right = match self.term() {
                Result::Ok(e) => e,
                Result::Err(err) => {
                    return Result::Err(err);
                },
            };
            let ghost j = self.current as int;
            e = Expr::Binary(Box::new(e), op, Box::new(right));
            proof {
                assert(ts[k].ty == token_of_binary(op.ty));
                lemma_types_split(ts, i0, k, j);
                lemma_types_split(ts, k, k + 1, j);
                lemma_types_single(ts, k);
                assert(token_types(ts.subrange(i0, j)) =~= expr_token_types(e0)
                    + seq![token_of_binary(op.ty)] + expr_token_types(right));
            }
        }
        Result::Ok(e)
    }

    /// Additive operators, left-associative.
    fn term(&mut self) -> (r: Result<Expr, Error>)
        requires
            old(self).wf(),
        ensures
            parse_step(*old(self), *final(self), r is Ok),
            r matches Result::Err(e) ==> (e@ matches ErrorV::TokenMismatch { expected, .. }
                ==> expected == TokenType::RightParen),
            ({
                let t0 = old(self).tokens@[old(self).current as int];
                let t1 = old(self).tokens@[old(self).current + 1];
                (atom_token(t0) && !continues_operand(t1.ty)) ==> ({
                    &&& r matches Result::Ok(e2)
                    &&& leaf_of(e2, t0)
                    &&& final(self).current == old(self).current + 1
                })
            }),
            ({
                let ts = old(self).tokens@;
                let c = old(self).current as int;
                (atom_token(ts[c]) && (ts[c + 1].ty == TokenType::Minus || ts[c + 1].ty
                    == TokenType::Plus) && atom_token(ts[c + 2]) && (ts[c + 3].ty
                    == TokenType::Minus || ts[c + 3].ty == TokenType::Plus) && atom_token(
                    ts[c + 4],
                ) && !continues_expr(ts[c + 5].ty)) ==> ({
                    &&& r matches Result::Ok(e)
                    &&& left_assoc_at(e, ts, c)
                    &&& final(self).current == old(self).current + 5
                })
            }),
            ({
                let ts = old(self).tokens@;
                let c = old(self).current as int;
                (atom_token(ts[c]) && (ts[c + 1].ty == TokenType::Minus || ts[c + 1].ty
                    == TokenType::Plus) && atom_token(ts[c + 2]) && (ts[c + 3].ty
                    == TokenType::Slash || ts[c + 3].ty == TokenType::Star) && atom_token(
                    ts[c + 4],
                ) && !continues_expr(ts[c + 5].ty)) ==> ({
                    &&& r matches Result::Ok(e)
                    &&& prec_at(e, ts, c)
                    &&& final(self).current == old(self).current + 5
                })
            }),
            r matches Result::Ok(e) ==> token_types(
                old(self).tokens@.subrange(old(self).current as int, final(self).current as int),
            ) == expr_token_types(e),
        decreases self.tokens@.len() - self.current, 12nat,
    {
        let ghost ts = self.tokens@;
        let ghost i0 = self.current as int;
        let mut e = match self.factor() {
            Result::Ok(e) => e,
            Result::Err(err) => {
                return Result::Err(err);
            },
        };
        loop
            invariant
                self.wf(),
                self.tokens@ == ts,
                ts == old(self).tokens@,
                i0 == old(self).current as int,
                self.in_loop == old(self).in_loop,
                self.in_function == old(self).in_function,
                old(self).current < self.current,
                (atom_token(ts[i0]) && !continues_operand(ts[i0 + 1].ty)) ==> self.current as int
                    == i0 + 1 && leaf_of(e, ts[i0]),
                ({
                    let c = i0;
                    (atom_token(ts[c]) && (ts[c + 1].ty == TokenType::Minus || ts[c + 1].ty
                        == TokenType::Plus) && atom_token(ts[c + 2]) && (ts[c + 3].ty
                        == TokenType::Minus || ts[c + 3].ty == TokenType::Plus) && atom_token(
                        ts[c + 4],
                ) && !continues_expr(ts[c + 5].ty)) ==> (self.current as int == i0 + 1 && leaf_of(e, ts[i0])) || (self.current
                        as int == i0 + 3 && flat_at(e, ts, i0)) || (self.current as int == i0 + 5
                        && left_assoc_at(e, ts, i0))
                }),
                ({
                    let c = i0;
                    (atom_token(ts[c]) && (ts[c + 1].ty == TokenType::Minus || ts[c + 1].ty
                        == TokenType::Plus) && atom_token(ts[c + 2]) && (ts[c + 3].ty
                        == TokenType::Slash || ts[c + 3].ty == TokenType::Star) && atom_token(
                        ts[c + 4],
                ) && !continues_expr(ts[c + 5].ty)) ==> (self.current as int == i0 + 1 && leaf_of(e, ts[i0])) || (self.current
                        as int == i0 + 5 && prec_at(e, ts, i0))
                }),
                token_types(ts.subrange(i0, self.current as int)) == expr_token_types(e),
            ensures
                self.wf(),
                self.tokens@ == ts,
                self.in_loop == old(self).in_loop,
                self.in_function == old(self).in_function,
                old(self).current < self.current,
                (atom_token(ts[i0]) && !continues_operand(ts[i0 + 1].ty)) ==> self.current as int
                    == i0 + 1 && leaf_of(e, ts[i0]),
                ({
                    let c = i0;
                    (atom_token(ts[c]) && (ts[c + 1].ty == TokenType::Minus || ts[c + 1].ty
                        == TokenType::Plus) && atom_token(ts[c + 2]) && (ts[c + 3].ty
                        == TokenType::Minus || ts[c + 3].ty == TokenType::Plus) && atom_token(
                        ts[c + 4],
                ) && !continues_expr(ts[c + 5].ty)) ==> self.current as int == i0 + 5 && left_assoc_at(e, ts, i0)
                }),
                ({
                    let c = i0;
                    (atom_token(ts[c]) && (ts[c + 1].ty == TokenType::Minus || ts[c + 1].ty
                        == TokenType::Plus) && atom_token(ts[c + 2]) && (ts[c + 3].ty
                        == TokenType::Slash || ts[c + 3].ty == TokenType::Star) && atom_token(
                        ts[c + 4],
                ) && !continues_expr(ts[c + 5].ty)) ==> self.current as int == i0 + 5 && prec_at(e, ts, i0)
                }),
                token_types(ts.subrange(i0, self.current as int)) == expr_token_types(e),
            decreases self.tokens@.len() - self.current,
        {
            let ghost k = self.current as int;
            let ghost e0 = e;
            if !self.match_one_of(vec![TokenType::Minus, TokenType::Plus]) {
                break ;
            }
            let op = BinaryOp::from_token(&self.tokens[self.current - 1]);
            let right = match self.factor() {
                Result::Ok(e) => e,
                Result::Err(err) => {
                    return Result::Err(err);
                },
            };
            let ghost j = self.current as int;
            e = Expr::Binary(Box::new(e), op, Box::new(right));
            proof {
                assert(ts[k].ty == token_of_binary(op.ty));
                lemma_types_split(ts, i0, k, j);
                lemma_types_split(ts, k, k + 1, j);
                lemma_types_single(ts, k);
                assert(token_types(ts.subrange(i0, j)) =~= expr_token_types(e0)
                    + seq![token_of_binary(op.ty)] + expr_token_types(right));
            }
        }
        Result::Ok(e)
    }

    /// Multiplicative operators, left-associative; bind tighter than the
    /// additive ones.
    fn factor(&mut self) -> (r: Result<Expr, Error>)
        requires
            old(self).wf(),
        ensures
            parse_step(*old(self), *final(self), r is Ok),
            r matches Result::Err(e) ==> (e@ matches ErrorV::TokenMismatch { expected, .. }
                ==> expected == TokenType::RightParen),
            ({
                let t0 = old(self).tokens@[old(self).current as int];
                let t1 = old(self).tokens@[old(self).current + 1];
                (atom_token(t0) && !continues_operand(t1.ty)) ==> ({
                    &&& r matches Result::Ok(e2)
                    &&& leaf_of(e2, t0)
                    &&& final(self).current == old(self).current + 1
                })
            }),
            ({
                let ts = old(self).tokens@;
                let c = old(self).current as int;
                (atom_token(ts[c]) && !(ts[c + 1].ty == TokenType::Slash || ts[c + 1].ty
                    == TokenType::Star || ts[c + 1].ty == TokenType::LeftParen)) ==> ({
                    &&& r matches Result::Ok(e)
                    &&& leaf_of(e, ts[c])
                    &&& final(self).current == old(self).current + 1
                })
            }),
            ({
                let ts = old(self).tokens@;
                let c = old(self).current as int;
                (atom_token(ts[c]) && (ts[c + 1].ty == TokenType::Slash || ts[c + 1].ty
                    == TokenType::Star) && atom_token(ts[c + 2]) && !(ts[c + 3].ty
                    == TokenType::Slash || ts[c + 3].ty == TokenType::Star || ts[c + 3].ty
                    == TokenType::LeftParen)) ==> ({
                    &&& r matches Result::Ok(e)
                    &&& flat_at(e, ts, c)
                    &&& final(self).current == old(self).current + 3
                })
            }),
            r matches Result::Ok(e) ==> token_types(
                old(self).tokens@.subrange(old(self).current as int, final(self).current as int),
            ) == expr_token_types(e),
        decreases self.tokens@.len() - self.current, 10nat,
    {
        let ghost ts = self.tokens@;
        let ghost i0 = self.current as int;
        let mut e = match self.unary() {
            Result::Ok(e) => e,
            Result::Err(err) => {
                return Result::Err(err);
            },
        };
        loop
            invariant
                self.wf(),
                self.tokens@ == ts,
                ts == old(self).tokens@,
                i0 == old(self).current as int,
                self.in_loop == old(self).in_loop,
                self.in_function == old(self).in_function,
                old(self).current < self.current,
                (atom_token(ts[i0]) && !continues_operand(ts[i0 + 1].ty)) ==> self.current as int
                    == i0 + 1 && leaf_of(e, ts[i0]),
                (atom_token(ts[i0]) && !(ts[i0 + 1].ty == TokenType::Slash || ts[i0 + 1].ty
                    == TokenType::Star || ts[i0 + 1].ty == TokenType::LeftParen)) ==> self.current
                    as int == i0 + 1 && leaf_of(e, ts[i0]),
                (atom_token(ts[i0]) && (ts[i0 + 1].ty == TokenType::Slash || ts[i0 + 1].ty
                    == TokenType::Star) && atom_token(ts[i0 + 2]) && !(ts[i0 + 3].ty
                    == TokenType::Slash || ts[i0 + 3].ty == TokenType::Star || ts[i0 + 3].ty
                    == TokenType::LeftParen)) ==> (self.current as int == i0 + 1 && leaf_of(e, ts[i0]))
                    || (self.current as int == i0 + 3 && flat_at(e, ts, i0)),
                token_types(ts.subrange(i0, self.current as int)) == expr_token_types(e),
            ensures
                self.wf(),
                self.tokens@ == ts,
                self.in_loop == old(self).in_loop,
                self.in_function == old(self).in_function,
                old(self).current < self.current,
                (atom_token(ts[i0]) && !continues_operand(ts[i0 + 1].ty)) ==> self.current as int
                    == i0 + 1 && leaf_of(e, ts[i0]),
                (atom_token(ts[i0]) && !(ts[i0 + 1].ty == TokenType::Slash || ts[i0 + 1].ty
                    == TokenType::Star || ts[i0 + 1].ty == TokenType::LeftParen)) ==> self.current
                    as int == i0 + 1 && leaf_of(e, ts[i0]),
                (atom_token(ts[i0]) && (ts[i0 + 1].ty == TokenType::Slash || ts[i0 + 1].ty
                    == TokenType::Star) && atom_token(ts[i0 + 2]) && !(ts[i0 + 3].ty
                    == TokenType::Slash || ts[i0 + 3].ty == TokenType::Star || ts[i0 + 3].ty
                    == TokenType::LeftParen)) ==> self.current as int == i0 + 3 && flat_at(e, ts, i0),
                token_types(ts.subrange(i0, self.current as int)) == expr_token_types(e),
            decreases self.tokens@.len() - self.current,
        {
            let ghost k = self.current as int;
            let ghost e0 = e;
            if !self.match_one_of(vec![TokenType::Slash, TokenType::Star]) {
                break ;
            }
            let op = BinaryOp::from_token(&self.tokens[self.current - 1]);
            let right = match self.unary() {
                Result::Ok(e) => e,
                Result::Err(err) => {
                    return Result::Err(err);
                },
            };
            let ghost j = self.current as int;
            e = Expr::Binary(Box::new(e), op, Box::new(right));
            proof {
                assert(ts[k].ty == token_of_binary(op.ty));
                lemma_types_split(ts, i0, k, j);
                lemma_types_split(ts, k, k + 1, j);
                lemma_types_single(ts, k);
                assert(token_types(ts.subrange(i0, j)) =~= expr_token_types(e0)
                    + seq![token_of_binary(op.ty)] + expr_token_types(right));
            }
        }
        Result::Ok(e)
    }

    /// Unary `!` and `-`, right-associative.
    fn unary(&mut self) -> (r: Result<Expr, Error>)
        requires
            old(self).wf(),
        ensures
            parse_step(*old(self), *final(self), r is Ok),
            r matches Result::Err(e) ==> (e@ matches ErrorV::TokenMismatch { expected, .. }
                ==> expected == TokenType::RightParen),
            ({
                let t0 = old(self).tokens@[old(self).current as int];
                let t1 = old(self).tokens@[old(self).current + 1];
                (atom_token(t0) && !continues_operand(t1.ty)) ==> ({
                    &&& r matches Result::Ok(e2)
                    &&& leaf_of(e2, t0)
                    &&& final(self).current == old(self).current + 1
                })
            }),
            ({
                let ts = old(self).tokens@;
                let c = old(self).current as int;
                (atom_token(ts[c]) && ts[c + 1].ty != TokenType::LeftParen) ==> ({
                    &&& r matches Result::Ok(e)
                    &&& leaf_of(e, ts[c])
                    &&& final(self).current == old(self).current + 1
                })
            }),
            r matches Result::Ok(e) ==> token_types(
                old(self).tokens@.subrange(old(self).current as int, final(self).current as int),
            ) == expr_token_types(e),
        decreases self.tokens@.len() - self.current, 8nat,
    {
        let ghost ts = self.tokens@;
        let ghost i0 = self.current as int;
        if self.match_one_of(vec![TokenType::Bang, TokenType::Minus]) {
            let op = UnaryOp::from_token(&self.tokens[self.current - 1]);
            let right = match self.unary() {
                Result::Ok(e) => e,
                Result::Err(err) => {
                    return Result::Err(err);
                },
            };
            let ghost j = self.current as int;
            proof {
                assert(ts[i0].ty == token_of_unary(op.ty));
                lemma_types_split(ts, i0, i0 + 1, j);
                lemma_types_single(ts, i0);
            }
            return Result::Ok(Expr::Unary(op, Box::new(right)));
        }
        self.call()
    }

    /// A call chain: a primary expression followed by any number of
    /// parenthesized argument lists.
    fn call(&mut self) -> (r: Result<Expr, Error>)
        requires
            old(self).wf(),
        ensures
            parse_step(*old(self), *final(self), r is Ok),
            r matches Result::Err(e) ==> (e@ matches ErrorV::TokenMismatch { expected, .. }
                ==> expected == TokenType::RightParen),
            ({
                let t0 = old(self).tokens@[old(self).current as int];
                let t1 = old(self).tokens@[old(self).current + 1];
                (atom_token(t0) && !continues_operand(t1.ty)) ==> ({
                    &&& r matches Result::Ok(e2)
                    &&& leaf_of(e2, t0)
                    &&& final(self).current == old(self).current + 1
                })
            }),
            ({
                let ts = old(self).tokens@;
                let c = old(self).current as int;
                (atom_token(ts[c]) && ts[c + 1].ty != TokenType::LeftParen) ==> ({
                    &&& r matches Result::Ok(e)
                    &&& leaf_of(e, ts[c])
                    &&& final(self).current == old(self).current + 1
                })
            }),
            r matches Result::Ok(e) ==> token_types(
                old(self).tokens@.subrange(old(self).current as int, final(self).current as int),
            ) == expr_token_types(e),
        decreases self.tokens@.len() - self.current, 6nat,
    {
        let ghost ts = self.tokens@;
        let ghost i0 = self.current as int;
        let mut e = match self.primary() {
            Result::Ok(e) => e,
            Result::Err(err) => {
                return Result::Err(err);
            },
        };
        loop
            invariant
                self.wf(),
                self.tokens@ == ts,
                ts == old(self).tokens@,
                i0 == old(self).current as int,
                self.in_loop == old(self).in_loop,
                self.in_function == old(self).in_function,
                old(self).current < self.current,
                (atom_token(ts[i0]) && !continues_operand(ts[i0 + 1].ty)) ==> self.current as int
                    == i0 + 1 && leaf_of(e, ts[i0]),
                (atom_token(ts[i0]) && ts[i0 + 1].ty != TokenType::LeftParen) ==> self.current
                    as int == i0 + 1 && leaf_of(e, ts[i0]),
                token_types(ts.subrange(i0, self.current as int)) == expr_token_types(e),
            ensures
                self.wf(),
                self.tokens@ == ts,
                self.in_loop == old(self).in_loop,
                self.in_function == old(self).in_function,
                old(self).current < self.current,
                (atom_token(ts[i0]) && !continues_operand(ts[i0 + 1].ty)) ==> self.current as int
                    == i0 + 1 && leaf_of(e, ts[i0]),
                (atom_token(ts[i0]) && ts[i0 + 1].ty != TokenType::LeftParen) ==> self.current
                    as int == i0 + 1 && leaf_of(e, ts[i0]),
                token_types(ts.subrange(i0, self.current as int)) == expr_token_types(e),
            decreases self.tokens@.len() - self.current,
        {
            let ghost k = self.current as int;
            let ghost e0 = e;
            if !self.match_one_of(vec![TokenType::LeftParen]) {
                break ;
            }
            e = match self.finish_call(e) {
                Result::Ok(e) => e,
                Result::Err(err) => {
                    return Result::Err(err);
                },
            };
            let ghost j = self.current as int;
            proof {
                lemma_types_split(ts, i0, k, j);
                lemma_types_split(ts, k, k + 1, j);
                lemma_types_single(ts, k);
                assert(token_types(ts.subrange(i0, j)) =~= expr_token_types(e0)
                    + seq![TokenType::LeftParen] + args_token_types(e->Call_2@, 0)
                    + seq![TokenType::RightParen]);
            }
        }
        Result::Ok(e)
    }

    /// The argument list of a call whose `(` is already consumed: at most
    /// 255 comma-separated arguments, closed by `)`; the call node carries
    /// the closing parenthesis's position.
    fn finish_call(&mut self, callee: Expr) -> (r: Result<Expr, Error>)
        requires
            old(self).wf(),
        ensures
            parse_step(*old(self), *final(self), r is Ok),
            r matches Result::Err(e) ==> (e@ matches ErrorV::TokenMismatch { expected, .. }
                ==> expected == TokenType::RightParen),
            ({
                let ts = old(self).tokens@;
                let c = old(self).current as int;
                (atom_token(ts[c]) && !continues_expr(ts[c + 1].ty) && ts[c + 1].ty
                    != TokenType::Comma && ts[c + 1].ty != TokenType::RightParen) ==> ({
                    &&& r matches Result::Err(e)
                    &&& e@ == (ErrorV::TokenMismatch {
                        expected: TokenType::RightParen,
                        found: ts[c + 1]@,
                    })
                })
            }),
            ({
                let ts = old(self).tokens@;
                let c = old(self).current as int;
                args_run(ts, c) ==> ({
                    &&& r matches Result::Err(e)
                    &&& e@ == (ErrorV::TooManyArguments {
                        line: ts[c + 510].line as int,
                        col: ts[c + 510].col as int,
                    })
                })
            }),
            r matches Result::Ok(ce) ==> ({
                let closing = old(self).tokens@[final(self).current - 1];
                &&& ce is Call
                &&& *ce->Call_0 == callee
                &&& ce->Call_2@.len() <= 255
                &&& closing.ty == TokenType::RightParen
                &&& ce->Call_1.line == closing.line && ce->Call_1.col == closing.col
                &&& token_types(
                    old(self).tokens@.subrange(
                        old(self).current as int,
                        final(self).current as int,
                    ),
                ) == args_token_types(ce->Call_2@, 0) + seq![TokenType::RightParen]
            }),
        decreases self.tokens@.len() - self.current, 26nat,
    {
        let ghost ts = self.tokens@;
        let ghost i0 = self.current as int;
        let mut args: Vec<Expr> = Vec::new();
        proof {
            if args_run(old(self).tokens@, old(self).current as int) {
                assert(args_run(ts, i0));
                assert(atom_token(ts[i0 + 2 * 0]));
            }
        }
        if !self.check_type(TokenType::RightParen) {
            loop
                invariant_except_break
                    args@.len() == 0 ==> self.current as int == i0,
                    args@.len() <= 255,
                    args_run(ts, i0) ==> self.current as int == i0 + 2 * args@.len(),
                    (atom_token(ts[i0]) && !continues_expr(ts[i0 + 1].ty) && ts[i0 + 1].ty
                        != TokenType::Comma && ts[i0 + 1].ty != TokenType::RightParen)
                        ==> args@.len() == 0 && self.current as int == i0,
                    args@.len() >= 1 ==> token_types(ts.subrange(i0, self.current as int))
                        == args_token_types(args@, 0) + seq![TokenType::Comma],
                invariant
                    self.wf(),
                    self.tokens@ == ts,
                    ts == old(self).tokens@,
                    i0 == old(self).current as int,
                    self.in_loop == old(self).in_loop,
                    self.in_function == old(self).in_function,
                    old(self).current <= self.current,
                ensures
                    self.wf(),
                    self.tokens@ == ts,
                    self.in_loop == old(self).in_loop,
                    self.in_function == old(self).in_function,
                    old(self).current <= self.current,
                    args@.len() >= 1,
                    args@.len() <= 255,
                    !args_run(ts, i0),
                    (atom_token(ts[i0]) && !continues_expr(ts[i0 + 1].ty) && ts[i0 + 1].ty
                        != TokenType::Comma && ts[i0 + 1].ty != TokenType::RightParen)
                        ==> self.current as int == i0 + 1,
                    token_types(ts.subrange(i0, self.current as int)) == args_token_types(
                        args@,
                        0,
                    ),
                decreases self.tokens@.len() - self.current,
            {
                proof {
                    if args_run(old(self).tokens@, old(self).current as int) {
                        assert(args_run(ts, i0));
                    }
                    if args_run(ts, i0) && args@.len() < 255 {
                        let k = args@.len() as int;
                        assert(atom_token(ts[i0 + 2 * k]));
                        assert(ts[i0 + 1 + 2 * k].ty == TokenType::Comma);
                    }
                }
                if args.len() >= 255 {
                    proof {
                        if args_run(ts, i0) {
                            assert(self.current as int == i0 + 510);
                        }
                    }
                    let line = self.peek().line;
                    let col = self.peek().col;
                    return Result::Err(Error::TooManyArguments { line, col });
                }
                let ghost k = self.current as int;
                let ghost args0 = args@;
                let a = match self.expr() {
                    Result::Ok(a) => a,
                    Result::Err(err) => {
                        return Result::Err(err);
                    },
                };
                let ghost j = self.current as int;
                proof {
                    lemma_args_types_push(args0, a, 0);
                    lemma_types_split(ts, i0, k, j);
                    if args0.len() == 0 {
                        lemma_types_empty(ts, i0);
                        assert(token_types(ts.subrange(i0, j)) =~= args_token_types(
                            args0.push(a),
                            0,
                        ));
                    } else {
                        assert(token_types(ts.subrange(i0, j)) =~= args_token_types(
                            args0.push(a),
                            0,
                        ));
                    }
                }
                args.push(a);
                let ghost m = self.current as int;
                if !self.match_one_of(vec![TokenType::Comma]) {
                    proof {
                        if args_run(ts, i0) {
                            let k = args@.len() as int - 1;
                            assert(atom_token(ts[i0 + 2 * k]));
                            assert(ts[i0 + 1 + 2 * k].ty == TokenType::Comma);
                        }
                    }
                    break ;
                }
                proof {
                    lemma_types_split(ts, i0, m, m + 1);
                    lemma_types_single(ts, m);
                }
            }
        }
        proof {
            if args_run(old(self).tokens@, old(self).current as int) {
                assert(args_run(ts, i0));
                assert(false);
            }
        }
        let ghost c0 = self.current as int;
        let paren = match self.consume(TokenType::RightParen) {
            Result::Ok(t) => t,
            Result::Err(err) => {
                return Result::Err(err);
            },
        };
        proof {
            lemma_types_split(ts, i0, c0, c0 + 1);
            lemma_types_single(ts, c0);
            if args@.len() == 0 {
                lemma_types_empty(ts, i0);
            }
            assert(token_types(ts.subrange(i0, c0 + 1)) =~= args_token_types(args@, 0)
                + seq![TokenType::RightParen]);
        }
        let loc = SourceLocation { line: paren.line, col: paren.col };
        Result::Ok(Expr::Call(Box::new(callee), loc, args))
    }

    /// A primary expression: a literal, an identifier, or a parenthesized
    /// expression; anything else is reported as a missing expression.
    fn primary(&mut self) -> (r: Result<Expr, Error>)
        requires
            old(self).wf(),
        ensures
            parse_step(*old(self), *final(self), r is Ok),
            r matches Result::Err(e) ==> (e@ matches ErrorV::TokenMismatch { expected, .. }
                ==> expected == TokenType::RightParen),
            ({
                let t0 = old(self).tokens@[old(self).current as int];
                let t1 = old(self).tokens@[old(self).current + 1];
                (atom_token(t0) && !continues_operand(t1.ty)) ==> ({
                    &&& r matches Result::Ok(e2)
                    &&& leaf_of(e2, t0)
                    &&& final(self).current == old(self).current + 1
                })
            }),
            r matches Result::Ok(e) ==> token_types(
                old(self).tokens@.subrange(old(self).current as int, final(self).current as int),
            ) == expr_token_types(e),
            ({
                let ts = old(self).tokens@;
                let c = old(self).current as int;
                (ts[c].ty == TokenType::LeftParen && atom_token(ts[c + 1]) && ts[c + 2].ty
                    == TokenType::RightParen) ==> ({
                    &&& r matches Result::Ok(e)
                    &&& e matches Expr::Grouping(inner) && leaf_of(*inner, ts[c + 1])
                    &&& final(self).current == old(self).current + 3
                })
            }),
            ({
                let t = old(self).tokens@[old(self).current as int];
                &&& (t.ty == TokenType::False ==> r == Result::<Expr, Error>::Ok(
                    Expr::Literal(Literal::False),
                ) && final(self).current == old(self).current + 1)
                &&& (t.ty == TokenType::True ==> r == Result::<Expr, Error>::Ok(
                    Expr::Literal(Literal::True),
                ) && final(self).current == old(self).current + 1)
                &&& (t.ty == TokenType::Nil ==> r == Result::<Expr, Error>::Ok(
                    Expr::Literal(Literal::Nil),
                ) && final(self).current == old(self).current + 1)
                &&& (t.ty == TokenType::Number ==> {
                    &&& final(self).current == old(self).current + 1
                    &&& match t.literal {
                        Option::Some(TokenLit::Num(n)) => r == Result::<Expr, Error>::Ok(
                            Expr::Literal(Literal::Number(n)),
                        ),
                        _ => r matches Result::Err(e) && e@ == (ErrorV::ExpectedExpression {
                            token_type: t.ty,
                            line: t.line as int,
                            col: t.col as int,
                        }),
                    }
                })
                &&& (t.ty == TokenType::QuotedString ==> {
                    &&& final(self).current == old(self).current + 1
                    &&& match t.literal {
                        Option::Some(TokenLit::Str(lit)) => r matches Result::Ok(e)
                            && e matches Expr::Literal(l) && l matches Literal::String(s2) && s2@
                            == lit@,
                        _ => r matches Result::Err(e) && e@ == (ErrorV::ExpectedExpression {
                            token_type: t.ty,
                            line: t.line as int,
                            col: t.col as int,
                        }),
                    }
                })
                &&& (t.ty == TokenType::Identifier ==> {
                    &&& final(self).current == old(self).current + 1
                    &&& r matches Result::Ok(e) && e matches Expr::Variable(sym) && sym@.name
                        == t.lexeme@ && sym@.line == t.line as int && sym@.col == t.col as int
                })
                &&& (t.ty == TokenType::LeftParen ==> (r matches Result::Ok(e) ==> e
                    is Grouping))
                &&& (!(t.ty == TokenType::False || t.ty == TokenType::True || t.ty
                    == TokenType::Nil || t.ty == TokenType::Number || t.ty
                    == TokenType::QuotedString || t.ty == TokenType::Identifier || t.ty
                    == TokenType::LeftParen) ==> {
                    &&& final(self).current == old(self).current
                    &&& r matches Result::Err(e) && e@ == (ErrorV::ExpectedExpression {
                        token_type: t.ty,
                        line: t.line as int,
                        col: t.col as int,
                    })
                })
            }),
        decreases self.tokens@.len() - self.current, 4nat,
    {
        let ghost ts = self.tokens@;
        let ghost i0 = self.current as int;
        proof {
            if i0 < ts.len() {
                lemma_types_single(ts, i0);
            }
        }
        if self.match_one_of(vec![TokenType::False]) {
            return Result::Ok(Expr::Literal(Literal::False));
        }
        if self.match_one_of(vec![TokenType::True]) {
            return Result::Ok(Expr::Literal(Literal::True));
        }
        if self.match_one_of(vec![TokenType::Nil]) {
            return Result::Ok(Expr::Literal(Literal::Nil));
        }
        if self.match_one_of(vec![TokenType::Number]) {
            let t = &self.tokens[self.current - 1];
            match &t.literal {
                Option::Some(TokenLit::Num(n)) => {
                    return Result::Ok(Expr::Literal(Literal::Number(*n)));
                },
                _ => {
                    return Result::Err(
                        Error::ExpectedExpression { token_type: t.ty, line: t.line, col: t.col },
                    );
                },
            }
        }
        if self.match_one_of(vec![TokenType::QuotedString]) {
            let t = &self.tokens[self.current - 1];
            match &t.literal {
                Option::Some(TokenLit::Str(lit)) => {
                    return Result::Ok(Expr::Literal(Literal::String(lit.clone())));
                },
                _ => {
                    return Result::Err(
                        Error::ExpectedExpression { token_type: t.ty, line: t.line, col: t.col },
                    );
                },
            }
        }
        if self.match_one_of(vec![TokenType::Identifier]) {
            let t = &self.tokens[self.current - 1];
            let sym = Symbol { name: t.lexeme.clone(), line: t.line, col: t.col };
            return Result::Ok(Expr::Variable(sym));
        }
        if self.match_one_of(vec![TokenType::LeftParen]) {
            let e = match self.expr() {
                Result::Ok(e) => e,
                Result::Err(err) => {
                    return Result::Err(err);
                },
            };
            let ghost k = self.current as int;
            match self.consume(TokenType::RightParen) {
                Result::Ok(_) => {},
                Result::Err(err) => {
                    return Result::Err(err);
                },
            }
            proof {
                lemma_types_split(ts, i0, i0 + 1, k + 1);
                lemma_types_split(ts, i0 + 1, k, k + 1);
                lemma_types_single(ts, k);
                assert(token_types(ts.subrange(i0, k + 1)) =~= seq![TokenType::LeftParen]
                    + expr_token_types(e) + seq![TokenType::RightParen]);
            }
            return Result::Ok(Expr::Grouping(Box::new(e)));
        }
        let t = self.peek();
        Result::Err(Error::ExpectedExpression { token_type: t.ty, line: t.line, col: t.col })
    }

    /// The whole program: declarations until the end of input. The first
    /// error ends the parse.
    pub fn parse(&mut self) -> (r: Result<Vec<Stmt>, Error>)
        requires
            old(self).wf(),
        ensures
            parse_step(*old(self), *final(self), false),
            ({
                let ts = old(self).tokens@;
                (old(self).current == 0 && atom_token(ts[0]) && ts[0].ty != TokenType::Identifier
                    && ts[1].ty == TokenType::Equal && atom_token(ts[2]) && !continues_expr(
                    ts[3].ty,
                )) ==> ({
                    &&& r matches Result::Err(e)
                    &&& e@ == (ErrorV::InvalidAssignment {
                        line: ts[1].line as int,
                        col: ts[1].col as int,
                    })
                })
            }),
            r is Ok ==> final(self).peek_ty() == TokenType::Eof,
            r matches Result::Ok(stmts) ==> (stmts@.len() == 0 <==> old(self).peek_ty()
                == TokenType::Eof),
            ({
                let ts = old(self).tokens@;
                (old(self).current == 0 && ts.len() == 3 && atom_token(ts[0]) && ts[1].ty
                    == TokenType::Semicolon) ==> ({
                    &&& r matches Result::Ok(stmts)
                    &&& stmts@.len() == 1
                    &&& stmts@[0] matches Stmt::Expr(e2) && leaf_of(e2, ts[0])
                })
            }),
            ({
                let ts = old(self).tokens@;
                (old(self).current == 0 && ts.len() == 7 && atom_token(ts[0]) && (ts[1].ty == TokenType::Minus || ts[1].ty
                    == TokenType::Plus) && atom_token(ts[2]) && (ts[3].ty
                    == TokenType::Minus || ts[3].ty == TokenType::Plus) && atom_token(
                    ts[4],
                ) && ts[5].ty == TokenType::Semicolon) ==> ({
                    &&& r matches Result::Ok(stmts)
                    &&& stmts@.len() == 1
                    &&& stmts@[0] matches Stmt::Expr(e) && left_assoc_at(e, ts, 0)
                })
            }),
            ({
                let ts = old(self).tokens@;
                (old(self).current == 0 && ts.len() == 7 && atom_token(ts[0]) && (ts[1].ty == TokenType::Minus || ts[1].ty
                    == TokenType::Plus) && atom_token(ts[2]) && (ts[3].ty
                    == TokenType::Slash || ts[3].ty == TokenType::Star) && atom_token(
                    ts[4],
                ) && ts[5].ty == TokenType::Semicolon) ==> ({
                    &&& r matches Result::Ok(stmts)
                    &&& stmts@.len() == 1
                    &&& stmts@[0] matches Stmt::Expr(e) && prec_at(e, ts, 0)
                })
            }),
    {
        let mut statements: Vec<Stmt> = Vec::new();
        loop
            invariant
                self.wf(),
                self.tokens@ == old(self).tokens@,
                self.in_loop == old(self).in_loop,
                self.in_function == old(self).in_function,
                old(self).current <= self.current,
                statements@.len() == 0 ==> self.current == old(self).current,
                old(self).peek_ty() == TokenType::Eof ==> statements@.len() == 0,
                ({
                    let ts = old(self).tokens@;
                    (old(self).current == 0 && atom_token(ts[0]) && ts[0].ty
                        != TokenType::Identifier && ts[1].ty == TokenType::Equal && atom_token(
                        ts[2],
                    ) && !continues_expr(ts[3].ty)) ==> statements@.len() == 0 && self.current
                        == 0
                }),
                ({
                    let ts = old(self).tokens@;
                    (old(self).current == 0 && ts.len() == 3 && atom_token(ts[0]) && ts[1].ty
                        == TokenType::Semicolon) ==> (statements@.len() == 0 && self.current == 0)
                        || ({
                        &&& statements@.len() == 1
                        &&& statements@[0] matches Stmt::Expr(e2) && leaf_of(e2, ts[0])
                        &&& self.current == 2
                    })
                }),
                ({
                    let ts = old(self).tokens@;
                    (old(self).current == 0 && ts.len() == 7 && atom_token(ts[0]) && (ts[1].ty == TokenType::Minus || ts[1].ty
                        == TokenType::Plus) && atom_token(ts[2]) && (ts[3].ty
                        == TokenType::Minus || ts[3].ty == TokenType::Plus) && atom_token(
                        ts[4],
                ) && ts[5].ty == TokenType::Semicolon) ==> (statements@.len() == 0
                        && self.current == 0) || ({
                        &&& statements@.len() == 1
                        &&& self.current == 6
                        &&& statements@[0] matches Stmt::Expr(e) && left_assoc_at(e, ts, 0)
                    })
                }),
                ({
                    let ts = old(self).tokens@;
                    (old(self).current == 0 && ts.len() == 7 && atom_token(ts[0]) && (ts[1].ty == TokenType::Minus || ts[1].ty
                        == TokenType::Plus) && atom_token(ts[2]) && (ts[3].ty
                        == TokenType::Slash || ts[3].ty == TokenType::Star) && atom_token(
                        ts[4],
                ) && ts[5].ty == TokenType::Semicolon) ==> (statements@.len() == 0
                        && self.current == 0) || ({
                        &&& statements@.len() == 1
                        &&& self.current == 6
                        &&& statements@[0] matches Stmt::Expr(e) && prec_at(e, ts, 0)
                    })
                }),
            ensures
                self.wf(),
                self.tokens@ == old(self).tokens@,
                self.in_loop == old(self).in_loop,
                self.in_function == old(self).in_function,
                old(self).current <= self.current,
                statements@.len() == 0 ==> self.current == old(self).current,
                old(self).peek_ty() == TokenType::Eof ==> statements@.len() == 0,
                ({
                    let ts = old(self).tokens@;
                    (old(self).current == 0 && atom_token(ts[0]) && ts[0].ty
                        != TokenType::Identifier && ts[1].ty == TokenType::Equal && atom_token(
                        ts[2],
                    ) && !continues_expr(ts[3].ty)) ==> statements@.len() == 0 && self.current
                        == 0
                }),
                ({
                    let ts = old(self).tokens@;
                    (old(self).current == 0 && ts.len() == 3 && atom_token(ts[0]) && ts[1].ty
                        == TokenType::Semicolon) ==> (statements@.len() == 0 && self.current == 0)
                        || ({
                        &&& statements@.len() == 1
                        &&& statements@[0] matches Stmt::Expr(e2) && leaf_of(e2, ts[0])
                        &&& self.current == 2
                    })
                }),
                ({
                    let ts = old(self).tokens@;
                    (old(self).current == 0 && ts.len() == 7 && atom_token(ts[0]) && (ts[1].ty == TokenType::Minus || ts[1].ty
                        == TokenType::Plus) && atom_token(ts[2]) && (ts[3].ty
                        == TokenType::Minus || ts[3].ty == TokenType::Plus) && atom_token(
                        ts[4],
                ) && ts[5].ty == TokenType::Semicolon) ==> (statements@.len() == 0
                        && self.current == 0) || ({
                        &&& statements@.len() == 1
                        &&& self.current == 6
                        &&& statements@[0] matches Stmt::Expr(e) && left_assoc_at(e, ts, 0)
                    })
                }),
                ({
                    let ts = old(self).tokens@;
                    (old(self).current == 0 && ts.len() == 7 && atom_token(ts[0]) && (ts[1].ty == TokenType::Minus || ts[1].ty
                        == TokenType::Plus) && atom_token(ts[2]) && (ts[3].ty
                        == TokenType::Slash || ts[3].ty == TokenType::Star) && atom_token(
                        ts[4],
                ) && ts[5].ty == TokenType::Semicolon) ==> (statements@.len() == 0
                        && self.current == 0) || ({
                        &&& statements@.len() == 1
                        &&& self.current == 6
                        &&& statements@[0] matches Stmt::Expr(e) && prec_at(e, ts, 0)
                    })
                }),
                self.peek_ty() == TokenType::Eof,
            decreases self.tokens@.len() - self.current,
        {
            if self.is_at_end() {
                break ;
            }
            let s = match self.declaration() {
                Result::Ok(s) => s,
                Result::Err(err) => {
                    return Result::Err(err);
                },
            };
            statements.push(s);
        }
        Result::Ok(statements)
    }

    /// A declaration: a function, a variable, or any other statement. On
    /// an error the cursor re-synchronizes before the error is reported.
    fn declaration(&mut self) -> (r: Result<Stmt, Error>)
        requires
            old(self).wf(),
        ensures
            parse_step(*old(self), *final(self), r is Ok),
            ({
                let ts = old(self).tokens@;
                let c = old(self).current as int;
                (atom_token(ts[c]) && ts[c].ty != TokenType::Identifier && ts[c + 1].ty
                    == TokenType::Equal && atom_token(ts[c + 2]) && !continues_expr(
                    ts[c + 3].ty,
                )) ==> ({
                    &&& r matches Result::Err(e)
                    &&& e@ == (ErrorV::InvalidAssignment {
                        line: ts[c + 1].line as int,
                        col: ts[c + 1].col as int,
                    })
                })
            }),
            ({
                let t0 = old(self).tokens@[old(self).current as int];
                let t1 = old(self).tokens@[old(self).current + 1];
                (atom_token(t0) && t1.ty == TokenType::Semicolon) ==> {
                    &&& r matches Result::Ok(s)
                    &&& s matches Stmt::Expr(e2) && leaf_of(e2, t0)
                    &&& final(self).current == old(self).current + 2
                }
            }),
            ({
                let ts = old(self).tokens@;
                let c = old(self).current as int;
                (atom_token(ts[c]) && (ts[c + 1].ty == TokenType::Minus || ts[c + 1].ty
                    == TokenType::Plus) && atom_token(ts[c + 2]) && (ts[c + 3].ty
                    == TokenType::Minus || ts[c + 3].ty == TokenType::Plus) && atom_token(
                    ts[c + 4],
                ) && ts[c + 5].ty == TokenType::Semicolon) ==> ({
                    &&& r matches Result::Ok(s)
                    &&& s matches Stmt::Expr(e) && left_assoc_at(e, ts, c)
                    &&& final(self).current == old(self).current + 6
                })
            }),
            ({
                let ts = old(self).tokens@;
                let c = old(self).current as int;
                (atom_token(ts[c]) && (ts[c + 1].ty == TokenType::Minus || ts[c + 1].ty
                    == TokenType::Plus) && atom_token(ts[c + 2]) && (ts[c + 3].ty
                    == TokenType::Slash || ts[c + 3].ty == TokenType::Star) && atom_token(
                    ts[c + 4],
                ) && ts[c + 5].ty == TokenType::Semicolon) ==> ({
                    &&& r matches Result::Ok(s)
                    &&& s matches Stmt::Expr(e) && prec_at(e, ts, c)
                    &&& final(self).current == old(self).current + 6
                })
            }),
            ({
                let t0 = old(self).tokens@[old(self).current as int];
                let t1 = old(self).tokens@[old(self).current + 1];
                let t2 = old(self).tokens@[old(self).current + 2];
                (t0.ty == TokenType::Print && atom_token(t1) && t2.ty == TokenType::Semicolon)
                    ==> {
                    &&& r matches Result::Ok(s) && s is Print
                    &&& final(self).current == old(self).current + 3
                }
            }),
        decreases self.tokens@.len() - self.current, 30nat,
    {
        if self.match_one_of(vec![TokenType::Fun]) {
            let res = self.function();
            if res.is_err() {
                self.synchronize();
            }
            return res;
        }
        if self.match_one_of(vec![TokenType::Var]) {
            let res = self.var_declaration();
            if res.is_err() {
                self.synchronize();
            }
            return res;
        }
        let res = self.statement();
        if res.is_err() {
            self.synchronize();
        }
        res
    }

    /// A function declaration after `fun`: name, up to 255 parameters,
    /// and a braced body whose statements are hoisted directly into the
    /// declaration. Inside the body `return` is legal and `break` is not,
    /// whatever surrounded the declaration.
    fn function(&mut self) -> (r: Result<Stmt, Error>)
        requires
            old(self).wf(),
        ensures
            parse_step(*old(self), *final(self), r is Ok),
            r matches Result::Ok(s) ==> ({
                let t = old(self).tokens@[old(self).current as int];
                &&& t.ty == TokenType::Identifier
                &&& s matches Stmt::FunDecl(d)
                &&& (*d).name@.name == t.lexeme@
                &&& (*d).params@.len() <= 255
            }),
            ({
                let ts = old(self).tokens@;
                let c = old(self).current as int;
                (ts[c].ty == TokenType::Identifier && ts[c + 1].ty == TokenType::LeftParen
                    && ts[c + 2].ty == TokenType::RightParen && ts[c + 3].ty
                    == TokenType::LeftBrace && ts[c + 4].ty == TokenType::RightBrace) ==> r is Ok
                    && final(self).current == old(self).current + 5
            }),
            ({
                let ts = old(self).tokens@;
                let c = old(self).current as int;
                ts[c].ty != TokenType::Identifier ==> ({
                    &&& r matches Result::Err(e)
                    &&& e@ == (ErrorV::TokenMismatch {
                        expected: TokenType::Identifier,
                        found: ts[c]@,
                    })
                })
            }),
            ({
                let ts = old(self).tokens@;
                let c = old(self).current as int;
                (ts[c].ty == TokenType::Identifier && ts[c + 1].ty != TokenType::LeftParen) ==> ({
                    &&& r matches Result::Err(e)
                    &&& e@ == (ErrorV::TokenMismatch {
                        expected: TokenType::LeftParen,
                        found: ts[c + 1]@,
                    })
                })
            }),
            ({
                let ts = old(self).tokens@;
                let c = old(self).current as int;
                (ts[c].ty == TokenType::Identifier && ts[c + 1].ty == TokenType::LeftParen
                    && params_run(ts, c)) ==> ({
                    &&& r matches Result::Err(e)
                    &&& e@ == (ErrorV::MaxParamsExceeded {
                        kind: FunctionKind::Function,
                        line: ts[c + 512].line as int,
                        col: ts[c + 512].col as int,
                    })
                })
            }),
            ({
                let ts = old(self).tokens@;
                let c = old(self).current as int;
                (ts[c].ty == TokenType::Identifier && ts[c + 1].ty == TokenType::LeftParen
                    && ts[c + 2].ty == TokenType::RightParen && ts[c + 3].ty
                    == TokenType::LeftBrace) ==> (r matches Result::Ok(s) ==> ({
                    &&& s matches Stmt::FunDecl(d)
                    &&& (*d).params@.len() == 0
                    &&& ((*d).body@.len() == 0 <==> ts[c + 4].ty == TokenType::RightBrace)
                }))
            }),
            ({
                let ts = old(self).tokens@;
                let c = old(self).current as int;
                (ts[c].ty == TokenType::Identifier && ts[c + 1].ty == TokenType::LeftParen
                    && ts[c + 2].ty == TokenType::RightParen && ts[c + 3].ty
                    == TokenType::LeftBrace && atom_token(ts[c + 4]) && ts[c + 5].ty
                    == TokenType::Semicolon && ts[c + 6].ty == TokenType::RightBrace) ==> ({
                    &&& r matches Result::Ok(s)
                    &&& s matches Stmt::FunDecl(d)
                    &&& (*d).body@.len() == 1
                    &&& (*d).body@[0] matches Stmt::Expr(e2) && leaf_of(e2, ts[c + 4])
                    &&& final(self).current == old(self).current + 7
                })
            }),
        decreases self.tokens@.len() - self.current, 28nat,
    {
        let ghost ts = self.tokens@;
        let ghost c0 = self.current as int;
        let name_tok = match self.consume(TokenType::Identifier) {
            Result::Ok(t) => t,
            Result::Err(err) => {
                return Result::Err(err);
            },
        };
        let name = Symbol { name: name_tok.lexeme, line: name_tok.line, col: name_tok.col };
        match self.consume(TokenType::LeftParen) {
            Result::Ok(_) => {},
            Result::Err(err) => {
                return Result::Err(err);
            },
        }
        let mut parameters: Vec<Symbol> = Vec::new();
        proof {
            if params_run(ts, c0) {
                assert(ts[c0 + 2 + 2 * 0].ty == TokenType::Identifier);
            }
        }
        if !self.check_type(TokenType::RightParen) {
            loop
                invariant
                    self.wf(),
                    self.tokens@ == old(self).tokens@,
                    ts == old(self).tokens@,
                    c0 == old(self).current as int,
                    ts[c0].ty == TokenType::Identifier,
                    ts[c0 + 1].ty == TokenType::LeftParen,
                    self.in_loop == old(self).in_loop,
                    self.in_function == old(self).in_function,
                    old(self).current <= self.current,
                    parameters@.len() <= 255,
                    old(self).tokens@[old(self).current + 2].ty != TokenType::RightParen,
                    params_run(ts, c0) ==> self.current as int == c0 + 2 + 2
                        * parameters@.len(),
                ensures
                    self.wf(),
                    self.tokens@ == old(self).tokens@,
                    self.in_loop == old(self).in_loop,
                    self.in_function == old(self).in_function,
                    old(self).current <= self.current,
                    parameters@.len() <= 255,
                    !params_run(ts, c0),
                decreases self.tokens@.len() - self.current,
            {
                proof {
                    if params_run(old(self).tokens@, old(self).current as int) {
                        assert(params_run(ts, c0));
                    }
                    if params_run(ts, c0) && parameters@.len() < 255 {
                        let k = parameters@.len() as int;
                        assert(ts[c0 + 2 + 2 * k].ty == TokenType::Identifier);
                        assert(ts[c0 + 3 + 2 * k].ty == TokenType::Comma);
                    }
                }
                if parameters.len() >= 255 {
                    proof {
                        if params_run(old(self).tokens@, old(self).current as int) {
                            assert(params_run(ts, c0));
                            assert(self.current as int == c0 + 512);
                        }
                    }
                    let line = self.peek().line;
                    let col = self.peek().col;
                    return Result::Err(
                        Error::MaxParamsExceeded { kind: FunctionKind::Function, line, col },
                    );
                }
                let p = match self.consume(TokenType::Identifier) {
                    Result::Ok(t) => t,
                    Result::Err(err) => {
                        return Result::Err(err);
                    },
                };
                parameters.push(Symbol { name: p.lexeme, line: p.line, col: p.col });
                if !self.match_one_of(vec![TokenType::Comma]) {
                    proof {
                        if params_run(ts, c0) {
                            let k = parameters@.len() as int - 1;
                            assert(ts[c0 + 2 + 2 * k].ty == TokenType::Identifier);
                            assert(ts[c0 + 3 + 2 * k].ty == TokenType::Comma);
                        }
                    }
                    break ;
                }
            }
        }
        proof {
            if params_run(old(self).tokens@, old(self).current as int) {
                assert(params_run(ts, c0));
                assert(false);
            }
        }
        match self.consume(TokenType::RightParen) {
            Result::Ok(_) => {},
            Result::Err(err) => {
                return Result::Err(err);
            },
        }
        match self.consume(TokenType::LeftBrace) {
            Result::Ok(_) => {},
            Result::Err(err) => {
                return Result::Err(err);
            },
        }
        let saved_loop = self.in_loop;
        let saved_fun = self.in_function;
        self.in_loop = false;
        self.in_function = true;
        let body_res = self.block();
        self.in_loop = saved_loop;
        self.in_function = saved_fun;
        let body = match body_res {
            Result::Ok(b) => b,
            Result::Err(err) => {
                return Result::Err(err);
            },
        };
        Result::Ok(Stmt::FunDecl(Rc::new(FunDecl { name, params: parameters, body })))
    }

    /// A variable declaration after `var`: a name, an optional
    /// initializer, and the mandatory semicolon.
    fn var_declaration(&mut self) -> (r: Result<Stmt, Error>)
        requires
            old(self).wf(),
        ensures
            parse_step(*old(self), *final(self), r is Ok),
            r matches Result::Ok(s) ==> ({
                let t = old(self).tokens@[old(self).current as int];
                &&& t.ty == TokenType::Identifier
                &&& s matches Stmt::VarDecl(sym, _) && sym@.name == t.lexeme@
            }),
            ({
                let ts = old(self).tokens@;
                let c = old(self).current as int;
                (ts[c].ty == TokenType::Identifier && ts[c + 1].ty == TokenType::Semicolon) ==> r
                    is Ok && final(self).current == old(self).current + 2
            }),
        decreases self.tokens@.len() - self.current, 28nat,
    {
        let name_tok = match self.consume(TokenType::Identifier) {
            Result::Ok(t) => t,
            Result::Err(err) => {
                return Result::Err(err);
            },
        };
        let name = Symbol { name: name_tok.lexeme, line: name_tok.line, col: name_tok.col };
        let mut initializer: Option<Expr> = Option::None;
        if self.match_one_of(vec![TokenType::Equal]) {
            let e = match self.expr() {
                Result::Ok(e) => e,
                Result::Err(err) => {
                    return Result::Err(err);
                },
            };
            initializer = Option::Some(e);
        }
        match self.consume(TokenType::Semicolon) {
            Result::Ok(_) => {},
            Result::Err(err) => {
                return Result::Err(err);
            },
        }
        Result::Ok(Stmt::VarDecl(name, initializer))
    }

    /// A statement, dispatched on its first token; an expression
    /// statement by default.
    fn statement(&mut self) -> (r: Result<Stmt, Error>)
        requires
            old(self).wf(),
        ensures
            parse_step(*old(self), *final(self), r is Ok),
            ({
                let ts = old(self).tokens@;
                let c = old(self).current as int;
                (atom_token(ts[c]) && ts[c].ty != TokenType::Identifier && ts[c + 1].ty
                    == TokenType::Equal && atom_token(ts[c + 2]) && !continues_expr(
                    ts[c + 3].ty,
                )) ==> ({
                    &&& r matches Result::Err(e)
                    &&& e@ == (ErrorV::InvalidAssignment {
                        line: ts[c + 1].line as int,
                        col: ts[c + 1].col as int,
                    })
                })
            }),
            ({
                let t0 = old(self).tokens@[old(self).current as int];
                let t1 = old(self).tokens@[old(self).current + 1];
                (atom_token(t0) && t1.ty == TokenType::Semicolon) ==> {
                    &&& r matches Result::Ok(s)
                    &&& s matches Stmt::Expr(e2) && leaf_of(e2, t0)
                    &&& final(self).current == old(self).current + 2
                }
            }),
            ({
                let ts = old(self).tokens@;
                let c = old(self).current as int;
                (atom_token(ts[c]) && (ts[c + 1].ty == TokenType::Minus || ts[c + 1].ty
                    == TokenType::Plus) && atom_token(ts[c + 2]) && (ts[c + 3].ty
                    == TokenType::Minus || ts[c + 3].ty == TokenType::Plus) && atom_token(
                    ts[c + 4],
                ) && ts[c + 5].ty == TokenType::Semicolon) ==> ({
                    &&& r matches Result::Ok(s)
                    &&& s matches Stmt::Expr(e) && left_assoc_at(e, ts, c)
                    &&& final(self).current == old(self).current + 6
                })
            }),
            ({
                let ts = old(self).tokens@;
                let c = old(self).current as int;
                (atom_token(ts[c]) && (ts[c + 1].ty == TokenType::Minus || ts[c + 1].ty
                    == TokenType::Plus) && atom_token(ts[c + 2]) && (ts[c + 3].ty
                    == TokenType::Slash || ts[c + 3].ty == TokenType::Star) && atom_token(
                    ts[c + 4],
                ) && ts[c + 5].ty == TokenType::Semicolon) ==> ({
                    &&& r matches Result::Ok(s)
                    &&& s matches Stmt::Expr(e) && prec_at(e, ts, c)
                    &&& final(self).current == old(self).current + 6
                })
            }),
            ({
                let t0 = old(self).tokens@[old(self).current as int];
                let t1 = old(self).tokens@[old(self).current + 1];
                let t2 = old(self).tokens@[old(self).current + 2];
                (t0.ty == TokenType::Print && atom_token(t1) && t2.ty == TokenType::Semicolon)
                    ==> {
                    &&& r matches Result::Ok(s) && s is Print
                    &&& final(self).current == old(self).current + 3
                }
            }),
            ({
                let p = old(self).peek_ty();
                r matches Result::Ok(s) ==> {
                    &&& (p == TokenType::Print ==> s is Print)
                    &&& (p == TokenType::If ==> s is If)
                    &&& (p == TokenType::While ==> s is While)
                    &&& (p == TokenType::LeftBrace ==> s is Block)
                    &&& (p == TokenType::Break ==> s is Break)
                    &&& (p == TokenType::Return ==> s is Return)
                    &&& (p == TokenType::For ==> s is While || s is Block)
                }
            }),
            ({
                let t0 = old(self).tokens@[old(self).current as int];
                let t1 = old(self).tokens@[old(self).current + 1];
                (t0.ty == TokenType::Break && old(self).in_loop && t1.ty == TokenType::Semicolon)
                    ==> {
                    &&& r matches Result::Ok(s) && s is Break
                    &&& final(self).current == old(self).current + 2
                }
            }),
            ({
                let p = old(self).peek_ty();
                (p == TokenType::Break && !old(self).in_loop) ==> ({
                    let nt = old(self).tokens@[old(self).current + 1];
                    r matches Result::Err(e) && e@ == (ErrorV::BreakNotInLoop {
                        line: nt.line as int,
                        col: nt.col as int,
                    })
                })
            }),
            ({
                let p = old(self).peek_ty();
                (p == TokenType::Return && !old(self).in_function) ==> ({
                    let nt = old(self).tokens@[old(self).current + 1];
                    r matches Result::Err(e) && e@ == (ErrorV::ReturnNotInFun {
                        line: nt.line as int,
                        col: nt.col as int,
                    })
                })
            }),
        decreases self.tokens@.len() - self.current, 29nat,
    {
        if self.match_one_of(vec![TokenType::For]) {
            return self.for_statement();
        }
        if self.match_one_of(vec![TokenType::Break]) {
            if !self.in_loop {
                let line = self.peek().line;
                let col = self.peek().col;
                return Result::Err(Error::BreakNotInLoop { line, col });
            }
            match self.consume(TokenType::Semicolon) {
                Result::Ok(_) => {},
                Result::Err(err) => {
                    return Result::Err(err);
                },
            }
            return Result::Ok(Stmt::Break);
        }
        if self.match_one_of(vec![TokenType::Return]) {
            return self.return_statement();
        }
        if self.match_one_of(vec![TokenType::If]) {
            return self.if_statement();
        }
        if self.match_one_of(vec![TokenType::Print]) {
            return self.print_statement();
        }
        if self.match_one_of(vec![TokenType::While]) {
            return self.while_statement();
        }
        if self.match_one_of(vec![TokenType::LeftBrace]) {
            let stmts = match self.block() {
                Result::Ok(b) => b,
                Result::Err(err) => {
                    return Result::Err(err);
                },
            };
            return Result::Ok(Stmt::Block(stmts));
        }
        self.expr_statement()
    }

    /// A `return` statement after `return`: legal only inside a function
    /// body; the value defaults to nothing, and the semicolon is
    /// mandatory. The statement carries the position of the token after
    /// `return`.
    fn return_statement(&mut self) -> (r: Result<Stmt, Error>)
        requires
            old(self).wf(),
        ensures
            parse_step(*old(self), *final(self), r is Ok),
            r matches Result::Ok(s) ==> s is Return,
            (old(self).in_function && old(self).peek_ty() == TokenType::Semicolon) ==> r is Ok
                && final(self).current == old(self).current + 1,
            !old(self).in_function ==> ({
                let t = old(self).tokens@[old(self).current as int];
                r matches Result::Err(e) && e@ == (ErrorV::ReturnNotInFun {
                    line: t.line as int,
                    col: t.col as int,
                }) && final(self).current == old(self).current
            }),
        decreases self.tokens@.len() - self.current, 28nat,
    {
        let line = self.peek().line;
        let col = self.peek().col;
        if !self.in_function {
            return Result::Err(Error::ReturnNotInFun { line, col });
        }
        let loc = SourceLocation { line, col };
        let mut value: Option<Expr> = Option::None;
        if !self.check_type(TokenType::Semicolon) {
            let e = match self.expr() {
                Result::Ok(e) => e,
                Result::Err(err) => {
                    return Result::Err(err);
                },
            };
            value = Option::Some(e);
        }
        match self.consume(TokenType::Semicolon) {
            Result::Ok(_) => {},
            Result::Err(err) => {
                return Result::Err(err);
            },
        }
        Result::Ok(Stmt::Return(loc, value))
    }

    /// A `print` statement after `print`: the expression and the
    /// mandatory semicolon.
    fn print_statement(&mut self) -> (r: Result<Stmt, Error>)
        requires
            old(self).wf(),
        ensures
            parse_step(*old(self), *final(self), r is Ok),
            ({
                let t0 = old(self).tokens@[old(self).current as int];
                let t1 = old(self).tokens@[old(self).current + 1];
                (atom_token(t0) && t1.ty == TokenType::Semicolon) ==> r is Ok
                    && final(self).current == old(self).current + 2
            }),
            r matches Result::Err(e) ==> (e@ matches ErrorV::TokenMismatch { expected, .. }
                ==> expected == TokenType::Semicolon || expected == TokenType::RightParen),
            r matches Result::Ok(s) ==> s is Print,
        decreases self.tokens@.len() - self.current, 26nat,
    {
        let value = match self.expr() {
            Result::Ok(e) => e,
            Result::Err(err) => {
                return Result::Err(err);
            },
        };
        match self.consume(TokenType::Semicolon) {
            Result::Ok(_) => {},
            Result::Err(err) => {
                return Result::Err(err);
            },
        }
        Result::Ok(Stmt::Print(value))
    }

    /// An expression statement: the expression and the mandatory
    /// semicolon.
    fn expr_statement(&mut self) -> (r: Result<Stmt, Error>)
        requires
            old(self).wf(),
        ensures
            parse_step(*old(self), *final(self), r is Ok),
            ({
                let ts = old(self).tokens@;
                let c = old(self).current as int;
                (atom_token(ts[c]) && ts[c].ty != TokenType::Identifier && ts[c + 1].ty
                    == TokenType::Equal && atom_token(ts[c + 2]) && !continues_expr(
                    ts[c + 3].ty,
                )) ==> ({
                    &&& r matches Result::Err(e)
                    &&& e@ == (ErrorV::InvalidAssignment {
                        line: ts[c + 1].line as int,
                        col: ts[c + 1].col as int,
                    })
                })
            }),
            ({
                let t0 = old(self).tokens@[old(self).current as int];
                let t1 = old(self).tokens@[old(self).current + 1];
                (atom_token(t0) && t1.ty == TokenType::Semicolon) ==> {
                    &&& r matches Result::Ok(s)
                    &&& s matches Stmt::Expr(e2) && leaf_of(e2, t0)
                    &&& final(self).current == old(self).current + 2
                }
            }),
            ({
                let ts = old(self).tokens@;
                let c = old(self).current as int;
                (atom_token(ts[c]) && (ts[c + 1].ty == TokenType::Minus || ts[c + 1].ty
                    == TokenType::Plus) && atom_token(ts[c + 2]) && (ts[c + 3].ty
                    == TokenType::Minus || ts[c + 3].ty == TokenType::Plus) && atom_token(
                    ts[c + 4],
                ) && ts[c + 5].ty == TokenType::Semicolon) ==> ({
                    &&& r matches Result::Ok(s)
                    &&& s matches Stmt::Expr(e) && left_assoc_at(e, ts, c)
                    &&& final(self).current == old(self).current + 6
                })
            }),
            ({
                let ts = old(self).tokens@;
                let c = old(self).current as int;
                (atom_token(ts[c]) && (ts[c + 1].ty == TokenType::Minus || ts[c + 1].ty
                    == TokenType::Plus) && atom_token(ts[c + 2]) && (ts[c + 3].ty
                    == TokenType::Slash || ts[c + 3].ty == TokenType::Star) && atom_token(
                    ts[c + 4],
                ) && ts[c + 5].ty == TokenType::Semicolon) ==> ({
                    &&& r matches Result::Ok(s)
                    &&& s matches Stmt::Expr(e) && prec_at(e, ts, c)
                    &&& final(self).current == old(self).current + 6
                })
            }),
            r matches Result::Err(e) ==> (e@ matches ErrorV::TokenMismatch { expected, .. }
                ==> expected == TokenType::Semicolon || expected == TokenType::RightParen),
            r matches Result::Ok(s) ==> s is Expr,
        decreases self.tokens@.len() - self.current, 26nat,
    {
        let value = match self.expr() {
            Result::Ok(e) => e,
            Result::Err(err) => {
                return Result::Err(err);
            },
        };
        match self.consume(TokenType::Semicolon) {
            Result::Ok(_) => {},
            Result::Err(err) => {
                return Result::Err(err);
            },
        }
        Result::Ok(Stmt::Expr(value))
    }

    /// The statements of a block whose `{` is already consumed, up to and
    /// including the `}`.
    fn block(&mut self) -> (r: Result<Vec<Stmt>, Error>)
        requires
            old(self).wf(),
        ensures
            parse_step(*old(self), *final(self), r is Ok),
            old(self).peek_ty() == TokenType::RightBrace ==> ({
                &&& r matches Result::Ok(v) && v@.len() == 0
                &&& final(self).current == old(self).current + 1
            }),
            r matches Result::Ok(v) ==> (v@.len() == 0 <==> old(self).peek_ty()
                == TokenType::RightBrace),
            ({
                let ts = old(self).tokens@;
                let c = old(self).current as int;
                (atom_token(ts[c]) && ts[c + 1].ty == TokenType::Semicolon && ts[c + 2].ty
                    == TokenType::RightBrace) ==> ({
                    &&& r matches Result::Ok(v)
                    &&& v@.len() == 1
                    &&& v@[0] matches Stmt::Expr(e2) && leaf_of(e2, ts[c])
                    &&& final(self).current == old(self).current + 3
                })
            }),
        decreases self.tokens@.len() - self.current, 40nat,
    {
        let mut statements: Vec<Stmt> = Vec::new();
        loop
            invariant
                self.wf(),
                self.tokens@ == old(self).tokens@,
                self.in_loop == old(self).in_loop,
                self.in_function == old(self).in_function,
                old(self).current <= self.current,
                old(self).peek_ty() == TokenType::RightBrace ==> statements@.len() == 0
                    && self.current == old(self).current,
                statements@.len() == 0 ==> self.current == old(self).current,
                ({
                    let ts = old(self).tokens@;
                    let c = old(self).current as int;
                    (atom_token(ts[c]) && ts[c + 1].ty == TokenType::Semicolon && ts[c + 2].ty
                        == TokenType::RightBrace) ==> (statements@.len() == 0 && self.current
                        as int == c) || ({
                        &&& statements@.len() == 1
                        &&& statements@[0] matches Stmt::Expr(e2) && leaf_of(e2, ts[c])
                        &&& self.current as int == c + 2
                    })
                }),
            ensures
                self.wf(),
                self.tokens@ == old(self).tokens@,
                self.in_loop == old(self).in_loop,
                self.in_function == old(self).in_function,
                old(self).current <= self.current,
                old(self).peek_ty() == TokenType::RightBrace ==> statements@.len() == 0
                    && self.current == old(self).current,
                statements@.len() == 0 ==> self.current == old(self).current,
                ({
                    let ts = old(self).tokens@;
                    let c = old(self).current as int;
                    (atom_token(ts[c]) && ts[c + 1].ty == TokenType::Semicolon && ts[c + 2].ty
                        == TokenType::RightBrace) ==> ({
                        &&& statements@.len() == 1
                        &&& statements@[0] matches Stmt::Expr(e2) && leaf_of(e2, ts[c])
                        &&& self.current as int == c + 2
                    })
                }),
            decreases self.tokens@.len() - self.current,
        {
            if self.check_type(TokenType::RightBrace) {
                break ;
            }
            if self.is_at_end() {
                break ;
            }
            let s = match self.declaration() {
                Result::Ok(s) => s,
                Result::Err(err) => {
                    return Result::Err(err);
                },
            };
            statements.push(s);
        }
        match self.consume(TokenType::RightBrace) {
            Result::Ok(_) => {},
            Result::Err(err) => {
                return Result::Err(err);
            },
        }
        Result::Ok(statements)
    }

    /// An `if` statement after `if`: parenthesized condition, a then
    /// branch, and an optional `else` that binds to the nearest `if`.
    fn if_statement(&mut self) -> (r: Result<Stmt, Error>)
        requires
            old(self).wf(),
            old(self).current >= 1,
        ensures
            parse_step(*old(self), *final(self), r is Ok),
            r matches Result::Ok(s) ==> s is If,
            ({
                let ts = old(self).tokens@;
                let c = old(self).current as int;
                (ts[c].ty == TokenType::LeftParen && atom_token(ts[c + 1]) && ts[c + 2].ty
                    == TokenType::RightParen && atom_token(ts[c + 3]) && ts[c + 4].ty
                    == TokenType::Semicolon && ts[c + 5].ty != TokenType::Else) ==> r is Ok
                    && final(self).current == old(self).current + 5
            }),
        decreases self.tokens@.len() - self.current, 30nat,
    {
        let kw_line = self.tokens[self.current - 1].line;
        let kw_col = self.tokens[self.current - 1].col;
        match self.consume(TokenType::LeftParen) {
            Result::Ok(_) => {},
            Result::Err(err) => {
                return Result::Err(err);
            },
        }
        let condition = match self.expr() {
            Result::Ok(e) => e,
            Result::Err(err) => {
                return Result::Err(err);
            },
        };
        match self.consume(TokenType::RightParen) {
            Result::Ok(_) => {},
            Result::Err(err) => {
                return Result::Err(err);
            },
        }
        let then_branch = match self.statement() {
            Result::Ok(s) => s,
            Result::Err(err) => {
                return Result::Err(err);
            },
        };
        let mut else_branch: Option<Box<Stmt>> = Option::None;
        if self.match_one_of(vec![TokenType::Else]) {
            let e = match self.statement() {
                Result::Ok(s) => s,
                Result::Err(err) => {
                    return Result::Err(err);
                },
            };
            else_branch = Option::Some(Box::new(e));
        }
        Result::Ok(
            Stmt::If(
                SourceLocation { line: kw_line, col: kw_col },
                condition,
                Box::new(then_branch),
                else_branch,
            ),
        )
    }

    /// A `while` statement after `while`: parenthesized condition and a
    /// body inside which `break` is legal.
    fn while_statement(&mut self) -> (r: Result<Stmt, Error>)
        requires
            old(self).wf(),
            old(self).current >= 1,
        ensures
            parse_step(*old(self), *final(self), r is Ok),
            r matches Result::Ok(s) ==> s is While,
            ({
                let ts = old(self).tokens@;
                let c = old(self).current as int;
                (ts[c].ty == TokenType::LeftParen && atom_token(ts[c + 1]) && ts[c + 2].ty
                    == TokenType::RightParen && ts[c + 3].ty == TokenType::Break && ts[c + 4].ty
                    == TokenType::Semicolon) ==> r is Ok && final(self).current == old(
                    self,
                ).current + 5
            }),
        decreases self.tokens@.len() - self.current, 30nat,
    {
        let kw_line = self.tokens[self.current - 1].line;
        let kw_col = self.tokens[self.current - 1].col;
        match self.consume(TokenType::LeftParen) {
            Result::Ok(_) => {},
            Result::Err(err) => {
                return Result::Err(err);
            },
        }
        let condition = match self.expr() {
            Result::Ok(e) => e,
            Result::Err(err) => {
                return Result::Err(err);
            },
        };
        match self.consume(TokenType::RightParen) {
            Result::Ok(_) => {},
            Result::Err(err) => {
                return Result::Err(err);
            },
        }
        let saved_loop = self.in_loop;
        self.in_loop = true;
        let body_res = self.statement();
        self.in_loop = saved_loop;
        let body = match body_res {
            Result::Ok(s) => s,
            Result::Err(err) => {
                return Result::Err(err);
            },
        };
        Result::Ok(
            Stmt::While(SourceLocation { line: kw_line, col: kw_col }, condition, Box::new(body)),
        )
    }

    /// A `for` statement after `for`, desugared: the initializer and the
    /// loop become a block around a `while` whose condition defaults to
    /// `true` and whose body appends the increment.
    fn for_statement(&mut self) -> (r: Result<Stmt, Error>)
        requires
            old(self).wf(),
            old(self).current >= 1,
        ensures
            parse_step(*old(self), *final(self), r is Ok),
            r matches Result::Ok(s) ==> s is While || (s matches Stmt::Block(v) && v@.len() == 2
                && (v@[0] is VarDecl || v@[0] is Expr) && v@[1] is While),
            ({
                let ts = old(self).tokens@;
                let c = old(self).current as int;
                (ts[c].ty == TokenType::LeftParen && ts[c + 1].ty == TokenType::Semicolon
                    && ts[c + 2].ty == TokenType::Semicolon && ts[c + 3].ty
                    == TokenType::RightParen && ts[c + 4].ty == TokenType::Break && ts[c + 5].ty
                    == TokenType::Semicolon) ==> ({
                    &&& r matches Result::Ok(s)
                    &&& s matches Stmt::While(_, cond, b) && cond == Expr::Literal(Literal::True)
                        && (*b) is Break
                    &&& final(self).current == old(self).current + 6
                })
            }),
            ({
                let ts = old(self).tokens@;
                let c = old(self).current as int;
                (ts[c].ty == TokenType::LeftParen && ts[c + 1].ty == TokenType::Semicolon
                    && atom_token(ts[c + 2]) && ts[c + 3].ty == TokenType::Semicolon && ts[c
                    + 4].ty == TokenType::RightParen && ts[c + 5].ty == TokenType::Break && ts[c
                    + 6].ty == TokenType::Semicolon) ==> ({
                    &&& r matches Result::Ok(s)
                    &&& s matches Stmt::While(_, cond, b) && leaf_of(cond, ts[c + 2]) && (*b)
                        is Break
                    &&& final(self).current == old(self).current + 7
                })
            }),
            ({
                let ts = old(self).tokens@;
                let c = old(self).current as int;
                (ts[c].ty == TokenType::LeftParen && ts[c + 1].ty == TokenType::Semicolon
                    && ts[c + 2].ty == TokenType::Semicolon && atom_token(ts[c + 3]) && ts[c
                    + 4].ty == TokenType::RightParen && ts[c + 5].ty == TokenType::Break && ts[c
                    + 6].ty == TokenType::Semicolon) ==> ({
                    &&& r matches Result::Ok(s)
                    &&& s matches Stmt::While(_, cond, b) && cond == Expr::Literal(Literal::True)
                        && ({
                        &&& (*b) matches Stmt::Block(v)
                        &&& v@.len() == 2
                        &&& v@[0] is Break
                        &&& v@[1] matches Stmt::Expr(inc) && leaf_of(inc, ts[c + 3])
                    })
                    &&& final(self).current == old(self).current + 7
                })
            }),
        decreases self.tokens@.len() - self.current, 30nat,
    {
        let kw_line = self.tokens[self.current - 1].line;
        let kw_col = self.tokens[self.current - 1].col;
        match self.consume(TokenType::LeftParen) {
            Result::Ok(_) => {},
            Result::Err(err) => {
                return Result::Err(err);
            },
        }
        let mut initializer: Option<Stmt> = Option::None;
        if self.match_one_of(vec![TokenType::Semicolon]) {
            initializer = Option::None;
        } else if self.match_one_of(vec![TokenType::Var]) {
            let s = match self.var_declaration() {
                Result::Ok(s) => s,
                Result::Err(err) => {
                    return Result::Err(err);
                },
            };
            initializer = Option::Some(s);
        } else {
            let s = match self.expr_statement() {
                Result::Ok(s) => s,
                Result::Err(err) => {
                    return Result::Err(err);
                },
            };
            initializer = Option::Some(s);
        }
        let mut condition: Option<Expr> = Option::None;
        if !self.check_type(TokenType::Semicolon) {
            let e = match self.expr() {
                Result::Ok(e) => e,
                Result::Err(err) => {
                    return Result::Err(err);
                },
            };
            condition = Option::Some(e);
        }
        match self.consume(TokenType::Semicolon) {
            Result::Ok(_) => {},
            Result::Err(err) => {
                return Result::Err(err);
            },
        }
        let mut increment: Option<Expr> = Option::None;
        if !self.check_type(TokenType::RightParen) {
            let e = match self.expr() {
                Result::Ok(e) => e,
                Result::Err(err) => {
                    return Result::Err(err);
                },
            };
            increment = Option::Some(e);
        }
        match self.consume(TokenType::RightParen) {
            Result::Ok(_) => {},
            Result::Err(err) => {
                return Result::Err(err);
            },
        }
        let saved_loop = self.in_loop;
        self.in_loop = true;
        let body_res = self.statement();
        self.in_loop = saved_loop;
        let mut body = match body_res {
            Result::Ok(s) => s,
            Result::Err(err) => {
                return Result::Err(err);
            },
        };
        if let Option::Some(inc) = increment {
            let mut steps: Vec<Stmt> = Vec::new();
            steps.push(body);
            steps.push(Stmt::Expr(inc));
            body = Stmt::Block(steps);
        }
        let cond = match condition {
            Option::Some(c) => c,
            Option::None => Expr::Literal(Literal::True),
        };
        body = Stmt::While(
            SourceLocation { line: kw_line, col: kw_col },
            cond,
            Box::new(body),
        );
        if let Option::Some(init) = initializer {
            let mut wrapped: Vec<Stmt> = Vec::new();
            wrapped.push(init);
            wrapped.push(body);
            body = Stmt::Block(wrapped);
        }
        Result::Ok(body)
    }
}

} // verus!

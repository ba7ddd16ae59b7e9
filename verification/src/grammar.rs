//! A small standalone expression shape with a parenthesizing printer,
//! handy for displaying operator structure: each composite node prints as
//! a parenthesized group led by its operator's lexeme.

use vstd::prelude::*;
use vstd::string::StrSliceExecFns;
use vstd::string::StringExecFns;

use crate::token::Token;

verus! {

/// The decimal digits of `n`, most significant first.
pub open spec fn dec_digits(n: nat) -> Seq<char>
    decreases n,
{
    if n < 10 {
        seq![digit_char(n)]
    } else {
        dec_digits(n / 10).push(digit_char(n % 10))
    }
}

/// The character for a single decimal digit.
pub open spec fn digit_char(d: nat) -> char
    recommends
        d < 10,
{
    ((48 + d) as u8) as char
}

fn digit_str(d: usize) -> (r: &'static str)
    requires
        d < 10,
    ensures
        r@ == seq![digit_char(d as nat)],
{
    let r: &'static str = if d == 0 {
        "0"
    } else if d == 1 {
        "1"
    } else if d == 2 {
        "2"
    } else if d == 3 {
        "3"
    } else if d == 4 {
        "4"
    } else if d == 5 {
        "5"
    } else if d == 6 {
        "6"
    } else if d == 7 {
        "7"
    } else if d == 8 {
        "8"
    } else {
        "9"
    };
    proof {
        reveal_strlit("0");
        reveal_strlit("1");
        reveal_strlit("2");
        reveal_strlit("3");
        reveal_strlit("4");
        reveal_strlit("5");
        reveal_strlit("6");
        reveal_strlit("7");
        reveal_strlit("8");
        reveal_strlit("9");
        assert(r@ =~= seq![digit_char(d as nat)]);
    }
    r
}

/// Prints `n` in decimal.
pub fn print_usize(n: usize) -> (r: String)
    ensures
        r@ == dec_digits(n as nat),
    decreases n,
{
    if n < 10 {
        return String::from_str(digit_str(n));
    }
    let mut s = print_usize(n / 10);
    s.append(digit_str(n % 10));
    proof {
        assert(dec_digits((n / 10) as nat).push(digit_char((n % 10) as nat)) =~= dec_digits(
            (n / 10) as nat,
        ) + seq![digit_char((n % 10) as nat)]);
    }
    s
}

/// A displayable expression shape: binary and unary operator applications,
/// groupings, and whole-number literals.
#[derive(Debug)]
pub enum Expression {
    Binary(Binary),
    Grouping(Grouping),
    Literal(usize),
    Unary(Unary),
}

/// A binary application: operator token between two subexpressions.
#[derive(Debug)]
pub struct Binary {
    pub left: Box<Expression>,
    pub operator: Token,
    pub right: Box<Expression>,
}

/// A parenthesized subexpression.
#[derive(Debug)]
pub struct Grouping {
    pub expression: Box<Expression>,
}

/// A unary application: operator token before its operand.
#[derive(Debug)]
pub struct Unary {
    pub operator: Token,
    pub right: Box<Expression>,
}

/// What printing an [`Expression`] yields: literals in decimal, composite
/// nodes as `(op left right)`, `(op right)` or `(group inner)`.
pub open spec fn printed_expression(e: Expression) -> Seq<char>
    decreases e,
{
    match e {
        Expression::Literal(n) => dec_digits(n as nat),
        Expression::Binary(b) => seq!['('] + b.operator.lexeme@ + seq![' '] + printed_expression(
            *b.left,
        ) + seq![' '] + printed_expression(*b.right) + seq![')'],
        Expression::Grouping(g) => "(group "@ + printed_expression(*g.expression) + seq![')'],
        Expression::Unary(u) => seq!['('] + u.operator.lexeme@ + seq![' '] + printed_expression(
            *u.right,
        ) + seq![')'],
    }
}

/// Rendering a syntax shape as text.
pub trait PrettyPrint {
    /// What [`PrettyPrint::print`] yields.
    spec fn printed(&self) -> Seq<char>;

    /// Renders the shape.
    fn print(&self) -> (r: String)
        ensures
            r@ == self.printed(),
    ;
}

impl PrettyPrint for Expression {
    open spec fn printed(&self) -> Seq<char> {
        printed_expression(*self)
    }

    fn print(&self) -> (r: String)
        ensures
            r@ == self.printed(),
        decreases *self,
    {
        match self {
            Expression::Literal(n) => print_usize(*n),
            Expression::Binary(b) => {
                let mut s = String::from_str("(");
                s.append(b.operator.lexeme.as_str());
                s.append(" ");
                let left = b.left.print();
                s.append(left.as_str());
                s.append(" ");
                let right = b.right.print();
                s.append(right.as_str());
                s.append(")");
                proof {
                    reveal_strlit("(");
                    reveal_strlit(" ");
                    reveal_strlit(")");
                    assert(s@ =~= printed_expression(*self));
                }
                s
            },
            Expression::Grouping(g) => {
                let mut s = String::from_str("(group ");
                let inner = g.expression.print();
                s.append(inner.as_str());
                s.append(")");
                proof {
                    reveal_strlit(")");
                    assert(s@ =~= printed_expression(*self));
                }
                s
            },
            Expression::Unary(u) => {
                let mut s = String::from_str("(");
                s.append(u.operator.lexeme.as_str());
                s.append(" ");
                let right = u.right.print();
                s.append(right.as_str());
                s.append(")");
                proof {
                    reveal_strlit("(");
                    reveal_strlit(" ");
                    reveal_strlit(")");
                    assert(s@ =~= printed_expression(*self));
                }
                s
            },
        }
    }
}

impl Expression {
    /// The name of this node's kind.
    pub fn kind_name(&self) -> (r: &'static str)
        ensures
            self is Binary ==> r@ == "binary"@,
            self is Grouping ==> r@ == "grouping"@,
            self is Literal ==> r@ == "literal"@,
            self is Unary ==> r@ == "unary"@,
    {
        match self {
            Expression::Binary(_) => "binary",
            Expression::Grouping(_) => "grouping",
            Expression::Literal(_) => "literal",
            Expression::Unary(_) => "unary",
        }
    }
}

impl PrettyPrint for Binary {
    open spec fn printed(&self) -> Seq<char> {
        printed_expression(Expression::Binary(
            Binary { left: self.left, operator: self.operator, right: self.right },
        ))
    }

    fn print(&self) -> (r: String)
        ensures
            r@ == self.printed(),
    {
        let mut s = String::from_str("(");
        s.append(self.operator.lexeme.as_str());
        s.append(" ");
        let left = self.left.print();
        s.append(left.as_str());
        s.append(" ");
        let right = self.right.print();
        s.append(right.as_str());
        s.append(")");
        proof {
            reveal_strlit("(");
            reveal_strlit(" ");
            reveal_strlit(")");
            assert(s@ =~= self.printed());
        }
        s
    }
}

impl PrettyPrint for Grouping {
    open spec fn printed(&self) -> Seq<char> {
        printed_expression(Expression::Grouping(Grouping { expression: self.expression }))
    }

    fn print(&self) -> (r: String)
        ensures
            r@ == self.printed(),
    {
        let mut s = String::from_str("(group ");
        let inner = self.expression.print();
        s.append(inner.as_str());
        s.append(")");
        proof {
            reveal_strlit(")");
            assert(s@ =~= self.printed());
        }
        s
    }
}

impl PrettyPrint for Unary {
    open spec fn printed(&self) -> Seq<char> {
        printed_expression(Expression::Unary(
            Unary { operator: self.operator, right: self.right },
        ))
    }

    fn print(&self) -> (r: String)
        ensures
            r@ == self.printed(),
    {
        let mut s = String::from_str("(");
        s.append(self.operator.lexeme.as_str());
        s.append(" ");
        let right = self.right.print();
        s.append(right.as_str());
        s.append(")");
        proof {
            reveal_strlit("(");
            reveal_strlit(" ");
            reveal_strlit(")");
            assert(s@ =~= self.printed());
        }
        s
    }
}

} // verus!

//! A displayable expression tree: a thin wrapper that renders its
//! expression with the parenthesizing printer.

use vstd::prelude::*;

use crate::grammar::{Expression, PrettyPrint};

verus! {

/// An expression tree ready for display.
#[derive(Debug)]
pub struct AST {
    pub expr: Expression,
}

impl AST {
    /// Renders the tree; see [`crate::grammar::printed_expression`].
    pub fn print(&self) -> (r: String)
        ensures
            r@ == self.expr.printed(),
    {
        self.expr.print()
    }
}

} // verus!

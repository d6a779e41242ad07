//! The closed set of binary arithmetic operators.

use vstd::prelude::*;

verus! {

/// A binary arithmetic operator with a fixed precedence rank and a display
/// symbol. Multiplication and division bind tighter than addition and
/// subtraction; there are no other ranks.
#[derive(Clone, Copy, PartialEq, Eq, Structural, Debug)]
pub enum Operator {
    Addition,
    Subtraction,
    Multiplication,
    Division,
}

impl Operator {
    /// Precedence rank used to order reduction steps; higher collapses first.
    pub open spec fn priority_spec(self) -> int {
        match self {
            Operator::Addition => 5,
            Operator::Subtraction => 5,
            Operator::Multiplication => 6,
            Operator::Division => 6,
        }
    }

    pub fn priority(&self) -> (p: i32)
        ensures
            p == self.priority_spec(),
    {
        match *self {
            Operator::Addition => 5,
            Operator::Subtraction => 5,
            Operator::Multiplication => 6,
            Operator::Division => 6,
        }
    }

    /// Display character of the operator in a rendered expression.
    pub open spec fn symbol_spec(self) -> char {
        match self {
            Operator::Addition => '+',
            Operator::Subtraction => '-',
            Operator::Multiplication => '*',
            Operator::Division => '/',
        }
    }

    pub fn symbol(&self) -> (c: char)
        ensures
            c == self.symbol_spec(),
    {
        match *self {
            Operator::Addition => '+',
            Operator::Subtraction => '-',
            Operator::Multiplication => '*',
            Operator::Division => '/',
        }
    }
}

} // verus!

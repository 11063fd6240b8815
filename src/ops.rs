//! Operators of the expression grammar.
use vstd::prelude::*;

verus! {

/// A binary operator, as written between two operands.
#[derive(Debug, Clone, Copy, PartialEq, Eq, Structural)]
pub enum BinOp {
    And,
    Or,
    Lt,
    Le,
    Gt,
    Ge,
    EqEq,
    Ne,
    Rem,
    Caret,
    Add,
    Sub,
    Mul,
    Div,
}

/// A unary operator: the prefixes `+`, `-`, `!` and the suffixes `++`, `--`.
#[derive(Debug, Clone, Copy, PartialEq, Eq, Structural)]
pub enum UnOp {
    Plus,
    Minus,
    Not,
    Increment,
    Decrement,
}

/// The four operations of floating-point arithmetic.
#[derive(Debug, Clone, Copy, PartialEq, Eq, Structural)]
pub enum FloatOp {
    Add,
    Sub,
    Mul,
    Div,
}

} // verus!

//! What can go wrong while lexing, parsing and running a program.
use vstd::prelude::*;
use crate::ops::{BinOp, UnOp};

verus! {

/// The type of a runtime value, as named in error reports.
#[derive(Debug, Clone, Copy, PartialEq, Eq, Structural)]
pub enum Kind {
    Integer,
    Float,
    Boolean,
    Str,
    List,
    Nil,
}

/// An arithmetic fault on 32-bit integers.
#[derive(Debug, Clone, Copy, PartialEq, Eq, Structural)]
pub enum Fault {
    DivisionByZero,
    Overflow,
}

/// A construct that parses but has no runtime meaning.
#[derive(Debug, Clone, Copy, PartialEq, Eq, Structural)]
pub enum Feature {
    /// A binary operator other than `+ - * /`.
    Operator(BinOp),
    /// A unary operator applied to an operand it does not take.
    Unary(UnOp),
    /// `if`, `while`, `for`, `match`, `class`, `parent` or `use`.
    Statement,
    /// An expression form that cannot be evaluated (property access,
    /// indexing, a bare keyword, a `match` arm).
    Expression,
    /// A call whose callee is not a plain name.
    CallTarget,
}

/// An error raised while running a program.
#[derive(Debug)]
pub enum RuntimeError {
    /// An undefined variable or function, or a variable declared without a value.
    Name(Vec<char>),
    /// A user function called with the wrong number of arguments.
    Arity { name: Vec<char>, expected: usize, found: usize },
    /// A binary operator applied to a pair of types it does not take.
    Type { op: BinOp, left: Kind, right: Kind },
    /// `++` or `--` on something that is not a numeric variable.
    Step(UnOp),
    Arithmetic(Fault),
    Unsupported(Feature),
    /// Evaluation nested beyond the depth budget of the run (deep or unbounded
    /// recursion, or a deferred binding that reads itself).
    TooDeep,
}

/// The mathematical form of [`RuntimeError`].
pub enum ErrorModel {
    Name(Seq<char>),
    Arity { name: Seq<char>, expected: nat, found: nat },
    Type { op: BinOp, left: Kind, right: Kind },
    Step(UnOp),
    Arithmetic(Fault),
    Unsupported(Feature),
    TooDeep,
}

impl RuntimeError {
    pub open spec fn view(&self) -> ErrorModel {
        match self {
            RuntimeError::Name(n) => ErrorModel::Name(n@),
            RuntimeError::Arity { name, expected, found } => ErrorModel::Arity {
                name: name@,
                expected: *expected as nat,
                found: *found as nat,
            },
            RuntimeError::Type { op, left, right } => ErrorModel::Type {
                op: *op,
                left: *left,
                right: *right,
            },
            RuntimeError::Step(op) => ErrorModel::Step(*op),
            RuntimeError::Arithmetic(f) => ErrorModel::Arithmetic(*f),
            RuntimeError::Unsupported(f) => ErrorModel::Unsupported(*f),
            RuntimeError::TooDeep => ErrorModel::TooDeep,
        }
    }
}

} // verus!

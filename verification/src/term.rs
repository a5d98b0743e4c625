//! A minimal term representation.
//!
//! The evaluator's full expression language is out of scope here: the stack
//! only stores terms inside closures and never looks at them. A few atomic
//! forms are enough to exercise every stack operation.

use vstd::prelude::*;

verus! {

/// An atomic term of the object language.
#[derive(Debug, Clone, Copy, PartialEq, Eq)]
pub enum Term {
    /// A boolean literal.
    Bool(bool),
    /// An integer literal.
    Num(i64),
    /// A variable, named by an interned symbol identifier.
    Var(u64),
}

/// A primitive unary operation, stored inside suspended operation
/// continuations. The stack treats these as opaque tags.
#[derive(Debug, Clone, Copy, PartialEq, Eq)]
pub enum UnaryOp {
    IsNum,
    IsBool,
    IsFun,
}

} // verus!

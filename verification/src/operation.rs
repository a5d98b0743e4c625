//! Continuations of primitive operations.
//!
//! When the evaluator suspends a primitive operation to evaluate one of its
//! operands, it records the operation as a continuation on the stack. The
//! stack only stores and returns these values; their semantics belong to the
//! (out-of-scope) operation interpreter.

use crate::position::RawSpan;
use crate::term::UnaryOp;
use vstd::prelude::*;

verus! {

/// The continuation of a suspended primitive operation.
#[derive(Debug, Clone, Copy, PartialEq, Eq)]
pub enum OperationCont {
    /// A unary operation waiting for its single operand, with the span of the
    /// original operation node.
    Op1(UnaryOp, Option<RawSpan>),
}

} // verus!

//! The control stack of a call-by-need abstract machine.
//!
//! The stack is a single LIFO sequence of typed frames recording what remains
//! to be done during evaluation: pending application arguments, pending
//! memoization updates, suspended primitive operations, and the remaining
//! checks of a decomposed structural equality. See [`stack`] for the stack
//! itself and [`eval`] for the memoization-cell model that `Thunk` frames
//! refer to.

pub mod eval;
pub mod operation;
pub mod position;
pub mod stack;
pub mod term;

//! Source positions, carried through the stack for diagnostics only.

use vstd::prelude::*;

verus! {

/// A span in a source file: the file it comes from and the byte offsets of
/// its two ends. The stack never inspects spans; it only stores and returns
/// them.
#[derive(Debug, Clone, Copy, PartialEq, Eq)]
pub struct RawSpan {
    pub src_id: u32,
    pub start: u32,
    pub end: u32,
}

} // verus!

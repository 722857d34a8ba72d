//! One record of the externally produced execution trace: the coordinates of
//! an instruction and its stack and memory snapshots.
use vstd::prelude::*;

use crate::mem::Memory;
use crate::operation::{Error, ReportedError};
use crate::word::Word;

verus! {

/// Capacity of the EVM stack, in words.
pub const STACK_CAPACITY: u64 = 1024;

/// The `i`-th stack word counted from the top; the snapshot keeps the top as
/// its last element.
pub open spec fn spec_nth_last(stack: Seq<Word>, i: int) -> Word {
    stack[stack.len() - 1 - i]
}

/// Absolute position of the stack top: 1024 minus the stack depth.
pub open spec fn spec_stack_pointer(stack: Seq<Word>) -> int {
    1024 - stack.len()
}

/// One per-instruction record of the reference execution trace.
pub struct TraceStep {
    /// Program counter.
    pub pc: u64,
    /// Raw opcode byte.
    pub op: u8,
    /// Gas remaining before the instruction.
    pub gas: u64,
    /// Call depth, 1 at the transaction root.
    pub depth: u64,
    /// Failure the reference engine reported for this instruction, if any.
    pub error: Option<ReportedError>,
    /// Stack snapshot before the instruction; the top is the last element.
    pub stack: Vec<Word>,
    /// Memory snapshot before the instruction.
    pub memory: Memory,
}

impl TraceStep {
    /// The `i`-th stack word from the top, or `StackUnderflow` when the
    /// snapshot holds fewer than `i + 1` words.
    pub fn nth_last(&self, i: usize) -> (r: Result<Word, Error>)
        ensures
            match r {
                Ok(w) => i < self.stack@.len() && w == spec_nth_last(self.stack@, i as int),
                Err(e) => i >= self.stack@.len() && e == Error::StackUnderflow,
            },
    {
        if i < self.stack.len() {
            Ok(self.stack[self.stack.len() - 1 - i])
        } else {
            Err(Error::StackUnderflow)
        }
    }

    /// Absolute position of the slot `i` places below the top.
    pub fn nth_last_filled(&self, i: usize) -> (r: u64)
        requires
            self.stack@.len() <= 1024,
            i <= 1024,
        ensures
            r == spec_stack_pointer(self.stack@) + i,
    {
        STACK_CAPACITY - (self.stack.len() as u64) + (i as u64)
    }

    /// Absolute position of the stack top.
    pub fn stack_pointer(&self) -> (r: u64)
        requires
            self.stack@.len() <= 1024,
        ensures
            r == spec_stack_pointer(self.stack@),
    {
        STACK_CAPACITY - (self.stack.len() as u64)
    }
}

} // verus!

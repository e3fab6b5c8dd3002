//! The faults that stop the machine.
use vstd::prelude::*;

verus! {

/// A fatal fault of the machine, with the context needed to diagnose it.
#[derive(Debug, Clone, Copy, PartialEq, Eq, Structural)]
pub enum C8Err {
    /// An access to the reserved region below 512 or past the end of memory.
    MemoryOutOfRange { address: usize },
    /// A call with sixteen return addresses already on the stack.
    StackOverflow,
    /// A return with no return address on the stack.
    StackUnderflow,
    /// A fetched word that is not a CHIP-8 instruction.
    InvalidInstruction { word: u16 },
}

} // verus!

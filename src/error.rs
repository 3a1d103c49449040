use vstd::prelude::*;

verus! {

/// Why a single step of the machine could not be carried out.
#[derive(Debug, Clone, Copy, PartialEq, Eq, Structural)]
pub enum Error {
    /// The instruction word matches no entry of the opcode table.
    UndefinedOp(u16),
    /// A subroutine return was attempted with an empty call stack.
    PoppedEmptyStack,
}

} // verus!

use vstd::prelude::*;

verus! {

/// The ways in which an operation on the machine can fail.
///
/// Every failure ends the current session: the host is expected to report it
/// and to halt, reset, or load another program. Nothing is retried.
#[derive(Clone, Copy, Debug, PartialEq, Eq, Structural)]
pub enum EmuError {
    /// The fetched word matches no instruction of the instruction set.
    UnimplementedOpcode { opcode: u16 },
    /// A subroutine call was made while all sixteen stack slots were in use.
    StackOverflow,
    /// A subroutine return was made with nothing on the stack.
    StackUnderflow,
    /// A memory access would have touched an address above 0xFFF.
    AddressOutOfRange,
    /// A key index was not below sixteen.
    InvalidInputIndex,
    /// A program does not fit between 0x200 and the end of memory.
    OversizedRom,
}

} // verus!

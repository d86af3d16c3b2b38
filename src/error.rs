use vstd::prelude::*;

verus! {

/// The ways in which loading a program or running an instruction can fail.
#[derive(Clone, Copy, Debug, PartialEq, Eq, Structural)]
pub enum Error {
    /// The program does not fit between 0x200 and the end of memory.
    InvalidRom,
    /// The two bytes do not form an instruction of the machine.
    UnknownOpcode(u8, u8),
    /// A return was executed with no return address on the stack.
    StackUnderflow,
    /// A call was executed with the stack already holding its maximum depth.
    StackOverflow,
}

} // verus!

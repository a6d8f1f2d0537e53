use vstd::prelude::*;

verus! {

/// Why loading a program or stepping the machine failed.
#[derive(Clone, Copy, Debug, PartialEq, Eq, Structural)]
pub enum Chip8Error {
    /// The program image does not fit between the program start and the end of memory.
    RomTooLarge,
    /// An instruction fetch or a memory operand reaches past the end of memory.
    OutOfBounds,
    /// The fetched word matches no instruction; the word is carried along.
    UnknownOpcode(u16),
    /// A call was made with all stack slots in use.
    StackOverflow,
    /// A return was made with no call outstanding.
    StackUnderflow,
}

} // verus!

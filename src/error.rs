use vstd::prelude::*;

verus! {

/// Everything that can go wrong while loading a program, executing an
/// instruction or driving the keypad.
#[derive(Debug, Clone, Copy, PartialEq, Eq, Structural)]
pub enum Chip8Error {
    /// The word fetched at `pc` matches no instruction of the set.
    InvalidOpcode { opcode: u16, pc: u16 },
    /// An address computed by a fetch, a load or an `I`-relative access lies
    /// outside memory.
    MemoryOutOfBounds { addr: usize },
    /// A call was made with all sixteen stack slots in use.
    StackOverflow,
    /// A return was made with an empty call stack.
    StackUnderflow,
    /// A key index outside `0..16`.
    InvalidKeypadIndex { index: usize },
}

} // verus!

use vstd::prelude::*;

verus! {

/// The fatal conditions of the machine; each stops execution at the point
/// where it occurs and leaves the machine state as it was before the failing step.
#[derive(Debug, Clone, Copy, PartialEq, Eq, Structural)]
pub enum Chip8Error {
    /// No handler matches the instruction; carries the raw 16-bit value.
    UnknownOpcode(u16),
    /// A call was made with all sixteen return slots in use.
    StackOverflow,
    /// A return was made with no return address on the stack.
    StackUnderflow,
    /// A program longer than the space from 0x200 to the end of memory.
    RomTooLarge,
    /// An access to an address outside 0x000..=0xFFF; carries the address.
    MemoryOutOfBounds(usize),
}

} // verus!

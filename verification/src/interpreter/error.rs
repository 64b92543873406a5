use vstd::prelude::*;

verus! {

/// Everything that can go wrong while loading a program or running a cycle.
///
/// Every error ends the call that raised it; the machine never retries.
#[derive(Clone, Copy, Debug, PartialEq, Eq, Structural)]
pub enum Chip8InterpreterError {
    /// The program does not fit between the load address and the end of memory.
    RomFileTooLarge,
    /// The opcode has no meaning; it is carried along for diagnostics.
    InvalidInstruction(u16),
    /// The program counter left no room for a two-byte fetch.
    ProgramCounterOutOfBounds(u16),
    /// A call was made with the call stack already full.
    CallStackDepthExceeded,
    /// A return was made with the call stack empty.
    CallStackEmpty,
    /// An instruction reached beyond the end of memory.
    MemoryAccessError,
    /// A key skip named a key outside `0x0..=0xF`.
    InvalidInputKey(u8),
    /// A key wait was executed directly while no key was held.
    ExpectingInputKey,
}

} // verus!

use vstd::prelude::*;

verus! {

/// Failures of jumps, calls and returns.
#[derive(Debug, Clone, Copy, PartialEq, Eq, Structural)]
pub enum SubroutineError {
    /// The target lies outside `MIN_ADDRESS..=MAX_ADDRESS`.
    InvalidAddress(u16),
    /// A call was made while the stack already held `STACK_CAPACITY` entries.
    StackOverflow,
    /// A return was made while the stack was empty.
    StackUnderflow,
}

/// Failures of instructions that name a register.
#[derive(Debug, Clone, Copy, PartialEq, Eq, Structural)]
pub enum RegisterError {
    /// The index is not below `REGISTER_COUNT`.
    InvalidRegister(usize),
}

/// Failures while loading a program.
#[derive(Debug, Clone, Copy, PartialEq, Eq, Structural)]
pub enum RomError {
    /// The program could not be read by the host.
    ReadError,
    /// The program does not fit between `ROM_OFFSET` and the end of memory.
    ExceedsMemory,
}

/// Failures reported by one fetch-decode-execute cycle.
#[derive(Debug, Clone, Copy, PartialEq, Eq, Structural)]
pub enum Chip8Error {
    /// A jump targeted an address outside `MIN_ADDRESS..=MAX_ADDRESS`.
    InvalidJump(u16),
    /// The two bytes at the program counter do not both lie in memory.
    PcOutOfBounds(u16),
    Subroutine(SubroutineError),
    Register(RegisterError),
}

} // verus!

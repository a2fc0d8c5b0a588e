//! The core of an interpreter for an 8-bit virtual machine: memory with a
//! built-in font, sixteen registers, an index register, a bounded call
//! stack and a 64x32 monochrome display, driven one instruction per call to
//! `Chip8::cycle`.

pub mod constants;
pub mod errors;
pub mod low_level_operations;
pub mod stack;
pub mod instruction;
pub mod screen;
pub mod semantics;
pub mod chip8;

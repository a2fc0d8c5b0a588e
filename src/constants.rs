use vstd::prelude::*;

verus! {

/// Lowest address a jump or a call may target.
pub const MIN_ADDRESS: u16 = 0x001;

/// Highest address a jump or a call may target.
pub const MAX_ADDRESS: u16 = 0xFFF;

/// Number of addressable bytes.
pub const MEMORY_SIZE: usize = 0x1000;

/// Address of the first byte of the built-in hexadecimal font.
pub const FONT_OFFSET: u16 = 0x050;

/// Number of bytes in the built-in font (16 glyphs of 5 rows).
pub const FONT_SIZE: usize = 80;

/// Address at which programs are loaded and execution starts.
pub const ROM_OFFSET: u16 = 0x200;

/// Display width in pixels.
pub const WIDTH: usize = 64;

/// Display height in pixels.
pub const HEIGHT: usize = 32;

/// Number of general-purpose registers V0..VF.
pub const REGISTER_COUNT: usize = 16;

/// Register overwritten with carry, borrow and collision flags.
pub const FLAG_REGISTER: usize = 0xF;

/// Maximum depth of the call stack.
pub const STACK_CAPACITY: usize = 16;

/// Number of keys on the keypad.
pub const KEY_COUNT: usize = 16;

} // verus!

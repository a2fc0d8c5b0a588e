use vstd::prelude::*;

use crate::low_level_operations::nibble;

verus! {

/// One decoded operation, with its operands.
#[derive(Debug, Clone, Copy, PartialEq, Eq, Structural)]
pub enum Instruction {
    ClearScreen,
    FillScreen,
    Jump { addr: u16 },
    CallSubroutine { addr: u16 },
    ReturnSubroutine,
    SetRegister { register: usize, value: u8 },
    Add { register: usize, value: u8 },
    SetI { value: u16 },
    DisplayDraw { register_x: usize, register_y: usize, n: u8 },
    BinaryOrVX { register_x: usize, register_y: usize },
    BinaryAndVX { register_x: usize, register_y: usize },
    BinaryXorVX { register_x: usize, register_y: usize },
    AddVX { register_x: usize, register_y: usize },
    SubstractVXVY { register_x: usize, register_y: usize },
    SubstractVYVX { register_x: usize, register_y: usize },
    ShiftRight { register_x: usize, register_y: usize },
    ShiftLeft { register_x: usize, register_y: usize },
    Nop,
    SkipIfEqual { register_x: usize, value: u8 },
    SkipIfNotEqual { register_x: usize, value: u8 },
    SkipIfRegistersEqual { register_x: usize, register_y: usize },
    SkipIfRegistersNotEqual { register_x: usize, register_y: usize },
    AddI { register_x: usize },
    SkipIfKeyPressed { keycode: u8 },
    SkipIfKeyNotPressed { keycode: u8 },
}

/// The operation that the 16-bit instruction word `word` encodes.
///
/// The top nibble selects the family; the families 0x0, 0x5, 0x8, 0x9, 0xE
/// and 0xF are told apart further by the low nibble or the low byte. Every
/// encoding that is not recognised is a `Nop`.
pub open spec fn decode_spec(word: u16) -> Instruction {
    let family = nibble(word, 1);
    let x = nibble(word, 2) as usize;
    let y = nibble(word, 3) as usize;
    let low = nibble(word, 4);
    let addr = (word % 0x1000) as u16;
    let byte = (word % 0x100) as u8;
    if family == 0x0 {
        if word == 0x00E0 {
            Instruction::ClearScreen
        } else if word == 0x00EE {
            Instruction::ReturnSubroutine
        } else {
            Instruction::Nop
        }
    } else if family == 0x1 {
        Instruction::Jump { addr }
    } else if family == 0x2 {
        Instruction::CallSubroutine { addr }
    } else if family == 0x3 {
        Instruction::SkipIfEqual { register_x: x, value: byte }
    } else if family == 0x4 {
        Instruction::SkipIfNotEqual { register_x: x, value: byte }
    } else if family == 0x5 && low == 0x0 {
        Instruction::SkipIfRegistersEqual { register_x: x, register_y: y }
    } else if family == 0x6 {
        Instruction::SetRegister { register: x, value: byte }
    } else if family == 0x7 {
        Instruction::Add { register: x, value: byte }
    } else if family == 0x8 {
        if low == 0x1 {
            Instruction::BinaryOrVX { register_x: x, register_y: y }
        } else if low == 0x2 {
            Instruction::BinaryAndVX { register_x: x, register_y: y }
        } else if low == 0x3 {
            Instruction::BinaryXorVX { register_x: x, register_y: y }
        } else if low == 0x4 {
            Instruction::AddVX { register_x: x, register_y: y }
        } else if low == 0x5 {
            Instruction::SubstractVXVY { register_x: x, register_y: y }
        } else if low == 0x6 {
            Instruction::ShiftRight { register_x: x, register_y: y }
        } else if low == 0x7 {
            Instruction::SubstractVYVX { register_x: x, register_y: y }
        } else if low == 0xE {
            Instruction::ShiftLeft { register_x: x, register_y: y }
        } else {
            Instruction::Nop
        }
    } else if family == 0x9 && low == 0x0 {
        Instruction::SkipIfRegistersNotEqual { register_x: x, register_y: y }
    } else if family == 0xA {
        Instruction::SetI { value: addr }
    } else if family == 0xD {
        Instruction::DisplayDraw { register_x: x, register_y: y, n: low }
    } else if family == 0xE && low == 0xE {
        Instruction::SkipIfKeyPressed { keycode: x as u8 }
    } else if family == 0xE && low == 0x1 {
        Instruction::SkipIfKeyNotPressed { keycode: x as u8 }
    } else if family == 0xF && byte == 0x1E {
        Instruction::AddI { register_x: x }
    } else {
        Instruction::Nop
    }
}

} // verus!

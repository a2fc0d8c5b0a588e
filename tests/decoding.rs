use octorust::chip8::Chip8;
use octorust::instruction::Instruction;
use octorust::low_level_operations::get_nibble;

#[test]
fn nibble_out_of_range_is_zero() {
    assert_eq!(get_nibble(0xFFFF, 0), 0);
    assert_eq!(get_nibble(0xFFFF, 5), 0);
    assert_eq!(get_nibble(0xABCD, 1), 0xA);
    assert_eq!(get_nibble(0xABCD, 4), 0xD);
}

#[test]
fn decode_is_total() {
    let chip8 = Chip8::new();
    let mut nops = 0u32;
    for word in 0..=u16::MAX {
        if chip8.decode(word) == Instruction::Nop {
            nops += 1;
        }
    }
    assert!(nops > 0);
}

#[test]
fn decode_families() {
    let c = Chip8::new();
    assert_eq!(c.decode(0x00E0), Instruction::ClearScreen);
    assert_eq!(c.decode(0x00EE), Instruction::ReturnSubroutine);
    assert_eq!(c.decode(0x0123), Instruction::Nop);
    assert_eq!(c.decode(0x1ABC), Instruction::Jump { addr: 0xABC });
    assert_eq!(c.decode(0x2ABC), Instruction::CallSubroutine { addr: 0xABC });
    assert_eq!(c.decode(0x3A42), Instruction::SkipIfEqual { register_x: 0xA, value: 0x42 });
    assert_eq!(c.decode(0x4A42), Instruction::SkipIfNotEqual { register_x: 0xA, value: 0x42 });
    assert_eq!(
        c.decode(0x5AB0),
        Instruction::SkipIfRegistersEqual { register_x: 0xA, register_y: 0xB }
    );
    assert_eq!(c.decode(0x5AB1), Instruction::Nop);
    assert_eq!(c.decode(0x6123), Instruction::SetRegister { register: 1, value: 0x23 });
    assert_eq!(c.decode(0x7F0A), Instruction::Add { register: 0xF, value: 0x0A });
    assert_eq!(c.decode(0x8120), Instruction::Nop);
    assert_eq!(c.decode(0x8121), Instruction::BinaryOrVX { register_x: 1, register_y: 2 });
    assert_eq!(c.decode(0x8122), Instruction::BinaryAndVX { register_x: 1, register_y: 2 });
    assert_eq!(c.decode(0x8123), Instruction::BinaryXorVX { register_x: 1, register_y: 2 });
    assert_eq!(c.decode(0x8124), Instruction::AddVX { register_x: 1, register_y: 2 });
    assert_eq!(c.decode(0x8125), Instruction::SubstractVXVY { register_x: 1, register_y: 2 });
    assert_eq!(c.decode(0x8126), Instruction::ShiftRight { register_x: 1, register_y: 2 });
    assert_eq!(c.decode(0x8127), Instruction::SubstractVYVX { register_x: 1, register_y: 2 });
    assert_eq!(c.decode(0x812E), Instruction::ShiftLeft { register_x: 1, register_y: 2 });
    assert_eq!(c.decode(0x812F), Instruction::Nop);
    assert_eq!(
        c.decode(0x9AB0),
        Instruction::SkipIfRegistersNotEqual { register_x: 0xA, register_y: 0xB }
    );
    assert_eq!(c.decode(0x9AB3), Instruction::Nop);
    assert_eq!(c.decode(0xA123), Instruction::SetI { value: 0x123 });
    assert_eq!(c.decode(0xB123), Instruction::Nop);
    assert_eq!(c.decode(0xC123), Instruction::Nop);
    assert_eq!(c.decode(0xD125), Instruction::DisplayDraw { register_x: 1, register_y: 2, n: 5 });
    assert_eq!(c.decode(0xE59E), Instruction::SkipIfKeyPressed { keycode: 5 });
    assert_eq!(c.decode(0xE5A1), Instruction::SkipIfKeyNotPressed { keycode: 5 });
    assert_eq!(c.decode(0xE5A2), Instruction::Nop);
    assert_eq!(c.decode(0xF31E), Instruction::AddI { register_x: 3 });
    assert_eq!(c.decode(0xF307), Instruction::Nop);
}

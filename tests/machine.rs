use octorust::chip8::Chip8;
use octorust::constants::{FONT_OFFSET, HEIGHT, MEMORY_SIZE, ROM_OFFSET, WIDTH};
use octorust::errors::{Chip8Error, RegisterError, RomError, SubroutineError};
use octorust::instruction::Instruction;
use octorust::stack::Stack;

fn run(chip8: &mut Chip8, instructions: &[Instruction]) {
    for &ins in instructions {
        assert_eq!(chip8.execute(ins), Ok(()));
    }
}

fn all_pixels(chip8: &Chip8, lit: bool) -> bool {
    chip8.pixel_array.iter().all(|row| row.iter().all(|&p| p == lit))
}

#[test]
fn new_machine_holds_font_and_starts_at_rom_offset() {
    let c = Chip8::new();
    assert_eq!(c.pc(), ROM_OFFSET);
    assert_eq!(c.index(), 0);
    assert_eq!(c.registers(), [0; 16]);
    assert_eq!(c.stack_len(), 0);
    assert!(all_pixels(&c, false));
    let f = FONT_OFFSET as usize;
    assert_eq!(c.memory_at(f), Some(0xF0));
    assert_eq!(c.memory_at(f + 5), Some(0x20));
    assert_eq!(c.memory_at(f + 79), Some(0x80));
    assert_eq!(c.memory_at(f - 1), Some(0));
    assert_eq!(c.memory_at(f + 80), Some(0));
    assert_eq!(c.memory_at(MEMORY_SIZE), None);
}

#[test]
fn load_rom_copies_bytes_at_rom_offset() {
    let mut c = Chip8::new();
    assert_eq!(c.load_rom(&[0xAB, 0xCD]), Ok(()));
    assert_eq!(c.memory_at(0x200), Some(0xAB));
    assert_eq!(c.memory_at(0x201), Some(0xCD));
    assert_eq!(c.memory_at(0x202), Some(0));
}

#[test]
fn load_rom_largest_fits_and_one_more_is_rejected() {
    let mut c = Chip8::new();
    let largest = vec![7u8; MEMORY_SIZE - ROM_OFFSET as usize];
    assert_eq!(c.load_rom(&largest), Ok(()));
    assert_eq!(c.memory_at(MEMORY_SIZE - 1), Some(7));
    let mut d = Chip8::new();
    let too_big = vec![7u8; MEMORY_SIZE - ROM_OFFSET as usize + 1];
    assert_eq!(d.load_rom(&too_big), Err(RomError::ExceedsMemory));
    assert_eq!(d.memory_at(0x200), Some(0));
}

#[test]
fn read_memory_address_is_big_endian() {
    let mut memory = [0u8; 4096];
    memory[0x300] = 0x12;
    memory[0x301] = 0x34;
    assert_eq!(Chip8::read_memory_address(memory, 0x300), 0x1234);
}

#[test]
fn program_sets_register_then_jumps() {
    let mut c = Chip8::new();
    c.load_rom(&[0x61, 0x23, 0x12, 0x0A]).unwrap();
    assert_eq!(c.cycle(), Ok(()));
    assert_eq!(c.cycle(), Ok(()));
    assert_eq!(c.registers()[1], 0x23);
    assert_eq!(c.pc(), 0x20A);
}

#[test]
fn program_calls_and_returns() {
    let mut c = Chip8::new();
    c.load_rom(&[0x22, 0x04, 0x00, 0x00, 0x00, 0xEE]).unwrap();
    assert_eq!(c.cycle(), Ok(()));
    assert_eq!(c.pc(), 0x204);
    assert_eq!(c.stack_len(), 1);
    assert_eq!(c.cycle(), Ok(()));
    assert_eq!(c.pc(), 0x202);
    assert_eq!(c.stack_len(), 0);
}

#[test]
fn fetch_advances_pc_by_two() {
    let mut c = Chip8::new();
    c.load_rom(&[0xA1, 0x23]).unwrap();
    assert_eq!(c.fetch(), Ok(0xA123));
    assert_eq!(c.pc(), 0x202);
}

#[test]
fn fetch_past_memory_end_is_reported() {
    let mut c = Chip8::new();
    run(&mut c, &[Instruction::Jump { addr: 0xFFF }]);
    assert_eq!(c.cycle(), Err(Chip8Error::PcOutOfBounds(0xFFF)));
    assert_eq!(c.pc(), 0xFFF);
}

#[test]
fn failing_instruction_leaves_pc_past_it() {
    let mut c = Chip8::new();
    c.load_rom(&[0x00, 0xEE]).unwrap();
    assert_eq!(
        c.cycle(),
        Err(Chip8Error::Subroutine(SubroutineError::StackUnderflow))
    );
    assert_eq!(c.pc(), 0x202);
}

#[test]
fn call_then_return_restores_pc_and_depth() {
    let mut c = Chip8::new();
    run(&mut c, &[Instruction::CallSubroutine { addr: 0x300 }]);
    let pc = c.pc();
    let depth = c.stack_len();
    run(
        &mut c,
        &[Instruction::CallSubroutine { addr: 0x456 }, Instruction::ReturnSubroutine],
    );
    assert_eq!(c.pc(), pc);
    assert_eq!(c.stack_len(), depth);
}

#[test]
fn seventeenth_call_overflows() {
    let mut c = Chip8::new();
    for k in 0..16u16 {
        assert_eq!(c.execute(Instruction::CallSubroutine { addr: 0x300 + 2 * k }), Ok(()));
    }
    assert_eq!(c.stack_len(), 16);
    let pc = c.pc();
    assert_eq!(
        c.execute(Instruction::CallSubroutine { addr: 0x400 }),
        Err(Chip8Error::Subroutine(SubroutineError::StackOverflow))
    );
    assert_eq!(c.stack_len(), 16);
    assert_eq!(c.pc(), pc);
}

#[test]
fn call_to_invalid_address_changes_nothing() {
    let mut pc: u16 = 0x222;
    let mut stack: Stack<u16> = Stack::new();
    assert_eq!(
        Chip8::call_subroutine(&mut pc, &mut stack, 0),
        Err(SubroutineError::InvalidAddress(0))
    );
    assert_eq!(pc, 0x222);
    assert_eq!(stack.len(), 0);
}

#[test]
fn return_on_empty_stack_underflows() {
    let mut pc: u16 = 0x222;
    let mut stack: Stack<u16> = Stack::new();
    assert_eq!(
        Chip8::return_subroutine(&mut pc, &mut stack),
        Err(SubroutineError::StackUnderflow)
    );
    assert_eq!(pc, 0x222);
}

#[test]
fn jump_bounds() {
    let mut pc: u16 = 0x200;
    assert_eq!(Chip8::jump(&mut pc, 0x000), Err(Chip8Error::InvalidJump(0x000)));
    assert_eq!(Chip8::jump(&mut pc, 0x1000), Err(Chip8Error::InvalidJump(0x1000)));
    assert_eq!(pc, 0x200);
    assert_eq!(Chip8::jump(&mut pc, 0x001), Ok(()));
    assert_eq!(pc, 0x001);
    assert_eq!(Chip8::jump(&mut pc, 0xFFF), Ok(()));
    assert_eq!(pc, 0xFFF);
    assert!(Chip8::is_valid_address(0x001));
    assert!(!Chip8::is_valid_address(0x000));
}

#[test]
fn register_bounds() {
    assert!(Chip8::is_valid_register(15));
    assert!(!Chip8::is_valid_register(16));
    assert!(!Chip8::is_valid_register(17));
    let mut v = [0u8; 16];
    assert_eq!(Chip8::set(&mut v, 15, 9), Ok(()));
    assert_eq!(v[15], 9);
    assert_eq!(Chip8::set(&mut v, 16, 9), Err(RegisterError::InvalidRegister(16)));
    assert_eq!(Chip8::add(&mut v, 17, 1), Err(RegisterError::InvalidRegister(17)));
    let mut c = Chip8::new();
    assert_eq!(
        c.execute(Instruction::BinaryOrVX { register_x: 1, register_y: 16 }),
        Err(Chip8Error::Register(RegisterError::InvalidRegister(16)))
    );
    assert_eq!(
        c.execute(Instruction::SkipIfEqual { register_x: 20, value: 0 }),
        Err(Chip8Error::Register(RegisterError::InvalidRegister(20)))
    );
    assert_eq!(
        c.execute(Instruction::DisplayDraw { register_x: 30, register_y: 40, n: 1 }),
        Err(Chip8Error::Register(RegisterError::InvalidRegister(30)))
    );
}

#[test]
fn add_immediate_wraps_without_flag() {
    let mut c = Chip8::new();
    run(
        &mut c,
        &[
            Instruction::SetRegister { register: 3, value: 250 },
            Instruction::Add { register: 3, value: 10 },
        ],
    );
    assert_eq!(c.registers()[3], 4);
    assert_eq!(c.registers()[0xF], 0);
}

#[test]
fn add_registers_sets_carry() {
    let mut c = Chip8::new();
    run(
        &mut c,
        &[
            Instruction::SetRegister { register: 3, value: 250 },
            Instruction::SetRegister { register: 4, value: 10 },
            Instruction::AddVX { register_x: 3, register_y: 4 },
        ],
    );
    assert_eq!(c.registers()[3], 4);
    assert_eq!(c.registers()[0xF], 1);
    run(&mut c, &[Instruction::AddVX { register_x: 3, register_y: 4 }]);
    assert_eq!(c.registers()[3], 14);
    assert_eq!(c.registers()[0xF], 0);
}

#[test]
fn bitwise_operations() {
    let mut c = Chip8::new();
    run(
        &mut c,
        &[
            Instruction::SetRegister { register: 1, value: 0b1100 },
            Instruction::SetRegister { register: 2, value: 0b1010 },
            Instruction::SetRegister { register: 3, value: 0b1100 },
            Instruction::SetRegister { register: 4, value: 0b1100 },
            Instruction::BinaryOrVX { register_x: 1, register_y: 2 },
            Instruction::BinaryAndVX { register_x: 3, register_y: 2 },
            Instruction::BinaryXorVX { register_x: 4, register_y: 2 },
        ],
    );
    assert_eq!(c.registers()[1], 0b1110);
    assert_eq!(c.registers()[3], 0b1000);
    assert_eq!(c.registers()[4], 0b0110);
}

#[test]
fn subtractions_set_not_borrow() {
    let mut c = Chip8::new();
    run(
        &mut c,
        &[
            Instruction::SetRegister { register: 1, value: 10 },
            Instruction::SetRegister { register: 2, value: 3 },
            Instruction::SubstractVXVY { register_x: 1, register_y: 2 },
        ],
    );
    assert_eq!(c.registers()[1], 7);
    assert_eq!(c.registers()[0xF], 1);
    run(&mut c, &[Instruction::SubstractVXVY { register_x: 2, register_y: 1 }]);
    assert_eq!(c.registers()[2], 252);
    assert_eq!(c.registers()[0xF], 0);
    run(
        &mut c,
        &[
            Instruction::SetRegister { register: 5, value: 3 },
            Instruction::SetRegister { register: 6, value: 10 },
            Instruction::SubstractVYVX { register_x: 5, register_y: 6 },
        ],
    );
    assert_eq!(c.registers()[5], 7);
    assert_eq!(c.registers()[0xF], 1);
    run(&mut c, &[Instruction::SubstractVYVX { register_x: 6, register_y: 2 }]);
    assert_eq!(c.registers()[6], 242);
    assert_eq!(c.registers()[0xF], 1);
    run(
        &mut c,
        &[
            Instruction::SetRegister { register: 7, value: 9 },
            Instruction::SetRegister { register: 8, value: 9 },
            Instruction::SubstractVYVX { register_x: 7, register_y: 8 },
        ],
    );
    assert_eq!(c.registers()[7], 0);
    assert_eq!(c.registers()[0xF], 0);
}

#[test]
fn shifts_copy_vy_and_flag_the_lost_bit() {
    let mut c = Chip8::new();
    run(
        &mut c,
        &[
            Instruction::SetRegister { register: 2, value: 0b1000_0011 },
            Instruction::ShiftRight { register_x: 1, register_y: 2 },
        ],
    );
    assert_eq!(c.registers()[1], 0b0100_0001);
    assert_eq!(c.registers()[0xF], 1);
    run(&mut c, &[Instruction::ShiftLeft { register_x: 3, register_y: 2 }]);
    assert_eq!(c.registers()[3], 0b0000_0110);
    assert_eq!(c.registers()[0xF], 1);
    run(&mut c, &[Instruction::ShiftLeft { register_x: 4, register_y: 1 }]);
    assert_eq!(c.registers()[4], 0b1000_0010);
    assert_eq!(c.registers()[0xF], 0);
    assert_eq!(c.registers()[2], 0b1000_0011);
}

#[test]
fn flag_wins_when_vf_is_the_destination() {
    let mut c = Chip8::new();
    run(
        &mut c,
        &[
            Instruction::SetRegister { register: 0xF, value: 200 },
            Instruction::SetRegister { register: 1, value: 100 },
            Instruction::AddVX { register_x: 0xF, register_y: 1 },
        ],
    );
    assert_eq!(c.registers()[0xF], 1);
}

#[test]
fn skips_move_pc_by_two() {
    let mut c = Chip8::new();
    run(&mut c, &[Instruction::SetRegister { register: 1, value: 5 }]);
    run(&mut c, &[Instruction::SkipIfEqual { register_x: 1, value: 5 }]);
    assert_eq!(c.pc(), 0x202);
    run(&mut c, &[Instruction::SkipIfEqual { register_x: 1, value: 6 }]);
    assert_eq!(c.pc(), 0x202);
    run(&mut c, &[Instruction::SkipIfNotEqual { register_x: 1, value: 6 }]);
    assert_eq!(c.pc(), 0x204);
    run(&mut c, &[Instruction::SkipIfNotEqual { register_x: 1, value: 5 }]);
    assert_eq!(c.pc(), 0x204);
    run(&mut c, &[Instruction::SkipIfRegistersEqual { register_x: 2, register_y: 3 }]);
    assert_eq!(c.pc(), 0x206);
    run(&mut c, &[Instruction::SkipIfRegistersEqual { register_x: 1, register_y: 3 }]);
    assert_eq!(c.pc(), 0x206);
    run(&mut c, &[Instruction::SkipIfRegistersNotEqual { register_x: 1, register_y: 3 }]);
    assert_eq!(c.pc(), 0x208);
    run(&mut c, &[Instruction::SkipIfRegistersNotEqual { register_x: 2, register_y: 3 }]);
    assert_eq!(c.pc(), 0x208);
}

#[test]
fn skip_wraps_at_sixteen_bits() {
    let mut c = Chip8::new();
    run(&mut c, &[Instruction::Jump { addr: 0xFFF }]);
    for _ in 0..32760 {
        run(&mut c, &[Instruction::SkipIfEqual { register_x: 0, value: 0 }]);
    }
    assert_eq!(c.pc(), 0xFFF_u16.wrapping_add(2 * 32760));
}

#[test]
fn keys_come_from_the_host() {
    let mut c = Chip8::new();
    run(&mut c, &[Instruction::SkipIfKeyPressed { keycode: 4 }]);
    assert_eq!(c.pc(), 0x200);
    run(&mut c, &[Instruction::SkipIfKeyNotPressed { keycode: 4 }]);
    assert_eq!(c.pc(), 0x202);
    let mut keys = [false; 16];
    keys[4] = true;
    c.set_keys(keys);
    run(&mut c, &[Instruction::SkipIfKeyPressed { keycode: 4 }]);
    assert_eq!(c.pc(), 0x204);
    run(&mut c, &[Instruction::SkipIfKeyNotPressed { keycode: 4 }]);
    assert_eq!(c.pc(), 0x204);
    run(&mut c, &[Instruction::SkipIfKeyPressed { keycode: 200 }]);
    assert_eq!(c.pc(), 0x204);
}

#[test]
fn index_set_and_add_wraps() {
    let mut c = Chip8::new();
    run(
        &mut c,
        &[
            Instruction::SetI { value: 0xFFFF },
            Instruction::SetRegister { register: 2, value: 3 },
            Instruction::AddI { register_x: 2 },
        ],
    );
    assert_eq!(c.index(), 2);
    assert_eq!(c.registers()[0xF], 0);
}

#[test]
fn nop_changes_nothing() {
    let mut c = Chip8::new();
    run(&mut c, &[Instruction::Nop]);
    assert_eq!(c.pc(), 0x200);
    assert_eq!(c.registers(), [0; 16]);
}

#[test]
fn clear_after_fill_blanks_every_pixel() {
    let mut c = Chip8::new();
    run(&mut c, &[Instruction::FillScreen]);
    assert!(all_pixels(&c, true));
    run(&mut c, &[Instruction::ClearScreen]);
    assert!(all_pixels(&c, false));
    let mut pixels = [[true; WIDTH]; HEIGHT];
    Chip8::clear_screen(&mut pixels);
    assert!(pixels.iter().all(|row| row.iter().all(|&p| !p)));
    Chip8::fill_screen(&mut pixels);
    assert!(pixels.iter().all(|row| row.iter().all(|&p| p)));
}

#[test]
fn drawing_twice_erases_and_collides() {
    let mut c = Chip8::new();
    run(
        &mut c,
        &[
            Instruction::SetI { value: FONT_OFFSET },
            Instruction::SetRegister { register: 1, value: 10 },
            Instruction::SetRegister { register: 2, value: 3 },
            Instruction::DisplayDraw { register_x: 1, register_y: 2, n: 5 },
        ],
    );
    assert_eq!(c.registers()[0xF], 0);
    // glyph "0": F0 90 90 90 F0
    assert!(c.pixel_array[3][10] && c.pixel_array[3][13] && !c.pixel_array[3][14]);
    assert!(c.pixel_array[4][10] && !c.pixel_array[4][11] && c.pixel_array[4][13]);
    assert!(c.pixel_array[7][11]);
    let lit = c.pixel_array.iter().flatten().filter(|&&p| p).count();
    assert_eq!(lit, 14);
    run(&mut c, &[Instruction::DisplayDraw { register_x: 1, register_y: 2, n: 5 }]);
    assert_eq!(c.registers()[0xF], 1);
    assert!(all_pixels(&c, false));
}

#[test]
fn drawing_clips_at_edges() {
    let mut c = Chip8::new();
    c.load_rom(&[0xFF, 0xFF]).unwrap();
    run(
        &mut c,
        &[
            Instruction::SetI { value: ROM_OFFSET },
            Instruction::SetRegister { register: 1, value: 60 + 64 },
            Instruction::SetRegister { register: 2, value: 31 + 32 },
            Instruction::DisplayDraw { register_x: 1, register_y: 2, n: 2 },
        ],
    );
    assert_eq!(c.registers()[0xF], 0);
    assert!(c.pixel_array[31][60] && c.pixel_array[31][63]);
    assert!(!c.pixel_array[31][0] && !c.pixel_array[0][60]);
    let lit = c.pixel_array.iter().flatten().filter(|&&p| p).count();
    assert_eq!(lit, 4);
}

#[test]
fn sprite_read_wraps_at_memory_end() {
    let mut c = Chip8::new();
    let mut rom = vec![0u8; MEMORY_SIZE - ROM_OFFSET as usize];
    rom[MEMORY_SIZE - ROM_OFFSET as usize - 1] = 0x80;
    c.load_rom(&rom).unwrap();
    run(
        &mut c,
        &[
            Instruction::SetI { value: 0xFFF },
            Instruction::DisplayDraw { register_x: 0, register_y: 0, n: 2 },
        ],
    );
    // row 0 comes from address 0xFFF, row 1 from address 0x000
    assert!(c.pixel_array[0][0]);
    assert!(!c.pixel_array[1][0]);
    let lit = c.pixel_array.iter().flatten().filter(|&&p| p).count();
    assert_eq!(lit, 1);
}

#[test]
fn stack_holds_sixteen_values_in_lifo_order() {
    let mut s: Stack<u16> = Stack::new();
    for k in 0..16u16 {
        assert!(s.push(k).is_ok());
    }
    assert!(s.push(99).is_err());
    assert_eq!(s.len(), 16);
    for k in (0..16u16).rev() {
        assert_eq!(s.pop(), Some(k));
    }
    assert_eq!(s.pop(), None);
    assert_eq!(s.len(), 0);
}

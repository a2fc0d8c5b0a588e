use vstd::prelude::*;

use crate::constants::{
    FLAG_REGISTER, FONT_OFFSET, FONT_SIZE, HEIGHT, KEY_COUNT, MAX_ADDRESS, MEMORY_SIZE,
    MIN_ADDRESS, REGISTER_COUNT, ROM_OFFSET, WIDTH,
};
use crate::errors::{Chip8Error, RegisterError, RomError, SubroutineError};
use crate::instruction::{decode_spec, Instruction};
use crate::low_level_operations::{get_nibble, nibble};
use crate::semantics::{
    call_result, can_fetch, cycle_spec, execute_spec, lemma_execute_preserves_wf, follows, font_glyphs, initial_state, is_valid_address,
    is_valid_register, key_pressed, overwrite, pair_error, return_result, skip_if, with_flag,
    sprite_rows, word_at, ChipState,
};
use crate::screen::{collides, draw_sprite, in_sprite, uniform_screen};
use crate::stack::Stack;

verus! {

/// A machine: display, memory, registers, call stack and keypad state.
pub struct Chip8 {
    /// The display, row by row; `true` is a lit pixel.
    pub pixel_array: [[bool; WIDTH]; HEIGHT],
    memory: [u8; MEMORY_SIZE],
    index: u16,
    pc: u16,
    stack: Stack<u16>,
    v: [u8; REGISTER_COUNT],
    keys: [bool; KEY_COUNT],
}

impl View for Chip8 {
    type V = ChipState;

    closed spec fn view(&self) -> ChipState {
        ChipState {
            pixels: Seq::new(HEIGHT as nat, |r: int| self.pixel_array[r]@),
            memory: self.memory@,
            index: self.index,
            pc: self.pc,
            stack: self.stack@,
            v: self.v@,
            keys: self.keys@,
        }
    }
}

impl Chip8 {
    /// The call stack is within its bound (the other sizes are fixed by the
    /// field types).
    pub open spec fn wf(&self) -> bool {
        self@.wf()
    }

    /// A machine with the font loaded, everything else zeroed, and the
    /// program counter at `ROM_OFFSET`.
    pub fn new() -> (chip8: Self)
        ensures
            chip8.wf(),
            chip8@ == initial_state(),
    {
        let mut chip8 = Chip8 {
            pixel_array: [[false; WIDTH]; HEIGHT],
            memory: [0; MEMORY_SIZE],
            index: 0,
            pc: ROM_OFFSET,
            stack: Stack::new(),
            v: [0; REGISTER_COUNT],
            keys: [false; KEY_COUNT],
        };
        proof {
            let init = initial_state();
            assert(chip8@.pixels =~~= init.pixels);
            assert(chip8@.memory =~= Seq::new(MEMORY_SIZE as nat, |i: int| 0u8));
            assert(chip8@.v =~= init.v);
            assert(chip8@.keys =~= init.keys);
        }
        chip8.load_font();
        proof {
            assert(chip8@.memory =~= initial_state().memory);
        }
        chip8
    }

    /// Writes `bytes` into memory from address `at` on.
    fn copy_into_memory(&mut self, at: usize, bytes: &[u8])
        requires
            at + bytes@.len() <= MEMORY_SIZE,
        ensures
            final(self)@ == (ChipState { memory: overwrite(old(self)@.memory, at as int, bytes@), ..old(self)@ }),
    {
        let mut i: usize = 0;
        while i < bytes.len()
            invariant
                at + bytes@.len() <= MEMORY_SIZE,
                i <= bytes@.len(),
                self.pixel_array == old(self).pixel_array,
                self.index == old(self).index,
                self.pc == old(self).pc,
                self.stack == old(self).stack,
                self.v == old(self).v,
                self.keys == old(self).keys,
                forall|j: int|
                    0 <= j < MEMORY_SIZE ==> #[trigger] self.memory@[j] == if at <= j < at + i {
                        bytes@[j - at]
                    } else {
                        old(self).memory@[j]
                    },
            decreases bytes@.len() - i,
        {
            self.memory[at + i] = bytes[i];
            i += 1;
        }
        proof {
            assert(self@.memory =~= overwrite(old(self)@.memory, at as int, bytes@));
        }
    }

    fn load_font(&mut self)
        ensures
            final(self)@ == (ChipState {
                memory: overwrite(old(self)@.memory, FONT_OFFSET as int, font_glyphs()),
                ..old(self)@
            }),
    {
        let font: [u8; FONT_SIZE] = [
            0xF0, 0x90, 0x90, 0x90, 0xF0, // 0
            0x20, 0x60, 0x20, 0x20, 0x70, // 1
            0xF0, 0x10, 0xF0, 0x80, 0xF0, // 2
            0xF0, 0x10, 0xF0, 0x10, 0xF0, // 3
            0x90, 0x90, 0xF0, 0x10, 0x10, // 4
            0xF0, 0x80, 0xF0, 0x10, 0xF0, // 5
            0xF0, 0x80, 0xF0, 0x90, 0xF0, // 6
            0xF0, 0x10, 0x20, 0x40, 0x40, // 7
            0xF0, 0x90, 0xF0, 0x90, 0xF0, // 8
            0xF0, 0x90, 0xF0, 0x10, 0xF0, // 9
            0xF0, 0x90, 0xF0, 0x90, 0x90, // A
            0xE0, 0x90, 0xE0, 0x90, 0xE0, // B
            0xF0, 0x80, 0x80, 0x80, 0xF0, // C
            0xE0, 0x90, 0x90, 0x90, 0xE0, // D
            0xF0, 0x80, 0xF0, 0x80, 0xF0, // E
            0xF0, 0x80, 0xF0, 0x80, 0x80, // F
        ];
        assert(font@ =~= font_glyphs());
        self.copy_into_memory(FONT_OFFSET as usize, font.as_slice());
    }

    /// Copies the program `rom` into memory at `ROM_OFFSET`, or reports that
    /// it does not fit and changes nothing.
    pub fn load_rom(&mut self, rom: &[u8]) -> (r: Result<(), RomError>)
        ensures
            ROM_OFFSET + rom@.len() > MEMORY_SIZE ==> r == Err::<(), RomError>(
                RomError::ExceedsMemory,
            ) && final(self)@ == old(self)@,
            ROM_OFFSET + rom@.len() <= MEMORY_SIZE ==> r is Ok && final(self)@ == (ChipState {
                memory: overwrite(old(self)@.memory, ROM_OFFSET as int, rom@),
                ..old(self)@
            }),
    {
        if rom.len() > MEMORY_SIZE - ROM_OFFSET as usize {
            return Err(RomError::ExceedsMemory);
        }
        self.copy_into_memory(ROM_OFFSET as usize, rom);
        Ok(())
    }

    /// The big-endian instruction word stored at `addr` and `addr + 1`.
    pub fn read_memory_address(memory: [u8; MEMORY_SIZE], addr: u16) -> (r: u16)
        requires
            addr + 1 < MEMORY_SIZE,
        ensures
            r == word_at(memory@, addr as int),
    {
        let bigger_byte: u8 = memory[addr as usize];
        let smaller_byte: u8 = memory[addr as usize + 1];
        proof {
            assert(((bigger_byte as u16) << 8u16) | (smaller_byte as u16) == bigger_byte * 0x100
                + smaller_byte) by (bit_vector);
        }
        ((bigger_byte as u16) << 8) | (smaller_byte as u16)
    }

    /// The operation that `instruction` encodes; unrecognised encodings are
    /// `Nop`.
    pub fn decode(&self, instruction: u16) -> (r: Instruction)
        ensures
            r == decode_spec(instruction),
    {
        let first_nibble = get_nibble(instruction, 1);
        let register_x = get_nibble(instruction, 2) as usize;
        let register_y = get_nibble(instruction, 3) as usize;
        let last_nibble = get_nibble(instruction, 4);
        let addr: u16 = instruction % 0x1000;
        let value: u8 = (instruction % 0x0100) as u8;

        match first_nibble {
            0x0 => match instruction {
                0x00E0 => Instruction::ClearScreen,
                0x00EE => Instruction::ReturnSubroutine,
                _ => Instruction::Nop,
            },
            0x1 => Instruction::Jump { addr },
            0x2 => Instruction::CallSubroutine { addr },
            0x3 => Instruction::SkipIfEqual { register_x, value },
            0x4 => Instruction::SkipIfNotEqual { register_x, value },
            0x5 => {
                if last_nibble == 0 {
                    Instruction::SkipIfRegistersEqual { register_x, register_y }
                } else {
                    Instruction::Nop
                }
            },
            0x6 => Instruction::SetRegister { register: register_x, value },
            0x7 => Instruction::Add { register: register_x, value },
            0x8 => match last_nibble {
                0x1 => Instruction::BinaryOrVX { register_x, register_y },
                0x2 => Instruction::BinaryAndVX { register_x, register_y },
                0x3 => Instruction::BinaryXorVX { register_x, register_y },
                0x4 => Instruction::AddVX { register_x, register_y },
                0x5 => Instruction::SubstractVXVY { register_x, register_y },
                0x6 => Instruction::ShiftRight { register_x, register_y },
                0x7 => Instruction::SubstractVYVX { register_x, register_y },
                0xE => Instruction::ShiftLeft { register_x, register_y },
                _ => Instruction::Nop,
            },
            0x9 => {
                if last_nibble == 0 {
                    Instruction::SkipIfRegistersNotEqual { register_x, register_y }
                } else {
                    Instruction::Nop
                }
            },
            0xA => Instruction::SetI { value: addr },
            0xD => Instruction::DisplayDraw { register_x, register_y, n: last_nibble },
            0xE => match last_nibble {
                0xE => Instruction::SkipIfKeyPressed { keycode: register_x as u8 },
                0x1 => Instruction::SkipIfKeyNotPressed { keycode: register_x as u8 },
                _ => Instruction::Nop,
            },
            0xF => match value {
                0x1E => Instruction::AddI { register_x },
                _ => Instruction::Nop,
            },
            _ => Instruction::Nop,
        }
    }

    /// The 4-bit field number `nibble_number` (1 to 4, most significant
    /// first) of `addr`; 0 for any other field number.
    pub fn get_nibble(addr: u16, nibble_number: u8) -> (r: u8)
        ensures
            r == nibble(addr, nibble_number as int),
    {
        get_nibble(addr, nibble_number)
    }

    /// Turns every pixel off.
    pub fn clear_screen(pixel_array: &mut [[bool; WIDTH]; HEIGHT])
        ensures
            forall|r: int, c: int| 0 <= r < HEIGHT && 0 <= c < WIDTH ==> !final(pixel_array)[r][c],
    {
        *pixel_array = [[false; WIDTH]; HEIGHT];
    }

    /// Turns every pixel on.
    pub fn fill_screen(pixel_array: &mut [[bool; WIDTH]; HEIGHT])
        ensures
            forall|r: int, c: int| 0 <= r < HEIGHT && 0 <= c < WIDTH ==> final(pixel_array)[r][c],
    {
        *pixel_array = [[true; WIDTH]; HEIGHT];
    }

    pub fn is_valid_address(addr: u16) -> (r: bool)
        ensures
            r == is_valid_address(addr),
    {
        MIN_ADDRESS <= addr && addr <= MAX_ADDRESS
    }

    /// Points the program counter at `addr`, or reports an address outside
    /// `MIN_ADDRESS..=MAX_ADDRESS` and leaves it alone.
    pub fn jump(pc: &mut u16, addr: u16) -> (r: Result<(), Chip8Error>)
        ensures
            is_valid_address(addr) ==> r is Ok && *final(pc) == addr,
            !is_valid_address(addr) ==> r == Err::<(), Chip8Error>(Chip8Error::InvalidJump(addr))
                && *final(pc) == *old(pc),
    {
        if Self::is_valid_address(addr) {
            *pc = addr;
            Ok(())
        } else {
            Err(Chip8Error::InvalidJump(addr))
        }
    }

    /// Pushes the program counter and jumps to `addr`; on an invalid address
    /// or a full stack it reports the error and changes nothing.
    pub fn call_subroutine(pc: &mut u16, stack: &mut Stack<u16>, addr: u16) -> (r: Result<
        (),
        SubroutineError,
    >)
        ensures
            match call_result(*old(pc), old(stack)@, addr) {
                Ok((new_pc, new_stack)) => r is Ok && *final(pc) == new_pc && final(stack)@
                    == new_stack,
                Err(e) => r == Err::<(), SubroutineError>(e) && *final(pc) == *old(pc)
                    && final(stack)@ == old(stack)@,
            },
    {
        if !Self::is_valid_address(addr) {
            return Err(SubroutineError::InvalidAddress(addr));
        }
        if stack.push(*pc).is_err() {
            return Err(SubroutineError::StackOverflow);
        }
        *pc = addr;
        Ok(())
    }

    /// Pops the return address into the program counter; on an empty stack
    /// it reports the underflow and changes nothing.
    pub fn return_subroutine(pc: &mut u16, stack: &mut Stack<u16>) -> (r: Result<
        (),
        SubroutineError,
    >)
        ensures
            match return_result(old(stack)@) {
                Ok((new_pc, new_stack)) => r is Ok && *final(pc) == new_pc && final(stack)@
                    == new_stack,
                Err(e) => r == Err::<(), SubroutineError>(e) && *final(pc) == *old(pc)
                    && final(stack)@ == old(stack)@,
            },
    {
        match stack.pop() {
            Some(return_addr) => {
                *pc = return_addr;
                Ok(())
            },
            None => Err(SubroutineError::StackUnderflow),
        }
    }

    pub fn is_valid_register(register: usize) -> (r: bool)
        ensures
            r == is_valid_register(register),
    {
        register < REGISTER_COUNT
    }

    /// Stores `value` in register `register`.
    pub fn set(v: &mut [u8; REGISTER_COUNT], register: usize, value: u8) -> (r: Result<
        (),
        RegisterError,
    >)
        ensures
            is_valid_register(register) ==> r is Ok && final(v)@ == old(v)@.update(
                register as int,
                value,
            ),
            !is_valid_register(register) ==> r == Err::<(), RegisterError>(
                RegisterError::InvalidRegister(register),
            ) && final(v)@ == old(v)@,
    {
        if !Self::is_valid_register(register) {
            return Err(RegisterError::InvalidRegister(register));
        }
        v[register] = value;
        Ok(())
    }

    /// Adds `addend` to register `register`, wrapping modulo 256; no flag is
    /// touched.
    pub fn add(v: &mut [u8; REGISTER_COUNT], register: usize, addend: u8) -> (r: Result<
        (),
        RegisterError,
    >)
        ensures
            is_valid_register(register) ==> r is Ok && final(v)@ == old(v)@.update(
                register as int,
                ((old(v)@[register as int] + addend) % 0x100) as u8,
            ),
            !is_valid_register(register) ==> r == Err::<(), RegisterError>(
                RegisterError::InvalidRegister(register),
            ) && final(v)@ == old(v)@,
    {
        if !Self::is_valid_register(register) {
            return Err(RegisterError::InvalidRegister(register));
        }
        v[register] = v[register].wrapping_add(addend);
        Ok(())
    }

    /// Stores `value` in the index register.
    pub fn set_i(i: &mut u16, value: u16)
        ensures
            *final(i) == value,
    {
        *i = value;
    }

    /// Reads the instruction at the program counter and moves the counter
    /// past it.
    pub fn fetch(&mut self) -> (r: Result<u16, Chip8Error>)
        ensures
            !can_fetch(old(self)@.pc) ==> r == Err::<u16, Chip8Error>(
                Chip8Error::PcOutOfBounds(old(self)@.pc),
            ) && final(self)@ == old(self)@,
            can_fetch(old(self)@.pc) ==> r == Ok::<u16, Chip8Error>(
                word_at(old(self)@.memory, old(self)@.pc as int),
            ) && final(self)@ == (ChipState { pc: (old(self)@.pc + 2) as u16, ..old(self)@ }),
    {
        if self.pc as usize + 1 >= MEMORY_SIZE {
            return Err(Chip8Error::PcOutOfBounds(self.pc));
        }
        let instruction = Chip8::read_memory_address(self.memory, self.pc);
        self.pc += 0x02;
        Ok(instruction)
    }
}

impl Chip8 {
    /// Succeeds when both register operands are valid, else reports the
    /// first invalid one.
    fn check_registers(register_x: usize, register_y: usize) -> (r: Result<(), Chip8Error>)
        ensures
            is_valid_register(register_x) && is_valid_register(register_y) ==> r is Ok,
            !(is_valid_register(register_x) && is_valid_register(register_y)) ==> r == Err::<
                (),
                Chip8Error,
            >(pair_error(register_x, register_y)),
    {
        if !Self::is_valid_register(register_x) {
            return Err(Chip8Error::Register(RegisterError::InvalidRegister(register_x)));
        }
        if !Self::is_valid_register(register_y) {
            return Err(Chip8Error::Register(RegisterError::InvalidRegister(register_y)));
        }
        Ok(())
    }

    /// Stores `value` in register `register_x`, then `carry` in VF.
    fn set_with_flag(&mut self, register_x: usize, value: u8, carry: bool)
        requires
            is_valid_register(register_x),
        ensures
            final(self)@ == with_flag(old(self)@, register_x, value, carry),
    {
        self.v[register_x] = value;
        self.v[FLAG_REGISTER] = if carry {
            1
        } else {
            0
        };
    }

    fn binary_or_vx(&mut self, register_x: usize, register_y: usize) -> (r: Result<(), Chip8Error>)
        ensures
            follows(
                old(self)@,
                final(self)@,
                r,
                execute_spec(old(self)@, Instruction::BinaryOrVX { register_x, register_y }),
            ),
    {
        Self::check_registers(register_x, register_y)?;
        self.v[register_x] = self.v[register_x] | self.v[register_y];
        Ok(())
    }

    fn binary_and_vx(&mut self, register_x: usize, register_y: usize) -> (r: Result<(), Chip8Error>)
        ensures
            follows(
                old(self)@,
                final(self)@,
                r,
                execute_spec(old(self)@, Instruction::BinaryAndVX { register_x, register_y }),
            ),
    {
        Self::check_registers(register_x, register_y)?;
        self.v[register_x] = self.v[register_x] & self.v[register_y];
        Ok(())
    }

    fn binary_xor_vx(&mut self, register_x: usize, register_y: usize) -> (r: Result<(), Chip8Error>)
        ensures
            follows(
                old(self)@,
                final(self)@,
                r,
                execute_spec(old(self)@, Instruction::BinaryXorVX { register_x, register_y }),
            ),
    {
        Self::check_registers(register_x, register_y)?;
        self.v[register_x] = self.v[register_x] ^ self.v[register_y];
        Ok(())
    }

    /// VX += VY; VF is 1 when the sum overflowed 8 bits, else 0.
    fn add_vx(&mut self, register_x: usize, register_y: usize) -> (r: Result<(), Chip8Error>)
        ensures
            follows(
                old(self)@,
                final(self)@,
                r,
                execute_spec(old(self)@, Instruction::AddVX { register_x, register_y }),
            ),
    {
        Self::check_registers(register_x, register_y)?;
        let a = self.v[register_x];
        let b = self.v[register_y];
        let carry = a as u16 + b as u16 > 0xFF;
        self.set_with_flag(register_x, a.wrapping_add(b), carry);
        Ok(())
    }

    /// VX -= VY; VF is 1 when VX was greater than VY, else 0.
    fn substract_vx_vy(&mut self, register_x: usize, register_y: usize) -> (r: Result<
        (),
        Chip8Error,
    >)
        ensures
            follows(
                old(self)@,
                final(self)@,
                r,
                execute_spec(old(self)@, Instruction::SubstractVXVY { register_x, register_y }),
            ),
    {
        Self::check_registers(register_x, register_y)?;
        let a = self.v[register_x];
        let b = self.v[register_y];
        self.set_with_flag(register_x, a.wrapping_sub(b), a > b);
        Ok(())
    }

    /// VX = VY - VX; VF is 1 when VY was greater than VX, else 0.
    fn substract_vy_vx(&mut self, register_x: usize, register_y: usize) -> (r: Result<
        (),
        Chip8Error,
    >)
        ensures
            follows(
                old(self)@,
                final(self)@,
                r,
                execute_spec(old(self)@, Instruction::SubstractVYVX { register_x, register_y }),
            ),
    {
        Self::check_registers(register_x, register_y)?;
        let a = self.v[register_x];
        let b = self.v[register_y];
        self.set_with_flag(register_x, b.wrapping_sub(a), b > a);
        Ok(())
    }

    /// VX = VY >> 1; VF is the bit shifted out.
    fn shift_right(&mut self, register_x: usize, register_y: usize) -> (r: Result<(), Chip8Error>)
        ensures
            follows(
                old(self)@,
                final(self)@,
                r,
                execute_spec(old(self)@, Instruction::ShiftRight { register_x, register_y }),
            ),
    {
        Self::check_registers(register_x, register_y)?;
        let b = self.v[register_y];
        proof {
            assert(b >> 1u8 == b / 2) by (bit_vector);
            assert((b & 1u8 == 1u8) == (b % 2 == 1)) by (bit_vector);
        }
        self.set_with_flag(register_x, b >> 1, b & 0b0000_0001 == 0b0000_0001);
        Ok(())
    }

    /// VX = VY << 1; VF is the bit shifted out.
    fn shift_left(&mut self, register_x: usize, register_y: usize) -> (r: Result<(), Chip8Error>)
        ensures
            follows(
                old(self)@,
                final(self)@,
                r,
                execute_spec(old(self)@, Instruction::ShiftLeft { register_x, register_y }),
            ),
    {
        Self::check_registers(register_x, register_y)?;
        let b = self.v[register_y];
        proof {
            assert(b << 1u8 == ((b * 2) % 0x100) as u8) by (bit_vector);
            assert((b & 0x80u8 == 0x80u8) == (b >= 0x80)) by (bit_vector);
        }
        self.set_with_flag(register_x, b << 1, b & 0b1000_0000 == 0b1000_0000);
        Ok(())
    }

    /// Moves the program counter past the next instruction when `cond` holds.
    fn skip_when(&mut self, cond: bool)
        ensures
            final(self)@ == skip_if(old(self)@, cond),
    {
        if cond {
            self.pc = self.pc.wrapping_add(0x02);
        }
    }

    fn skip_if_equal(&mut self, register_x: usize, value: u8) -> (r: Result<(), Chip8Error>)
        ensures
            follows(
                old(self)@,
                final(self)@,
                r,
                execute_spec(old(self)@, Instruction::SkipIfEqual { register_x, value }),
            ),
    {
        if !Self::is_valid_register(register_x) {
            return Err(Chip8Error::Register(RegisterError::InvalidRegister(register_x)));
        }
        let cond = self.v[register_x] == value;
        self.skip_when(cond);
        Ok(())
    }

    fn skip_if_not_equal(&mut self, register_x: usize, value: u8) -> (r: Result<(), Chip8Error>)
        ensures
            follows(
                old(self)@,
                final(self)@,
                r,
                execute_spec(old(self)@, Instruction::SkipIfNotEqual { register_x, value }),
            ),
    {
        if !Self::is_valid_register(register_x) {
            return Err(Chip8Error::Register(RegisterError::InvalidRegister(register_x)));
        }
        let cond = self.v[register_x] != value;
        self.skip_when(cond);
        Ok(())
    }

    fn skip_if_registers_equal(&mut self, register_x: usize, register_y: usize) -> (r: Result<
        (),
        Chip8Error,
    >)
        ensures
            follows(
                old(self)@,
                final(self)@,
                r,
                execute_spec(
                    old(self)@,
                    Instruction::SkipIfRegistersEqual { register_x, register_y },
                ),
            ),
    {
        Self::check_registers(register_x, register_y)?;
        let cond = self.v[register_x] == self.v[register_y];
        self.skip_when(cond);
        Ok(())
    }

    fn skip_if_registers_not_equal(&mut self, register_x: usize, register_y: usize) -> (r: Result<
        (),
        Chip8Error,
    >)
        ensures
            follows(
                old(self)@,
                final(self)@,
                r,
                execute_spec(
                    old(self)@,
                    Instruction::SkipIfRegistersNotEqual { register_x, register_y },
                ),
            ),
    {
        Self::check_registers(register_x, register_y)?;
        let cond = self.v[register_x] != self.v[register_y];
        self.skip_when(cond);
        Ok(())
    }

    /// I += VX, wrapping at 16 bits; no flag is touched.
    fn add_i(&mut self, register_x: usize) -> (r: Result<(), Chip8Error>)
        ensures
            follows(
                old(self)@,
                final(self)@,
                r,
                execute_spec(old(self)@, Instruction::AddI { register_x }),
            ),
    {
        if !Self::is_valid_register(register_x) {
            return Err(Chip8Error::Register(RegisterError::InvalidRegister(register_x)));
        }
        self.index = self.index.wrapping_add(self.v[register_x] as u16);
        Ok(())
    }

    fn is_key_pressed(&self, keycode: u8) -> (r: bool)
        ensures
            r == key_pressed(self@.keys, keycode),
    {
        (keycode as usize) < KEY_COUNT && self.keys[keycode as usize]
    }

    fn skip_if_key_pressed(&mut self, keycode: u8)
        ensures
            final(self)@ == skip_if(old(self)@, key_pressed(old(self)@.keys, keycode)),
    {
        let cond = self.is_key_pressed(keycode);
        self.skip_when(cond);
    }

    fn skip_if_key_not_pressed(&mut self, keycode: u8)
        ensures
            final(self)@ == skip_if(old(self)@, !key_pressed(old(self)@.keys, keycode)),
    {
        let cond = !self.is_key_pressed(keycode);
        self.skip_when(cond);
    }
}

/// Whether the sprite cell over row `r`, column `c` has been handled once
/// `row` whole sprite rows and `col` columns of the next one have been.
spec fn drawn(x: int, y: int, row: int, col: int, r: int, c: int) -> bool {
    r - y < row || (r - y == row && c - x < col)
}

/// The cell at row `r`, column `c` once the sprite has been drawn up to
/// `(row, col)`.
spec fn partial_cell(
    grid: Seq<Seq<bool>>,
    sprite: Seq<u8>,
    x: int,
    y: int,
    row: int,
    col: int,
    r: int,
    c: int,
) -> bool {
    grid[r][c] != (in_sprite(sprite, x, y, r, c) && drawn(x, y, row, col, r, c))
}

/// Whether a collision has occurred once the sprite has been drawn up to
/// `(row, col)`.
spec fn partial_collision(
    grid: Seq<Seq<bool>>,
    sprite: Seq<u8>,
    x: int,
    y: int,
    row: int,
    col: int,
) -> bool {
    exists|r: int, c: int|
        0 <= r < HEIGHT && 0 <= c < WIDTH && #[trigger] in_sprite(sprite, x, y, r, c) && drawn(
            x,
            y,
            row,
            col,
            r,
            c,
        ) && grid[r][c]
}

impl Chip8 {
    /// XORs the `n`-row sprite at I onto the display at (VX mod `WIDTH`,
    /// VY mod `HEIGHT`), clipping at the edges; VF becomes 1 when a lit
    /// pixel was turned off, else 0.
    fn display(&mut self, register_x: usize, register_y: usize, n: u8) -> (r: Result<
        (),
        Chip8Error,
    >)
        ensures
            follows(
                old(self)@,
                final(self)@,
                r,
                execute_spec(old(self)@, Instruction::DisplayDraw { register_x, register_y, n }),
            ),
    {
        Self::check_registers(register_x, register_y)?;
        let x: usize = (self.v[register_x] as usize) % WIDTH;
        let y: usize = (self.v[register_y] as usize) % HEIGHT;
        let ghost grid = self@.pixels;
        let ghost sprite = sprite_rows(self@.memory, self.index, n);
        let mut collision: bool = false;
        let mut row: u8 = 0;
        while row < n
            invariant
                row <= n,
                x < WIDTH,
                y < HEIGHT,
                grid == old(self)@.pixels,
                sprite == sprite_rows(old(self)@.memory, old(self).index, n),
                self.memory == old(self).memory,
                self.index == old(self).index,
                self.pc == old(self).pc,
                self.stack == old(self).stack,
                self.v == old(self).v,
                self.keys == old(self).keys,
                forall|r: int, c: int|
                    0 <= r < HEIGHT && 0 <= c < WIDTH ==> #[trigger] self.pixel_array[r][c]
                        == partial_cell(grid, sprite, x as int, y as int, row as int, 0, r, c),
                collision == partial_collision(grid, sprite, x as int, y as int, row as int, 0),
            decreases n - row,
        {
            let sprite_row: u8 = self.memory[(self.index as usize + row as usize) % MEMORY_SIZE];
            let py: usize = y + row as usize;
            let mut col: u8 = 0;
            while col < 8
                invariant
                    row < n,
                    col <= 8,
                    x < WIDTH,
                    y < HEIGHT,
                    py == y + row,
                    sprite_row == sprite[row as int],
                    grid == old(self)@.pixels,
                    sprite == sprite_rows(old(self)@.memory, old(self).index, n),
                    self.memory == old(self).memory,
                    self.index == old(self).index,
                    self.pc == old(self).pc,
                    self.stack == old(self).stack,
                    self.v == old(self).v,
                    self.keys == old(self).keys,
                    forall|r: int, c: int|
                        0 <= r < HEIGHT && 0 <= c < WIDTH ==> #[trigger] self.pixel_array[r][c]
                            == partial_cell(
                            grid,
                            sprite,
                            x as int,
                            y as int,
                            row as int,
                            col as int,
                            r,
                            c,
                        ),
                    collision == partial_collision(
                        grid,
                        sprite,
                        x as int,
                        y as int,
                        row as int,
                        col as int,
                    ),
                decreases 8 - col,
            {
                let px: usize = x + col as usize;
                let ghost was_collision = collision;
                let ghost before = self.pixel_array;
                if py < HEIGHT && px < WIDTH {
                    let bit: bool = (sprite_row >> (7 - col)) & 1 == 1;
                    if bit {
                        let lit: bool = self.pixel_array[py][px];
                        if lit {
                            collision = true;
                        }
                        self.pixel_array[py][px] = !lit;
                    }
                }
                proof {
                    let (xi, yi, ri, ci) = (x as int, y as int, row as int, col as int);
                    assert forall|r: int, c: int| 0 <= r < HEIGHT && 0 <= c < WIDTH implies #[trigger] self.pixel_array[r][c]
                        == partial_cell(grid, sprite, xi, yi, ri, ci + 1, r, c) by {
                        assert(before[r][c] == partial_cell(grid, sprite, xi, yi, ri, ci, r, c));
                    }
                    if collision {
                        if !was_collision {
                            assert(in_sprite(sprite, xi, yi, py as int, px as int));
                        }
                    }
                    if partial_collision(grid, sprite, xi, yi, ri, ci + 1) {
                        let (r, c) = choose|r: int, c: int|
                            0 <= r < HEIGHT && 0 <= c < WIDTH && #[trigger] in_sprite(sprite, xi, yi, r, c)
                                && drawn(xi, yi, ri, ci + 1, r, c) && grid[r][c];
                        if !(r == py && c == px) {
                            assert(partial_collision(grid, sprite, xi, yi, ri, ci));
                        } else {
                            assert(before[r][c] == partial_cell(grid, sprite, xi, yi, ri, ci, r, c));
                        }
                    }
                }
                col += 1;
            }
            proof {
                let (xi, yi, ri) = (x as int, y as int, row as int);
                assert forall|r: int, c: int| 0 <= r < HEIGHT && 0 <= c < WIDTH implies #[trigger] self.pixel_array[r][c]
                    == partial_cell(grid, sprite, xi, yi, ri + 1, 0, r, c) by {
                    assert(self.pixel_array[r][c] == partial_cell(grid, sprite, xi, yi, ri, 8, r, c));
                }
                if partial_collision(grid, sprite, xi, yi, ri + 1, 0) {
                    let (r, c) = choose|r: int, c: int|
                        0 <= r < HEIGHT && 0 <= c < WIDTH && #[trigger] in_sprite(sprite, xi, yi, r, c)
                            && drawn(xi, yi, ri + 1, 0, r, c) && grid[r][c];
                    assert(drawn(xi, yi, ri, 8, r, c));
                }
                if partial_collision(grid, sprite, xi, yi, ri, 8) {
                    let (r, c) = choose|r: int, c: int|
                        0 <= r < HEIGHT && 0 <= c < WIDTH && #[trigger] in_sprite(sprite, xi, yi, r, c)
                            && drawn(xi, yi, ri, 8, r, c) && grid[r][c];
                    assert(drawn(xi, yi, ri + 1, 0, r, c));
                }
            }
            row += 1;
        }
        self.v[FLAG_REGISTER] = if collision {
            1
        } else {
            0
        };
        proof {
            let (xi, yi, ni) = (x as int, y as int, n as int);
            let drawn_grid = draw_sprite(grid, sprite, xi, yi);
            assert forall|r: int| 0 <= r < HEIGHT implies #[trigger] self@.pixels[r] =~= drawn_grid[r] by {
                assert forall|c: int| 0 <= c < WIDTH implies self@.pixels[r][c] == drawn_grid[r][c] by {
                    assert(self.pixel_array[r][c] == partial_cell(grid, sprite, xi, yi, ni, 0, r, c));
                }
            }
            assert(self@.pixels =~= drawn_grid);
            if collision {
                let (r, c) = choose|r: int, c: int|
                    0 <= r < HEIGHT && 0 <= c < WIDTH && #[trigger] in_sprite(sprite, xi, yi, r, c)
                        && drawn(xi, yi, ni, 0, r, c) && grid[r][c];
                assert(collides(grid, sprite, xi, yi));
            }
            if collides(grid, sprite, xi, yi) {
                let (r, c) = choose|r: int, c: int|
                    0 <= r < grid.len() && 0 <= c < grid[r].len() && #[trigger] in_sprite(sprite, xi, yi, r, c)
                        && grid[r][c];
                assert(partial_collision(grid, sprite, xi, yi, ni, 0));
            }
        }
        Ok(())
    }
}

impl Chip8 {
    /// Applies `instruction` to the machine. On an error nothing changes and
    /// the error is returned for the caller to act on.
    pub fn execute(&mut self, instruction: Instruction) -> (r: Result<(), Chip8Error>)
        requires
            old(self).wf(),
        ensures
            final(self).wf(),
            follows(old(self)@, final(self)@, r, execute_spec(old(self)@, instruction)),
    {
        proof {
            lemma_execute_preserves_wf(self@, instruction);
        }
        match instruction {
            Instruction::ClearScreen => {
                Chip8::clear_screen(&mut self.pixel_array);
                proof {
                    assert(self@.pixels =~~= uniform_screen(false));
                }
                Ok(())
            },
            Instruction::FillScreen => {
                Chip8::fill_screen(&mut self.pixel_array);
                proof {
                    assert(self@.pixels =~~= uniform_screen(true));
                }
                Ok(())
            },
            Instruction::Jump { addr } => Chip8::jump(&mut self.pc, addr),
            Instruction::CallSubroutine { addr } => {
                match Chip8::call_subroutine(&mut self.pc, &mut self.stack, addr) {
                    Ok(()) => Ok(()),
                    Err(e) => Err(Chip8Error::Subroutine(e)),
                }
            },
            Instruction::ReturnSubroutine => {
                match Chip8::return_subroutine(&mut self.pc, &mut self.stack) {
                    Ok(()) => Ok(()),
                    Err(e) => Err(Chip8Error::Subroutine(e)),
                }
            },
            Instruction::SetRegister { register, value } => {
                match Chip8::set(&mut self.v, register, value) {
                    Ok(()) => Ok(()),
                    Err(e) => Err(Chip8Error::Register(e)),
                }
            },
            Instruction::Add { register, value } => {
                match Chip8::add(&mut self.v, register, value) {
                    Ok(()) => Ok(()),
                    Err(e) => Err(Chip8Error::Register(e)),
                }
            },
            Instruction::SetI { value } => {
                Chip8::set_i(&mut self.index, value);
                Ok(())
            },
            Instruction::DisplayDraw { register_x, register_y, n } => self.display(
                register_x,
                register_y,
                n,
            ),
            Instruction::BinaryOrVX { register_x, register_y } => self.binary_or_vx(
                register_x,
                register_y,
            ),
            Instruction::BinaryAndVX { register_x, register_y } => self.binary_and_vx(
                register_x,
                register_y,
            ),
            Instruction::BinaryXorVX { register_x, register_y } => self.binary_xor_vx(
                register_x,
                register_y,
            ),
            Instruction::AddVX { register_x, register_y } => self.add_vx(register_x, register_y),
            Instruction::SubstractVXVY { register_x, register_y } => self.substract_vx_vy(
                register_x,
                register_y,
            ),
            Instruction::SubstractVYVX { register_x, register_y } => self.substract_vy_vx(
                register_x,
                register_y,
            ),
            Instruction::ShiftRight { register_x, register_y } => self.shift_right(
                register_x,
                register_y,
            ),
            Instruction::ShiftLeft { register_x, register_y } => self.shift_left(
                register_x,
                register_y,
            ),
            Instruction::Nop => Ok(()),
            Instruction::SkipIfEqual { register_x, value } => self.skip_if_equal(register_x, value),
            Instruction::SkipIfNotEqual { register_x, value } => self.skip_if_not_equal(
                register_x,
                value,
            ),
            Instruction::SkipIfRegistersEqual { register_x, register_y } => {
                self.skip_if_registers_equal(register_x, register_y)
            },
            Instruction::SkipIfRegistersNotEqual { register_x, register_y } => {
                self.skip_if_registers_not_equal(register_x, register_y)
            },
            Instruction::AddI { register_x } => self.add_i(register_x),
            Instruction::SkipIfKeyPressed { keycode } => {
                self.skip_if_key_pressed(keycode);
                Ok(())
            },
            Instruction::SkipIfKeyNotPressed { keycode } => {
                self.skip_if_key_not_pressed(keycode);
                Ok(())
            },
        }
    }

    /// Runs one fetch-decode-execute cycle. The program counter moves past
    /// the fetched instruction before it executes, and stays there when the
    /// instruction reports an error.
    pub fn cycle(&mut self) -> (r: Result<(), Chip8Error>)
        requires
            old(self).wf(),
        ensures
            final(self).wf(),
            final(self)@ == cycle_spec(old(self)@).0,
            match cycle_spec(old(self)@).1 {
                Ok(_) => r is Ok,
                Err(e) => r == Err::<(), Chip8Error>(e),
            },
    {
        let instruction = match self.fetch() {
            Ok(word) => word,
            Err(e) => return Err(e),
        };
        let decoded = self.decode(instruction);
        self.execute(decoded)
    }

    pub fn pc(&self) -> (r: u16)
        ensures
            r == self@.pc,
    {
        self.pc
    }

    pub fn index(&self) -> (r: u16)
        ensures
            r == self@.index,
    {
        self.index
    }

    /// The registers V0..VF.
    pub fn registers(&self) -> (r: [u8; REGISTER_COUNT])
        ensures
            r@ == self@.v,
    {
        self.v
    }

    /// The number of return addresses on the call stack.
    pub fn stack_len(&self) -> (r: usize)
        ensures
            r == self@.stack.len(),
    {
        self.stack.len()
    }

    /// The byte at `addr`, or `None` past the end of memory.
    pub fn memory_at(&self, addr: usize) -> (r: Option<u8>)
        ensures
            addr < MEMORY_SIZE ==> r == Some(self@.memory[addr as int]),
            addr >= MEMORY_SIZE ==> r is None,
    {
        if addr < MEMORY_SIZE {
            Some(self.memory[addr])
        } else {
            None
        }
    }

    /// Records which keys the host reports pressed.
    pub fn set_keys(&mut self, keys: [bool; KEY_COUNT])
        ensures
            final(self)@ == (ChipState { keys: keys@, ..old(self)@ }),
    {
        self.keys = keys;
    }
}

} // verus!

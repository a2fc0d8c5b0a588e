use vstd::prelude::*;

use crate::constants::{
    FLAG_REGISTER, FONT_OFFSET, HEIGHT, KEY_COUNT, MAX_ADDRESS, MEMORY_SIZE, MIN_ADDRESS,
    REGISTER_COUNT, ROM_OFFSET, STACK_CAPACITY, WIDTH,
};
use crate::errors::{Chip8Error, RegisterError, SubroutineError};
use crate::instruction::{decode_spec, Instruction};
use crate::screen::{collides, draw_sprite, uniform_screen};

verus! {

/// The whole observable state of a machine.
pub struct ChipState {
    /// `HEIGHT` rows of `WIDTH` cells; `true` is a lit pixel.
    pub pixels: Seq<Seq<bool>>,
    /// `MEMORY_SIZE` bytes.
    pub memory: Seq<u8>,
    /// The index register I.
    pub index: u16,
    /// The program counter.
    pub pc: u16,
    /// Return addresses, oldest first.
    pub stack: Seq<u16>,
    /// The registers V0..VF.
    pub v: Seq<u8>,
    /// For each key of the keypad, whether the host reports it pressed.
    pub keys: Seq<bool>,
}

impl ChipState {
    /// Sizes fixed by the machine, and the stack bound.
    pub open spec fn wf(self) -> bool {
        &&& self.pixels.len() == HEIGHT
        &&& forall|r: int| 0 <= r < HEIGHT ==> (#[trigger] self.pixels[r]).len() == WIDTH
        &&& self.memory.len() == MEMORY_SIZE
        &&& self.stack.len() <= STACK_CAPACITY
        &&& self.v.len() == REGISTER_COUNT
        &&& self.keys.len() == KEY_COUNT
    }
}

pub open spec fn is_valid_address(addr: u16) -> bool {
    MIN_ADDRESS <= addr <= MAX_ADDRESS
}

pub open spec fn is_valid_register(register: usize) -> bool {
    register < REGISTER_COUNT
}

/// The address two bytes further on, wrapping at 16 bits.
pub open spec fn next_pc(pc: u16) -> u16 {
    ((pc + 2) % 0x10000) as u16
}

/// The big-endian word stored at `addr` and `addr + 1`.
pub open spec fn word_at(memory: Seq<u8>, addr: int) -> u16 {
    (memory[addr] * 0x100 + memory[addr + 1]) as u16
}

/// Program counter and stack after calling `addr` from `pc`.
pub open spec fn call_result(pc: u16, stack: Seq<u16>, addr: u16) -> Result<
    (u16, Seq<u16>),
    SubroutineError,
> {
    if !is_valid_address(addr) {
        Err(SubroutineError::InvalidAddress(addr))
    } else if stack.len() >= STACK_CAPACITY {
        Err(SubroutineError::StackOverflow)
    } else {
        Ok((addr, stack.push(pc)))
    }
}

/// Program counter and stack after returning from a subroutine.
pub open spec fn return_result(stack: Seq<u16>) -> Result<(u16, Seq<u16>), SubroutineError> {
    if stack.len() == 0 {
        Err(SubroutineError::StackUnderflow)
    } else {
        Ok((stack.last(), stack.drop_last()))
    }
}

/// The `n` sprite rows read from memory starting at `index`, wrapping at the
/// end of memory.
pub open spec fn sprite_rows(memory: Seq<u8>, index: u16, n: u8) -> Seq<u8> {
    Seq::new(n as nat, |k: int| memory[(index + k) % (MEMORY_SIZE as int)])
}

pub open spec fn key_pressed(keys: Seq<bool>, keycode: u8) -> bool {
    keycode < keys.len() && keys[keycode as int]
}

pub open spec fn flag(b: bool) -> u8 {
    if b {
        1
    } else {
        0
    }
}

/// `s` with register `register` set to `value`.
pub open spec fn with_register(s: ChipState, register: usize, value: u8) -> ChipState {
    ChipState { v: s.v.update(register as int, value), ..s }
}

/// `s` with register `register` set to `value`, then VF set to `carry`.
pub open spec fn with_flag(s: ChipState, register: usize, value: u8, carry: bool) -> ChipState {
    ChipState { v: s.v.update(register as int, value).update(FLAG_REGISTER as int, flag(carry)), ..s }
}

/// `s` with the next instruction skipped when `cond` holds.
pub open spec fn skip_if(s: ChipState, cond: bool) -> ChipState {
    if cond {
        ChipState { pc: next_pc(s.pc), ..s }
    } else {
        s
    }
}

pub open spec fn register_error(register: usize) -> Chip8Error {
    Chip8Error::Register(RegisterError::InvalidRegister(register))
}

/// The first of two register operands that is invalid.
pub open spec fn pair_error(x: usize, y: usize) -> Chip8Error {
    if !is_valid_register(x) {
        register_error(x)
    } else {
        register_error(y)
    }
}

/// The result of an instruction on registers `x` and `y`: `Ok(next)` when both
/// are valid, the first invalid one otherwise.
pub open spec fn on_pair(x: usize, y: usize, next: ChipState) -> Result<ChipState, Chip8Error> {
    if is_valid_register(x) && is_valid_register(y) {
        Ok(next)
    } else {
        Err(pair_error(x, y))
    }
}

/// The result of an instruction on register `x`.
pub open spec fn on_one(x: usize, next: ChipState) -> Result<ChipState, Chip8Error> {
    if is_valid_register(x) {
        Ok(next)
    } else {
        Err(register_error(x))
    }
}

/// The state after executing `ins` in state `s`, or the error it reports.
pub open spec fn execute_spec(s: ChipState, ins: Instruction) -> Result<ChipState, Chip8Error> {
    match ins {
        Instruction::ClearScreen => Ok(ChipState { pixels: uniform_screen(false), ..s }),
        Instruction::FillScreen => Ok(ChipState { pixels: uniform_screen(true), ..s }),
        Instruction::Jump { addr } => {
            if is_valid_address(addr) {
                Ok(ChipState { pc: addr, ..s })
            } else {
                Err(Chip8Error::InvalidJump(addr))
            }
        },
        Instruction::CallSubroutine { addr } => match call_result(s.pc, s.stack, addr) {
            Ok((pc, stack)) => Ok(ChipState { pc, stack, ..s }),
            Err(e) => Err(Chip8Error::Subroutine(e)),
        },
        Instruction::ReturnSubroutine => match return_result(s.stack) {
            Ok((pc, stack)) => Ok(ChipState { pc, stack, ..s }),
            Err(e) => Err(Chip8Error::Subroutine(e)),
        },
        Instruction::SetRegister { register, value } => on_one(
            register,
            with_register(s, register, value),
        ),
        Instruction::Add { register, value } => on_one(
            register,
            with_register(s, register, ((s.v[register as int] + value) % 0x100) as u8),
        ),
        Instruction::SetI { value } => Ok(ChipState { index: value, ..s }),
        Instruction::DisplayDraw { register_x, register_y, n } => {
            let x = s.v[register_x as int] as int % WIDTH as int;
            let y = s.v[register_y as int] as int % HEIGHT as int;
            let sprite = sprite_rows(s.memory, s.index, n);
            on_pair(
                register_x,
                register_y,
                ChipState {
                    pixels: draw_sprite(s.pixels, sprite, x, y),
                    v: s.v.update(FLAG_REGISTER as int, flag(collides(s.pixels, sprite, x, y))),
                    ..s
                },
            )
        },
        Instruction::BinaryOrVX { register_x, register_y } => on_pair(
            register_x,
            register_y,
            with_register(s, register_x, s.v[register_x as int] | s.v[register_y as int]),
        ),
        Instruction::BinaryAndVX { register_x, register_y } => on_pair(
            register_x,
            register_y,
            with_register(s, register_x, s.v[register_x as int] & s.v[register_y as int]),
        ),
        Instruction::BinaryXorVX { register_x, register_y } => on_pair(
            register_x,
            register_y,
            with_register(s, register_x, s.v[register_x as int] ^ s.v[register_y as int]),
        ),
        Instruction::AddVX { register_x, register_y } => {
            let sum = s.v[register_x as int] + s.v[register_y as int];
            on_pair(register_x, register_y, with_flag(s, register_x, (sum % 0x100) as u8, sum > 0xFF))
        },
        Instruction::SubstractVXVY { register_x, register_y } => {
            let a = s.v[register_x as int];
            let b = s.v[register_y as int];
            on_pair(register_x, register_y, with_flag(s, register_x, ((a - b + 0x100) % 0x100) as u8, a > b))
        },
        Instruction::SubstractVYVX { register_x, register_y } => {
            let a = s.v[register_x as int];
            let b = s.v[register_y as int];
            on_pair(register_x, register_y, with_flag(s, register_x, ((b - a + 0x100) % 0x100) as u8, b > a))
        },
        Instruction::ShiftRight { register_x, register_y } => {
            let b = s.v[register_y as int];
            on_pair(register_x, register_y, with_flag(s, register_x, (b / 2) as u8, b % 2 == 1))
        },
        Instruction::ShiftLeft { register_x, register_y } => {
            let b = s.v[register_y as int];
            on_pair(register_x, register_y, with_flag(s, register_x, ((b * 2) % 0x100) as u8, b >= 0x80))
        },
        Instruction::Nop => Ok(s),
        Instruction::SkipIfEqual { register_x, value } => on_one(
            register_x,
            skip_if(s, s.v[register_x as int] == value),
        ),
        Instruction::SkipIfNotEqual { register_x, value } => on_one(
            register_x,
            skip_if(s, s.v[register_x as int] != value),
        ),
        Instruction::SkipIfRegistersEqual { register_x, register_y } => on_pair(
            register_x,
            register_y,
            skip_if(s, s.v[register_x as int] == s.v[register_y as int]),
        ),
        Instruction::SkipIfRegistersNotEqual { register_x, register_y } => on_pair(
            register_x,
            register_y,
            skip_if(s, s.v[register_x as int] != s.v[register_y as int]),
        ),
        Instruction::AddI { register_x } => on_one(
            register_x,
            ChipState { index: ((s.index + s.v[register_x as int]) % 0x10000) as u16, ..s },
        ),
        Instruction::SkipIfKeyPressed { keycode } => Ok(skip_if(s, key_pressed(s.keys, keycode))),
        Instruction::SkipIfKeyNotPressed { keycode } => Ok(
            skip_if(s, !key_pressed(s.keys, keycode)),
        ),
    }
}

/// The hexadecimal digit glyphs 0 to F, five rows of one byte each.
pub open spec fn font_glyphs() -> Seq<u8> {
    seq![
        0xF0u8, 0x90, 0x90, 0x90, 0xF0,
        0x20, 0x60, 0x20, 0x20, 0x70,
        0xF0, 0x10, 0xF0, 0x80, 0xF0,
        0xF0, 0x10, 0xF0, 0x10, 0xF0,
        0x90, 0x90, 0xF0, 0x10, 0x10,
        0xF0, 0x80, 0xF0, 0x10, 0xF0,
        0xF0, 0x80, 0xF0, 0x90, 0xF0,
        0xF0, 0x10, 0x20, 0x40, 0x40,
        0xF0, 0x90, 0xF0, 0x90, 0xF0,
        0xF0, 0x90, 0xF0, 0x10, 0xF0,
        0xF0, 0x90, 0xF0, 0x90, 0x90,
        0xE0, 0x90, 0xE0, 0x90, 0xE0,
        0xF0, 0x80, 0x80, 0x80, 0xF0,
        0xE0, 0x90, 0x90, 0x90, 0xE0,
        0xF0, 0x80, 0xF0, 0x80, 0xF0,
        0xF0, 0x80, 0xF0, 0x80, 0x80,
    ]
}

/// `memory` with `bytes` written from address `at` on.
pub open spec fn overwrite(memory: Seq<u8>, at: int, bytes: Seq<u8>) -> Seq<u8> {
    Seq::new(
        memory.len(),
        |i: int|
            if at <= i < at + bytes.len() {
                bytes[i - at]
            } else {
                memory[i]
            },
    )
}

/// A freshly built machine: zeroed memory holding the font, blank display,
/// zeroed registers, empty stack, no key pressed, and the program counter at
/// the start of the program area.
pub open spec fn initial_state() -> ChipState {
    ChipState {
        pixels: uniform_screen(false),
        memory: overwrite(Seq::new(MEMORY_SIZE as nat, |i: int| 0u8), FONT_OFFSET as int, font_glyphs()),
        index: 0,
        pc: ROM_OFFSET,
        stack: Seq::empty(),
        v: Seq::new(REGISTER_COUNT as nat, |i: int| 0u8),
        keys: Seq::new(KEY_COUNT as nat, |i: int| false),
    }
}

/// `new` follows from `old` as `expected` says: on `Ok` the call succeeded
/// and reached that state; on `Err` it reported that error and changed
/// nothing.
pub open spec fn follows(
    old: ChipState,
    new: ChipState,
    r: Result<(), Chip8Error>,
    expected: Result<ChipState, Chip8Error>,
) -> bool {
    match expected {
        Ok(s) => r is Ok && new == s,
        Err(e) => r == Err::<(), Chip8Error>(e) && new == old,
    }
}

/// Every instruction keeps a well-formed state well-formed: the display,
/// memory, registers and keypad keep their sizes, and the call stack never
/// holds more than `STACK_CAPACITY` return addresses.
pub proof fn lemma_execute_preserves_wf(s: ChipState, ins: Instruction)
    requires
        s.wf(),
    ensures
        execute_spec(s, ins) is Ok ==> execute_spec(s, ins)->Ok_0.wf(),
{
    match ins {
        Instruction::DisplayDraw { register_x, register_y, n } => {
            let x = s.v[register_x as int] as int % WIDTH as int;
            let y = s.v[register_y as int] as int % HEIGHT as int;
            let sprite = sprite_rows(s.memory, s.index, n);
            let grid = draw_sprite(s.pixels, sprite, x, y);
            assert forall|r: int| 0 <= r < HEIGHT implies (#[trigger] grid[r]).len() == WIDTH by {
                assert(s.pixels[r].len() == WIDTH);
            }
        },
        _ => {},
    }
}

/// Calling a subroutine at a valid address and then returning restores the
/// whole state, program counter and call stack included, whatever the
/// program counter was, provided the stack had room for the call.
pub proof fn lemma_call_return_balance(s: ChipState, addr: u16)
    requires
        is_valid_address(addr),
        s.stack.len() < STACK_CAPACITY,
    ensures
        execute_spec(s, Instruction::CallSubroutine { addr }) is Ok,
        execute_spec(
            execute_spec(s, Instruction::CallSubroutine { addr })->Ok_0,
            Instruction::ReturnSubroutine,
        ) == Ok::<ChipState, Chip8Error>(s),
{
    let called = execute_spec(s, Instruction::CallSubroutine { addr })->Ok_0;
    assert(called.stack.drop_last() =~= s.stack);
}

/// The state after calling each address of `addrs` in turn, or the first
/// error reported.
pub open spec fn call_all(s: ChipState, addrs: Seq<u16>) -> Result<ChipState, Chip8Error>
    decreases addrs.len(),
{
    if addrs.len() == 0 {
        Ok(s)
    } else {
        match execute_spec(s, Instruction::CallSubroutine { addr: addrs[0] }) {
            Ok(next) => call_all(next, addrs.drop_first()),
            Err(e) => Err(e),
        }
    }
}

proof fn lemma_call_all_depth(s: ChipState, addrs: Seq<u16>)
    requires
        s.stack.len() + addrs.len() <= STACK_CAPACITY,
        forall|i: int| 0 <= i < addrs.len() ==> is_valid_address(#[trigger] addrs[i]),
    ensures
        call_all(s, addrs) is Ok,
        call_all(s, addrs)->Ok_0.stack.len() == s.stack.len() + addrs.len(),
    decreases addrs.len(),
{
    if addrs.len() > 0 {
        let next = execute_spec(s, Instruction::CallSubroutine { addr: addrs[0] })->Ok_0;
        let rest = addrs.drop_first();
        assert forall|i: int| 0 <= i < rest.len() implies is_valid_address(#[trigger] rest[i]) by {
            assert(rest[i] == addrs[i + 1]);
        }
        lemma_call_all_depth(next, rest);
    }
}

/// From an empty call stack, `STACK_CAPACITY` calls to valid addresses all
/// succeed and leave that many return addresses on the stack; one more call
/// then reports a stack overflow, and an error leaves the state, and so the
/// depth, as it was.
pub proof fn lemma_stack_bound(s: ChipState, addrs: Seq<u16>, extra: u16)
    requires
        s.stack.len() == 0,
        addrs.len() == STACK_CAPACITY,
        forall|i: int| 0 <= i < addrs.len() ==> is_valid_address(#[trigger] addrs[i]),
        is_valid_address(extra),
    ensures
        call_all(s, addrs) is Ok,
        call_all(s, addrs)->Ok_0.stack.len() == STACK_CAPACITY,
        execute_spec(call_all(s, addrs)->Ok_0, Instruction::CallSubroutine { addr: extra })
            == Err::<ChipState, Chip8Error>(Chip8Error::Subroutine(SubroutineError::StackOverflow)),
{
    lemma_call_all_depth(s, addrs);
}

/// Whether the two bytes of an instruction at `pc` lie in memory.
pub open spec fn can_fetch(pc: u16) -> bool {
    pc + 1 < MEMORY_SIZE
}

/// The state after one fetch-decode-execute cycle from `s` and what the cycle
/// reports. When the instruction fails, the program counter has still moved
/// past it and nothing else has changed.
pub open spec fn cycle_spec(s: ChipState) -> (ChipState, Result<(), Chip8Error>) {
    if !can_fetch(s.pc) {
        (s, Err(Chip8Error::PcOutOfBounds(s.pc)))
    } else {
        let fetched = ChipState { pc: (s.pc + 2) as u16, ..s };
        match execute_spec(fetched, decode_spec(word_at(s.memory, s.pc as int))) {
            Ok(next) => (next, Ok(())),
            Err(e) => (fetched, Err(e)),
        }
    }
}

} // verus!

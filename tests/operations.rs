use octorust::chip8::Chip8;
use octorust::low_level_operations::get_nibble;
use octorust::stack::Stack;

#[test]
fn test_get_nibble() {
    let instruction: u16 = 0x1234;
    assert_eq!(Chip8::get_nibble(instruction, 1), 0x1);
    assert_eq!(Chip8::get_nibble(instruction, 2), 0x2);
    assert_eq!(Chip8::get_nibble(instruction, 3), 0x3);
    assert_eq!(Chip8::get_nibble(instruction, 4), 0x4);
}

#[test]
fn test_call_subroutine() {
    let mut pc: u16 = 0x100;
    let mut stack: Stack<u16> = Stack::new();
    let mut addr: u16 = 0x111;

    assert!(Chip8::call_subroutine(&mut pc, &mut stack, addr).is_ok());
    assert_eq!(pc, addr);
    assert_eq!(stack.pop().unwrap(), 0x100);

    // testing error handling
    pc = 0x1000;
    addr = 0x1111;
    assert!(Chip8::call_subroutine(&mut pc, &mut stack, addr).is_err());
}

#[test]
fn test_add() {
    let mut v: [u8; 16];
    v = [1; 16];

    let addend = 5;

    assert!(Chip8::add(&mut v, 2, addend).is_ok());
    assert!(Chip8::add(&mut v, 18, addend).is_err());
    assert_eq!(v[2], 6);
}

#[test]
fn test_set_i() {
    let mut i: u16 = 0;

    let _value: u16 = 5;

    Chip8::set_i(&mut i, 5);

    assert_eq!(i, 5);
}

#[test]
fn chip8_test_get_nibble() {
    let instruction: u16 = 0x1234;
    assert_eq!(get_nibble(instruction, 1), 0x1);
    assert_eq!(get_nibble(instruction, 2), 0x2);
    assert_eq!(get_nibble(instruction, 3), 0x3);
    assert_eq!(get_nibble(instruction, 4), 0x4);
}

#[test]
fn chip8_test_call_subroutine() {
    let mut pc: u16 = 0x100;
    let mut stack: Stack<u16> = Stack::new();
    let mut addr: u16 = 0x111;

    assert!(Chip8::call_subroutine(&mut pc, &mut stack, addr).is_ok());
    assert_eq!(pc, addr);
    assert_eq!(stack.pop().unwrap(), 0x100);

    pc = 0x1000;
    addr = 0x1111;
    assert!(Chip8::call_subroutine(&mut pc, &mut stack, addr).is_err());
}

#[test]
fn chip8_test_add() {
    let mut v: [u8; 16];
    v = [1; 16];
    let addend = 5;

    assert!(Chip8::add(&mut v, 2, addend).is_ok());
    assert!(Chip8::add(&mut v, 18, addend).is_err());
    assert_eq!(v[2], 6);
}

#[test]
fn chip8_test_set_i() {
    let mut i: u16 = 0;
    let value: u16 = 5;

    Chip8::set_i(&mut i, value);

    assert_eq!(i, 5);
}

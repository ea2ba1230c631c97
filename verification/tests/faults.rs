use chip8::cpu::Chip8;
use chip8::keyboard::{KeyState, Keys};

fn no_keys() -> Keys {
    [KeyState::Up; 16]
}

#[test]
fn unknown_opcode_is_fatal() {
    let mut c = Chip8::new(&[0xFA, 0xFF]);
    assert!(c.step(&no_keys(), 0).is_none());
    // The machine is left as it was.
    assert_eq!(c.state.pc, 0x200);
    assert_eq!(c.state.delay_timer, 0);
}

#[test]
fn zero_word_is_fatal() {
    let mut c = Chip8::new(&[]);
    assert!(c.step(&no_keys(), 0).is_none());
}

#[test]
fn return_on_empty_stack_is_fatal() {
    let mut c = Chip8::new(&[0x00, 0xEE]);
    assert!(c.step(&no_keys(), 0).is_none());
    assert_eq!(c.state.pc, 0x200);
}

#[test]
fn seventeenth_nested_call_is_fatal() {
    // The program at 0x200 calls itself forever.
    let mut c = Chip8::new(&[0x22, 0x00]);
    for _ in 0..16 {
        assert!(c.step(&no_keys(), 0).is_some());
    }
    assert!(c.step(&no_keys(), 0).is_none());
    assert_eq!(c.state.pc, 0x200);
}

#[test]
fn draw_past_end_of_memory_is_fatal() {
    let mut c = Chip8::new(&[0xD0, 0x15]);
    c.state.i = 4092;
    assert!(c.step(&no_keys(), 0).is_none());
}

#[test]
fn bcd_past_end_of_memory_is_fatal() {
    let mut c = Chip8::new(&[0xF0, 0x33]);
    c.state.i = 4094;
    assert!(c.step(&no_keys(), 0).is_none());
}

#[test]
fn register_block_past_end_of_memory_is_fatal() {
    let mut c = Chip8::new(&[0xF6, 0x55]);
    c.state.i = 4090;
    assert!(c.step(&no_keys(), 0).is_none());

    let mut c = Chip8::new(&[0xF6, 0x65]);
    c.state.i = 4090;
    assert!(c.step(&no_keys(), 0).is_none());
}

#[test]
fn key_value_past_keypad_is_fatal() {
    let mut c = Chip8::new(&[0xE0, 0x9E]);
    c.state.registers[0] = 200;
    assert!(c.step(&no_keys(), 0).is_none());
}

#[test]
fn fetch_past_end_of_memory_is_fatal() {
    let mut c = Chip8::new(&[0x1F, 0xFF]);
    assert!(c.step(&no_keys(), 0).is_some());
    assert_eq!(c.state.pc, 0xFFF);
    assert!(c.step(&no_keys(), 0).is_none());
    assert_eq!(c.state.pc, 0xFFF);
}

#[test]
fn iteration_draws_its_own_random_byte() {
    // Cx00 masks the random byte to zero, so the outcome is fixed.
    let mut c = Chip8::new(&[0xC0, 0x00]);
    c.state.registers[0] = 77;
    let state = c.iteration(&no_keys()).expect("well-formed program");
    assert_eq!(state.registers[0], 0);
    assert_eq!(state.pc, 0x202);
}

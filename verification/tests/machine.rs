use chip8::cpu::Chip8;
use chip8::ram::Ram;
use chip8::stack::Stack;
use chip8::state::State;

const FONT: [u8; 80] = [
    0xF0, 0x90, 0x90, 0x90, 0xF0, // 0
    0x20, 0x60, 0x20, 0x20, 0x70, // 1
    0xF0, 0x10, 0xF0, 0x80, 0xF0, // 2
    0xF0, 0x10, 0xF0, 0x10, 0xF0, // 3
    0x90, 0x90, 0xF0, 0x10, 0x10, // 4
    0xF0, 0x80, 0xF0, 0x10, 0xF0, // 5
    0xF0, 0x80, 0xF0, 0x90, 0xF0, // 6
    0xF0, 0x10, 0x20, 0x40, 0x40, // 7
    0xF0, 0x90, 0xF0, 0x90, 0xF0, // 8
    0xF0, 0x90, 0xF0, 0x10, 0xF0, // 9
    0xF0, 0x90, 0xF0, 0x90, 0x90, // A
    0xE0, 0x90, 0xE0, 0x90, 0xE0, // B
    0xF0, 0x80, 0x80, 0x80, 0xF0, // C
    0xE0, 0x90, 0x90, 0x90, 0xE0, // D
    0xF0, 0x80, 0xF0, 0x80, 0xF0, // E
    0xF0, 0x80, 0xF0, 0x80, 0x80, // F
];

#[test]
fn new_initializes_machine() {
    let program = vec![0x12u8, 0x34, 0x56];
    let c = Chip8::new(program.as_slice());
    assert_eq!(c.state.pc, 512);
    for k in 0..16 {
        assert_eq!(c.state.registers[k], 0);
    }
    assert_eq!(c.state.delay_timer, 0);
    assert_eq!(c.state.sound_timer, 0);
    assert_eq!(c.state.i, 0);
    assert!(!c.state.should_draw);
    assert!(!c.state.waiting_for_key);
    assert!(!c.state.play_audio);
    assert_eq!(c.state.key_register_index, 0);
    for k in 0..80 {
        assert_eq!(c.state.ram.get(k), FONT[k]);
    }
    for k in 80..512 {
        assert_eq!(c.state.ram.get(k), 0);
    }
    for j in 0..program.len() {
        assert_eq!(c.state.ram.get(512 + j), program[j]);
    }
    for k in 512 + program.len()..4096 {
        assert_eq!(c.state.ram.get(k), 0);
    }
    for row in c.state.display_buffer.iter() {
        for px in row.iter() {
            assert_eq!(*px, 0);
        }
    }
}

#[test]
fn new_accepts_largest_program() {
    let program = vec![0xABu8; 3584];
    let c = Chip8::new(program.as_slice());
    assert_eq!(c.state.ram.get(512), 0xAB);
    assert_eq!(c.state.ram.get(4095), 0xAB);
}

#[test]
fn ram_len_is_address_space() {
    let ram = Ram::new(&[]);
    assert_eq!(ram.len(), 4096);
}

#[test]
fn ram_set_then_get() {
    let mut ram = Ram::new(&[]);
    ram.set(1000, 0x5A);
    assert_eq!(ram.get(1000), 0x5A);
    assert_eq!(ram.get(1001), 0);
}

#[test]
fn ram_get_u16_is_big_endian() {
    let mut ram = Ram::new(&[]);
    ram.set(100, 0x12);
    ram.set(101, 0x34);
    assert_eq!(ram.get_u16(100), 0x1234);
}

#[test]
fn stack_is_lifo() {
    let mut stack = Stack::new();
    assert_eq!(stack.len(), 0);
    stack.push(0x200);
    stack.push(0x300);
    assert_eq!(stack.len(), 2);
    assert_eq!(stack.top(), 0x300);
    assert_eq!(stack.pop(), 0x300);
    assert_eq!(stack.pop(), 0x200);
    assert_eq!(stack.len(), 0);
}

#[test]
fn state_instruction_reads_big_endian_at_pc() {
    let program = vec![0xA2u8, 0xF0];
    let s = State::new(program.as_slice());
    assert_eq!(s.instruction(), 0xA2F0);
}

#[test]
fn state_next_instruction_advances_by_two() {
    let mut s = State::new(&[]);
    s.next_instruction();
    assert_eq!(s.pc, 514);
}

#[test]
fn state_set_register_and_address_register() {
    let mut s = State::new(&[]);
    s.set_register(3, 0x7F);
    assert_eq!(s.registers[3], 0x7F);
    s.set_address_register(0x123);
    assert_eq!(s.i, 0x123);
}

use chip8::cpu::Chip8;
use chip8::keyboard::{KeyState, Keys};
use chip8::op::{decode, Op};

fn boot(program: &[u8]) -> Chip8 {
    Chip8::new(program)
}

fn no_keys() -> Keys {
    [KeyState::Up; 16]
}

fn step(c: &mut Chip8) -> chip8::state::State {
    c.step(&no_keys(), 0).expect("step hit a fatal condition")
}

#[test]
fn decode_selects_families_and_low_bits() {
    assert_eq!(decode(0x00E0), Some(Op::ClearScreen));
    assert_eq!(decode(0x00EE), Some(Op::Return));
    assert_eq!(decode(0x1ABC), Some(Op::Jump(0xABC)));
    assert_eq!(decode(0x2ABC), Some(Op::Call(0xABC)));
    assert_eq!(decode(0x3A42), Some(Op::SkipEqImm(0xA, 0x42)));
    assert_eq!(decode(0x4A42), Some(Op::SkipNeImm(0xA, 0x42)));
    assert_eq!(decode(0x5AB0), Some(Op::SkipEqReg(0xA, 0xB)));
    assert_eq!(decode(0x6A42), Some(Op::LoadImm(0xA, 0x42)));
    assert_eq!(decode(0x7A42), Some(Op::AddImm(0xA, 0x42)));
    assert_eq!(decode(0x8AB0), Some(Op::LoadReg(0xA, 0xB)));
    assert_eq!(decode(0x8AB1), Some(Op::OrReg(0xA, 0xB)));
    assert_eq!(decode(0x8AB2), Some(Op::AndReg(0xA, 0xB)));
    assert_eq!(decode(0x8AB3), Some(Op::XorReg(0xA, 0xB)));
    assert_eq!(decode(0x8AB4), Some(Op::AddReg(0xA, 0xB)));
    assert_eq!(decode(0x8AB5), Some(Op::SubReg(0xA, 0xB)));
    assert_eq!(decode(0x8AB6), Some(Op::ShrReg(0xA)));
    assert_eq!(decode(0x8AB7), Some(Op::SubnReg(0xA, 0xB)));
    assert_eq!(decode(0x8ABE), Some(Op::ShlReg(0xA)));
    assert_eq!(decode(0x9AB0), Some(Op::SkipNeReg(0xA, 0xB)));
    assert_eq!(decode(0xAABC), Some(Op::LoadAddr(0xABC)));
    assert_eq!(decode(0xBABC), Some(Op::JumpV0(0xABC)));
    assert_eq!(decode(0xCA42), Some(Op::RandomAnd(0xA, 0x42)));
    assert_eq!(decode(0xDAB5), Some(Op::Draw(0xA, 0xB, 5)));
    assert_eq!(decode(0xEA9E), Some(Op::SkipKeyDown(0xA)));
    assert_eq!(decode(0xEAA1), Some(Op::SkipKeyUp(0xA)));
    assert_eq!(decode(0xFA07), Some(Op::ReadDelay(0xA)));
    assert_eq!(decode(0xFA0A), Some(Op::WaitKey(0xA)));
    assert_eq!(decode(0xFA15), Some(Op::SetDelay(0xA)));
    assert_eq!(decode(0xFA18), Some(Op::SetSound(0xA)));
    assert_eq!(decode(0xFA1E), Some(Op::AddAddr(0xA)));
    assert_eq!(decode(0xFA29), Some(Op::LoadFont(0xA)));
    assert_eq!(decode(0xFA33), Some(Op::StoreBcd(0xA)));
    assert_eq!(decode(0xFA55), Some(Op::StoreRegs(0xA)));
    assert_eq!(decode(0xFA65), Some(Op::LoadRegs(0xA)));
    assert_eq!(decode(0x0000), None);
    assert_eq!(decode(0x8AB8), None);
    assert_eq!(decode(0xEA00), None);
    assert_eq!(decode(0xFAFF), None);
}

#[test]
fn add_with_carry_overflowing() {
    let mut c = boot(&[0x80, 0x14]);
    c.state.registers[0] = 250;
    c.state.registers[1] = 10;
    step(&mut c);
    assert_eq!(c.state.registers[0], 4);
    assert_eq!(c.state.registers[15], 1);
}

#[test]
fn add_with_carry_in_range() {
    let mut c = boot(&[0x80, 0x14]);
    c.state.registers[0] = 10;
    c.state.registers[1] = 10;
    step(&mut c);
    assert_eq!(c.state.registers[0], 20);
    assert_eq!(c.state.registers[15], 0);
}

#[test]
fn sub_not_borrow_greater() {
    let mut c = boot(&[0x80, 0x15]);
    c.state.registers[0] = 10;
    c.state.registers[1] = 3;
    step(&mut c);
    assert_eq!(c.state.registers[0], 7);
    assert_eq!(c.state.registers[15], 1);
}

#[test]
fn sub_not_borrow_wraps() {
    let mut c = boot(&[0x80, 0x15]);
    c.state.registers[0] = 3;
    c.state.registers[1] = 10;
    step(&mut c);
    assert_eq!(c.state.registers[0], 249);
    assert_eq!(c.state.registers[15], 0);
}

#[test]
fn subn_uses_exchanged_operands() {
    let mut c = boot(&[0x80, 0x17]);
    c.state.registers[0] = 3;
    c.state.registers[1] = 10;
    step(&mut c);
    assert_eq!(c.state.registers[0], 7);
    assert_eq!(c.state.registers[15], 1);
}

#[test]
fn shift_right_sets_flag_to_low_bit() {
    let mut c = boot(&[0x80, 0x06]);
    c.state.registers[0] = 0b0000_0011;
    step(&mut c);
    assert_eq!(c.state.registers[0], 1);
    assert_eq!(c.state.registers[15], 1);
}

#[test]
fn shift_left_sets_flag_to_high_bit() {
    let mut c = boot(&[0x80, 0x0E]);
    c.state.registers[0] = 0b1000_0001;
    step(&mut c);
    assert_eq!(c.state.registers[0], 0b0000_0010);
    assert_eq!(c.state.registers[15], 1);
}

#[test]
fn add_imm_wraps_without_flag() {
    let mut c = boot(&[0x70, 0x0A]);
    c.state.registers[0] = 250;
    c.state.registers[15] = 9;
    step(&mut c);
    assert_eq!(c.state.registers[0], 4);
    assert_eq!(c.state.registers[15], 9);
}

#[test]
fn bitwise_register_ops() {
    let mut c = boot(&[0x80, 0x11, 0x80, 0x12, 0x80, 0x13]);
    c.state.registers[0] = 0b1100;
    c.state.registers[1] = 0b1010;
    step(&mut c);
    assert_eq!(c.state.registers[0], 0b1110);
    c.state.registers[0] = 0b1100;
    step(&mut c);
    assert_eq!(c.state.registers[0], 0b1000);
    c.state.registers[0] = 0b1100;
    step(&mut c);
    assert_eq!(c.state.registers[0], 0b0110);
}

#[test]
fn skip_when_equal_immediate() {
    let mut c = boot(&[0x30, 0x42]);
    c.state.registers[0] = 0x42;
    step(&mut c);
    assert_eq!(c.state.pc, 0x204);

    let mut c = boot(&[0x30, 0x42]);
    c.state.registers[0] = 0x41;
    step(&mut c);
    assert_eq!(c.state.pc, 0x202);
}

#[test]
fn skip_when_registers_differ() {
    let mut c = boot(&[0x90, 0x10]);
    c.state.registers[0] = 1;
    c.state.registers[1] = 2;
    step(&mut c);
    assert_eq!(c.state.pc, 0x204);
}

#[test]
fn jump_sets_pc() {
    let mut c = boot(&[0x1A, 0xBC]);
    step(&mut c);
    assert_eq!(c.state.pc, 0xABC);
}

#[test]
fn jump_v0_adds_register_zero() {
    let mut c = boot(&[0xB3, 0x00]);
    c.state.registers[0] = 0x21;
    step(&mut c);
    assert_eq!(c.state.pc, 0x321);
}

#[test]
fn call_then_return_round_trip() {
    let mut c = boot(&[0x22, 0x04, 0x00, 0x00, 0x00, 0xEE]);
    step(&mut c);
    assert_eq!(c.state.pc, 0x204);
    step(&mut c);
    assert_eq!(c.state.pc, 0x202);
}

#[test]
fn load_address_register() {
    let mut c = boot(&[0xA1, 0x23]);
    step(&mut c);
    assert_eq!(c.state.i, 0x123);
}

#[test]
fn random_is_masked_and_deterministic_per_byte() {
    let mut c = boot(&[0xC0, 0x0F]);
    let keys = [KeyState::Up; 16];
    c.step(&keys, 0xAB).unwrap();
    assert_eq!(c.state.registers[0], 0x0B);
}

#[test]
fn clear_screen_blanks_every_cell() {
    let mut c = boot(&[0x00, 0xE0]);
    for r in 0..32 {
        for col in 0..64 {
            c.state.display_buffer[r][col] = ((r + col) % 2) as u8;
        }
    }
    step(&mut c);
    for r in 0..32 {
        for col in 0..64 {
            assert_eq!(c.state.display_buffer[r][col], 0);
        }
    }
    // Only the draw instruction marks the display dirty.
    assert!(!c.state.should_draw);
}

#[test]
fn draw_xors_sprite_and_reports_collision() {
    // Draw the font glyph for 0 (rows F0 90 90 90 F0) at (0, 0).
    let mut c = boot(&[0xD0, 0x15]);
    c.state.i = 0;
    step(&mut c);
    assert!(c.state.should_draw);
    assert_eq!(c.state.registers[15], 0);
    assert_eq!(c.state.display_buffer[0][0], 1);
    assert_eq!(c.state.display_buffer[0][3], 1);
    assert_eq!(c.state.display_buffer[0][4], 0);
    assert_eq!(c.state.display_buffer[1][0], 1);
    assert_eq!(c.state.display_buffer[1][1], 0);
    assert_eq!(c.state.display_buffer[1][3], 1);
}

#[test]
fn draw_wraps_around_the_edges() {
    let mut c = boot(&[0xD0, 0x11]);
    c.state.i = 0x300;
    c.state.ram.set(0x300, 0b1000_0001);
    c.state.registers[0] = 62;
    c.state.registers[1] = 31;
    step(&mut c);
    assert_eq!(c.state.display_buffer[31][62], 1);
    assert_eq!(c.state.display_buffer[31][5], 1);
    assert_eq!(c.state.display_buffer[31][63], 0);
}

#[test]
fn draw_twice_restores_prior_content() {
    let mut c = boot(&[0xD0, 0x15, 0xD0, 0x15]);
    c.state.i = 0;
    c.state.display_buffer[0][0] = 1;
    c.state.display_buffer[5][7] = 1;
    let before = c.state.display_buffer;
    let after_first = step(&mut c);
    // The first pass collides with the preset pixel under the sprite.
    assert_eq!(after_first.registers[15], 1);
    step(&mut c);
    assert_eq!(c.state.display_buffer, before);
    // The second pass erases what the first pass drew, so its own
    // collision bit is set; the first pass's bit is overwritten.
    assert_eq!(c.state.registers[15], 1);
}

#[test]
fn skip_key_down_and_up() {
    let mut c = boot(&[0xE0, 0x9E]);
    c.state.registers[0] = 5;
    let mut keys = [KeyState::Up; 16];
    keys[5] = KeyState::Down;
    c.step(&keys, 0).unwrap();
    assert_eq!(c.state.pc, 0x204);

    let mut c = boot(&[0xE0, 0xA1]);
    c.state.registers[0] = 5;
    c.step(&keys, 0).unwrap();
    assert_eq!(c.state.pc, 0x202);
}

#[test]
fn wait_for_key_suspends_timers_until_key_down() {
    let mut c = boot(&[0xF0, 0x0A, 0x61, 0x07]);
    c.state.delay_timer = 10;
    c.state.sound_timer = 5;
    // The wait instruction itself executes in a normal, ticking iteration.
    step(&mut c);
    assert!(c.state.waiting_for_key);
    assert_eq!(c.state.delay_timer, 9);
    assert_eq!(c.state.sound_timer, 4);
    // No key down: the machine, timers included, does not move.
    for _ in 0..3 {
        step(&mut c);
        assert!(c.state.waiting_for_key);
        assert_eq!(c.state.delay_timer, 9);
        assert_eq!(c.state.sound_timer, 4);
        assert_eq!(c.state.pc, 0x202);
    }
    // The first key down lands in the register, without a tick.
    let mut keys = [KeyState::Up; 16];
    keys[3] = KeyState::Down;
    keys[7] = KeyState::Down;
    c.step(&keys, 0).unwrap();
    assert!(!c.state.waiting_for_key);
    assert_eq!(c.state.registers[0], 3);
    assert_eq!(c.state.delay_timer, 9);
    assert_eq!(c.state.sound_timer, 4);
    // The following iteration resumes the countdown.
    step(&mut c);
    assert_eq!(c.state.delay_timer, 8);
    assert_eq!(c.state.sound_timer, 3);
}

#[test]
fn timers_count_down_and_drive_audio() {
    let mut c = boot(&[0x60, 0x00, 0x60, 0x00, 0x60, 0x00]);
    c.state.sound_timer = 2;
    c.state.delay_timer = 1;
    step(&mut c);
    assert_eq!(c.state.sound_timer, 1);
    assert_eq!(c.state.delay_timer, 0);
    assert!(c.state.play_audio);
    step(&mut c);
    assert_eq!(c.state.sound_timer, 0);
    assert_eq!(c.state.delay_timer, 0);
    assert!(!c.state.play_audio);
}

#[test]
fn read_and_load_timers() {
    let mut c = boot(&[0x60, 0x07, 0xF0, 0x15, 0xF1, 0x07, 0xF1, 0x18]);
    step(&mut c);
    // Set DT := V0 = 7; the tick of this very iteration happens first.
    step(&mut c);
    assert_eq!(c.state.delay_timer, 7);
    // Read DT into V1 after this iteration's tick: 7 - 1 = 6.
    step(&mut c);
    assert_eq!(c.state.registers[1], 6);
    // Set ST := V1 = 6.
    step(&mut c);
    assert_eq!(c.state.sound_timer, 6);
}

#[test]
fn add_address_flags_the_low_byte_quirk() {
    let mut c = boot(&[0xF0, 0x1E]);
    c.state.i = 300;
    c.state.registers[0] = 10;
    step(&mut c);
    assert_eq!(c.state.i, 310);
    assert_eq!(c.state.registers[15], 1);

    let mut c = boot(&[0xF0, 0x1E]);
    c.state.i = 100;
    c.state.registers[0] = 10;
    step(&mut c);
    assert_eq!(c.state.i, 110);
    assert_eq!(c.state.registers[15], 0);
}

#[test]
fn add_address_wraps_sixteen_bits() {
    let mut c = boot(&[0xF0, 0x1E]);
    c.state.i = 0xFFFF;
    c.state.registers[0] = 5;
    step(&mut c);
    assert_eq!(c.state.i, 4);
    assert_eq!(c.state.registers[15], 1);
}

#[test]
fn font_lookup_points_at_each_glyph() {
    let glyph_starts: [u8; 5] = [0xF0, 0x20, 0xF0, 0xF0, 0x90];
    for d in 0..16u8 {
        let mut c = boot(&[0xF0, 0x29]);
        c.state.registers[0] = d;
        step(&mut c);
        assert_eq!(c.state.i, d as u16 * 5);
        if (d as usize) < glyph_starts.len() {
            assert_eq!(c.state.ram.get(c.state.i as usize), glyph_starts[d as usize]);
        }
        // Every glyph's five bytes match what a fresh machine holds there.
        let fresh = Chip8::new(&[]);
        for k in 0..5 {
            assert_eq!(
                c.state.ram.get(c.state.i as usize + k),
                fresh.state.ram.get(d as usize * 5 + k)
            );
        }
    }
}

#[test]
fn bcd_stores_three_digits() {
    let mut c = boot(&[0xF0, 0x33]);
    c.state.registers[0] = 234;
    c.state.i = 0x300;
    step(&mut c);
    assert_eq!(c.state.ram.get(0x300), 2);
    assert_eq!(c.state.ram.get(0x301), 3);
    assert_eq!(c.state.ram.get(0x302), 4);
}

#[test]
fn store_then_load_registers_round_trip() {
    let mut c = boot(&[0xF3, 0x55, 0x63, 0x00, 0xF3, 0x65]);
    for k in 0..4u8 {
        c.state.registers[k as usize] = 10 + k;
    }
    c.state.i = 0x300;
    step(&mut c);
    for k in 0..4usize {
        assert_eq!(c.state.ram.get(0x300 + k), 10 + k as u8);
    }
    assert_eq!(c.state.ram.get(0x304), 0);
    // Clobber V3, then load the block back.
    step(&mut c);
    assert_eq!(c.state.registers[3], 0);
    step(&mut c);
    for k in 0..4usize {
        assert_eq!(c.state.registers[k], 10 + k as u8);
    }
}

#[test]
fn wait_key_targets_named_register() {
    let mut c = boot(&[0xF4, 0x0A]);
    step(&mut c);
    assert!(c.state.waiting_for_key);
    assert_eq!(c.state.key_register_index, 4);
    let mut keys = [KeyState::Up; 16];
    keys[0xC] = KeyState::Down;
    c.step(&keys, 0).unwrap();
    assert_eq!(c.state.registers[4], 0xC);
}

use chip8_core::{Chip8Error, EMU};

/// A fresh interpreter with `prog` installed at the start address.
fn emu_with(prog: &[u8]) -> EMU {
    let mut e = EMU::new();
    e.load(prog).expect("program fits in memory");
    e
}

fn same_state(a: &EMU, b: &EMU) -> bool {
    a.program_counter == b.program_counter
        && a.ram == b.ram
        && a.screen == b.screen
        && a.v_reg == b.v_reg
        && a.i_reg == b.i_reg
        && a.sp == b.sp
        && a.stack == b.stack
        && a.keys == b.keys
        && a.st == b.st
        && a.dt == b.dt
}

#[test]
fn power_on_state() {
    let e = EMU::new();
    assert_eq!(e.program_counter, 0x200);
    assert_eq!(e.ram[0], 0xF0);
    assert_eq!(e.ram[4], 0x90);
    assert_eq!(e.ram[79], 0x80);
    assert_eq!(e.ram[80], 0);
    assert!(e.get_dislay().iter().all(|p| !p));
    assert_eq!(e.get_dislay().len(), 64 * 64);
    assert_eq!(e.get_sound_timer(), 0);
}

#[test]
fn load_places_program_at_start_address() {
    let e = emu_with(&[0xAA, 0xBB, 0xCC]);
    assert_eq!(e.ram[0x200], 0xAA);
    assert_eq!(e.ram[0x201], 0xBB);
    assert_eq!(e.ram[0x202], 0xCC);
    assert_eq!(e.ram[0x203], 0x00);
}

#[test]
fn load_rejects_oversized_program() {
    let mut e = EMU::new();
    let too_big = vec![0u8; 4096 - 0x200 + 1];
    assert_eq!(e.load(&too_big), Err(Chip8Error::RomTooLarge));
    assert_eq!(e.ram[0x200], 0);
    let just_fits = vec![0x11u8; 4096 - 0x200];
    assert_eq!(e.load(&just_fits), Ok(()));
    assert_eq!(e.ram[4095], 0x11);
}

/// Set V0=5, set V1=3, add V1 into V0: three ticks yield V0=8 with no carry.
#[test]
fn add_scenario_three_ticks() {
    let mut e = emu_with(&[0x60, 0x05, 0x61, 0x03, 0x80, 0x14]);
    for _ in 0..3 {
        e.tick().unwrap();
    }
    assert_eq!(e.v_reg[0], 8);
    assert_eq!(e.v_reg[0xF], 0);
}

#[test]
fn add_reg_overflow_wraps_and_sets_carry() {
    let mut e = emu_with(&[0x60, 0xC8, 0x61, 0x64, 0x80, 0x14]);
    for _ in 0..3 {
        e.tick().unwrap();
    }
    // 200 + 100 = 300 = 44 mod 256, carry set.
    assert_eq!(e.v_reg[0], 44);
    assert_eq!(e.v_reg[0xF], 1);
}

#[test]
fn add_reg_same_register_doubles() {
    let mut e = emu_with(&[0x61, 0x96, 0x81, 0x14]);
    e.tick().unwrap();
    e.tick().unwrap();
    // 150 + 150 = 300 = 44 mod 256, carry set, with x == y.
    assert_eq!(e.v_reg[1], 44);
    assert_eq!(e.v_reg[0xF], 1);
}

#[test]
fn sub_reg_underflow_wraps_and_clears_flag() {
    let mut e = emu_with(&[0x60, 0x05, 0x61, 0x0A, 0x80, 0x15]);
    for _ in 0..3 {
        e.tick().unwrap();
    }
    // 5 - 10 wraps to 251; VF = 0 signals the borrow.
    assert_eq!(e.v_reg[0], 251);
    assert_eq!(e.v_reg[0xF], 0);
}

#[test]
fn sub_reg_no_borrow_sets_flag() {
    let mut e = emu_with(&[0x60, 0x0A, 0x61, 0x05, 0x80, 0x15]);
    for _ in 0..3 {
        e.tick().unwrap();
    }
    assert_eq!(e.v_reg[0], 5);
    assert_eq!(e.v_reg[0xF], 1);
}

#[test]
fn subn_reg_reverses_operands() {
    let mut e = emu_with(&[0x60, 0x02, 0x61, 0x07, 0x80, 0x17]);
    for _ in 0..3 {
        e.tick().unwrap();
    }
    // V0 = V1 - V0 = 5, no borrow so VF = 1.
    assert_eq!(e.v_reg[0], 5);
    assert_eq!(e.v_reg[0xF], 1);

    let mut e2 = emu_with(&[0x60, 0x07, 0x61, 0x02, 0x80, 0x17]);
    for _ in 0..3 {
        e2.tick().unwrap();
    }
    // V0 = 2 - 7 wraps to 251, borrow so VF = 0.
    assert_eq!(e2.v_reg[0], 251);
    assert_eq!(e2.v_reg[0xF], 0);
}

#[test]
fn shr_captures_low_bit() {
    let mut e = emu_with(&[0x60, 0x07, 0x80, 0x06]);
    e.tick().unwrap();
    e.tick().unwrap();
    assert_eq!(e.v_reg[0], 3);
    assert_eq!(e.v_reg[0xF], 1);

    let mut e2 = emu_with(&[0x60, 0x08, 0x80, 0x06]);
    e2.tick().unwrap();
    e2.tick().unwrap();
    assert_eq!(e2.v_reg[0], 4);
    assert_eq!(e2.v_reg[0xF], 0);
}

#[test]
fn shl_captures_high_bit() {
    let mut e = emu_with(&[0x60, 0x81, 0x80, 0x0E]);
    e.tick().unwrap();
    e.tick().unwrap();
    // 0x81 doubled wraps to 0x02; the high bit lands in VF.
    assert_eq!(e.v_reg[0], 0x02);
    assert_eq!(e.v_reg[0xF], 1);

    let mut e2 = emu_with(&[0x60, 0x41, 0x80, 0x0E]);
    e2.tick().unwrap();
    e2.tick().unwrap();
    assert_eq!(e2.v_reg[0], 0x82);
    assert_eq!(e2.v_reg[0xF], 0);
}

#[test]
fn bitwise_and_or_xor_and_mov() {
    let mut e = emu_with(&[0x60, 0x0F, 0x61, 0x35, 0x80, 0x11]);
    for _ in 0..3 {
        e.tick().unwrap();
    }
    assert_eq!(e.v_reg[0], 0x3F);

    let mut e2 = emu_with(&[0x60, 0x0F, 0x61, 0x35, 0x80, 0x12]);
    for _ in 0..3 {
        e2.tick().unwrap();
    }
    assert_eq!(e2.v_reg[0], 0x05);

    let mut e3 = emu_with(&[0x60, 0x0F, 0x61, 0x35, 0x80, 0x13]);
    for _ in 0..3 {
        e3.tick().unwrap();
    }
    assert_eq!(e3.v_reg[0], 0x3A);

    let mut e4 = emu_with(&[0x61, 0x77, 0x80, 0x10]);
    e4.tick().unwrap();
    e4.tick().unwrap();
    assert_eq!(e4.v_reg[0], 0x77);
}

#[test]
fn add_imm_wraps_without_flag() {
    let mut e = emu_with(&[0x60, 0xFF, 0x70, 0x03]);
    e.tick().unwrap();
    e.tick().unwrap();
    assert_eq!(e.v_reg[0], 2);
    assert_eq!(e.v_reg[0xF], 0);
}

#[test]
fn skip_if_equal_immediate_advances_by_four() {
    let mut e = emu_with(&[0x60, 0x42, 0x30, 0x42]);
    e.tick().unwrap();
    let pc_before = e.program_counter;
    e.tick().unwrap();
    assert_eq!(e.program_counter, pc_before + 4);

    let mut e2 = emu_with(&[0x60, 0x42, 0x30, 0x41]);
    e2.tick().unwrap();
    let pc_before2 = e2.program_counter;
    e2.tick().unwrap();
    assert_eq!(e2.program_counter, pc_before2 + 2);
}

#[test]
fn skip_register_comparisons() {
    // 5xy0 skips when equal; 9xy0 skips when different.
    let mut e = emu_with(&[0x60, 0x01, 0x61, 0x01, 0x50, 0x10]);
    for _ in 0..2 {
        e.tick().unwrap();
    }
    let pc = e.program_counter;
    e.tick().unwrap();
    assert_eq!(e.program_counter, pc + 4);

    let mut e2 = emu_with(&[0x60, 0x01, 0x61, 0x02, 0x50, 0x10, 0x90, 0x10]);
    for _ in 0..2 {
        e2.tick().unwrap();
    }
    let pc2 = e2.program_counter;
    e2.tick().unwrap();
    assert_eq!(e2.program_counter, pc2 + 2);
    let pc3 = e2.program_counter;
    e2.tick().unwrap();
    assert_eq!(e2.program_counter, pc3 + 4);
}

#[test]
fn skip_on_key_state() {
    // V1 = 4; Ex9E skips only while key 4 is pressed.
    let mut e = emu_with(&[0x61, 0x04, 0xE1, 0x9E]);
    e.tick().unwrap();
    let pc = e.program_counter;
    e.tick().unwrap();
    assert_eq!(e.program_counter, pc + 2);

    let mut e2 = emu_with(&[0x61, 0x04, 0xE1, 0x9E, 0x00, 0x00, 0xE1, 0xA1]);
    e2.set_key(4, true).unwrap();
    e2.tick().unwrap();
    let pc2 = e2.program_counter;
    e2.tick().unwrap();
    assert_eq!(e2.program_counter, pc2 + 4);
    // ExA1: key 4 is pressed, so no skip.
    let pc3 = e2.program_counter;
    e2.tick().unwrap();
    assert_eq!(e2.program_counter, pc3 + 2);
}

#[test]
fn skip_on_bad_key_register_faults() {
    let mut e = emu_with(&[0x61, 0x10, 0xE1, 0x9E]);
    e.tick().unwrap();
    let pc = e.program_counter;
    assert_eq!(e.tick(), Err(Chip8Error::InvalidKeyIndex));
    assert_eq!(e.program_counter, pc);
}

#[test]
fn jump_and_jump_with_offset() {
    let mut e = emu_with(&[0x13, 0x00]);
    e.tick().unwrap();
    assert_eq!(e.program_counter, 0x300);

    let mut e2 = emu_with(&[0x60, 0x04, 0xB3, 0x00]);
    e2.tick().unwrap();
    e2.tick().unwrap();
    assert_eq!(e2.program_counter, 0x304);
}

#[test]
fn call_then_return_restores_counter() {
    // 0x200: call 0x204; 0x204: return.
    let mut e = emu_with(&[0x22, 0x04, 0x00, 0x00, 0x00, 0xEE]);
    e.tick().unwrap();
    assert_eq!(e.program_counter, 0x204);
    assert_eq!(e.sp, 1);
    e.tick().unwrap();
    assert_eq!(e.program_counter, 0x202);
    assert_eq!(e.sp, 0);
}

#[test]
fn seventeenth_nested_call_overflows() {
    // The instruction at 0x200 calls 0x200 again: every tick nests one call.
    let mut e = emu_with(&[0x22, 0x00]);
    for depth in 1..=16 {
        assert_eq!(e.tick(), Ok(()));
        assert_eq!(e.sp, depth);
    }
    assert_eq!(e.tick(), Err(Chip8Error::StackOverflow));
    assert_eq!(e.sp, 16);
    assert_eq!(e.program_counter, 0x200);
}

#[test]
fn return_on_empty_stack_underflows() {
    let mut e = emu_with(&[0x00, 0xEE]);
    let pc = e.program_counter;
    assert_eq!(e.tick(), Err(Chip8Error::StackUnderflow));
    assert_eq!(e.program_counter, pc);
}

#[test]
fn unknown_opcode_faults_and_leaves_state() {
    let mut e = emu_with(&[0x00, 0x00]);
    let pc = e.program_counter;
    assert_eq!(e.tick(), Err(Chip8Error::UnimplementedOpcode));
    assert_eq!(e.program_counter, pc);
}

#[test]
fn fetch_past_end_of_memory_faults() {
    let mut e = emu_with(&[0x1F, 0xFF]);
    e.tick().unwrap();
    assert_eq!(e.program_counter, 0xFFF);
    assert_eq!(e.tick(), Err(Chip8Error::MemoryOutOfBounds));
    assert_eq!(e.program_counter, 0xFFF);
}

#[test]
fn wait_key_spins_until_a_key_is_pressed() {
    let mut e = emu_with(&[0xF1, 0x0A]);
    let pc = e.program_counter;
    e.tick().unwrap();
    assert_eq!(e.program_counter, pc);
    e.tick().unwrap();
    assert_eq!(e.program_counter, pc);
    e.set_key(5, true).unwrap();
    e.set_key(3, true).unwrap();
    e.tick().unwrap();
    // The lowest-indexed pressed key is loaded and the counter advances.
    assert_eq!(e.v_reg[1], 3);
    assert_eq!(e.program_counter, pc + 2);
}

#[test]
fn set_key_rejects_out_of_range_index() {
    let mut e = EMU::new();
    assert_eq!(e.set_key(16, true), Err(Chip8Error::InvalidKeyIndex));
    assert_eq!(e.set_key(15, true), Ok(()));
    assert!(e.keys[15]);
    assert_eq!(e.set_key(15, false), Ok(()));
    assert!(!e.keys[15]);
}

#[test]
fn timers_count_down_to_zero_and_stop() {
    let mut e = emu_with(&[0x60, 0x02, 0xF0, 0x15, 0xF0, 0x18, 0xF1, 0x07]);
    for _ in 0..3 {
        e.tick().unwrap();
    }
    assert_eq!(e.dt, 2);
    assert_eq!(e.get_sound_timer(), 2);
    // Fx07 reads the delay timer back into a register.
    e.tick().unwrap();
    assert_eq!(e.v_reg[1], 2);
    e.tick_timers();
    assert_eq!(e.dt, 1);
    assert_eq!(e.get_sound_timer(), 1);
    e.tick_timers();
    e.tick_timers();
    e.tick_timers();
    assert_eq!(e.dt, 0);
    assert_eq!(e.get_sound_timer(), 0);
}

#[test]
fn random_masked_with_zero_is_zero() {
    let mut e = emu_with(&[0x60, 0xFF, 0xC0, 0x00]);
    e.tick().unwrap();
    e.tick().unwrap();
    assert_eq!(e.v_reg[0], 0);
}

#[test]
fn index_register_instructions() {
    let mut e = emu_with(&[0xA1, 0x23, 0x60, 0x10, 0xF0, 0x1E]);
    e.tick().unwrap();
    assert_eq!(e.i_reg, 0x123);
    e.tick().unwrap();
    e.tick().unwrap();
    assert_eq!(e.i_reg, 0x133);
}

#[test]
fn font_address_points_at_glyph() {
    let mut e = emu_with(&[0x60, 0x0A, 0xF0, 0x29]);
    e.tick().unwrap();
    e.tick().unwrap();
    assert_eq!(e.i_reg, 50);
    assert_eq!(e.ram[e.i_reg as usize], 0xF0);
}

#[test]
fn bcd_digits_stored_at_index() {
    let mut e = emu_with(&[0x60, 0xEA, 0xA3, 0x00, 0xF0, 0x33]);
    for _ in 0..3 {
        e.tick().unwrap();
    }
    // 0xEA = 234.
    assert_eq!(e.ram[0x300], 2);
    assert_eq!(e.ram[0x301], 3);
    assert_eq!(e.ram[0x302], 4);
}

#[test]
fn bcd_at_end_of_memory_faults() {
    let mut e = emu_with(&[0xAF, 0xFE, 0xF0, 0x33]);
    e.tick().unwrap();
    assert_eq!(e.tick(), Err(Chip8Error::MemoryOutOfBounds));
}

#[test]
fn store_and_load_registers_below_x() {
    // F355 stores V0..V2 (three registers) at I.
    let mut e = emu_with(&[0x60, 0x0B, 0x61, 0x16, 0x62, 0x21, 0xA3, 0x00, 0xF3, 0x55]);
    for _ in 0..5 {
        e.tick().unwrap();
    }
    assert_eq!(e.ram[0x300], 0x0B);
    assert_eq!(e.ram[0x301], 0x16);
    assert_eq!(e.ram[0x302], 0x21);
    assert_eq!(e.ram[0x303], 0x00);

    // F365 loads them back into V0..V2 of a fresh machine.
    let mut e2 = emu_with(&[0xA3, 0x00, 0xF3, 0x65]);
    e2.ram[0x300] = 0x0B;
    e2.ram[0x301] = 0x16;
    e2.ram[0x302] = 0x21;
    e2.v_reg[3] = 0x77;
    e2.tick().unwrap();
    e2.tick().unwrap();
    assert_eq!(e2.v_reg[0], 0x0B);
    assert_eq!(e2.v_reg[1], 0x16);
    assert_eq!(e2.v_reg[2], 0x21);
    assert_eq!(e2.v_reg[3], 0x77);
}

#[test]
fn draw_sets_pixels_and_reports_no_collision_on_clear_screen() {
    // Draw the glyph for 1 (five rows at address 5) at (0, 0).
    let mut e = emu_with(&[0xA0, 0x05, 0xD0, 0x05]);
    e.tick().unwrap();
    e.tick().unwrap();
    // Row 0 of glyph 1 is 0x20: a single pixel in column 2.
    assert!(e.screen[2]);
    assert!(!e.screen[0]);
    // Row 1 is 0x60: pixels in columns 1 and 2.
    assert!(e.screen[64 + 1]);
    assert!(e.screen[64 + 2]);
    assert_eq!(e.v_reg[0xF], 0);
}

/// Drawing the same sprite twice at the same location restores the buffer,
/// and the second draw reports the collision.
#[test]
fn draw_twice_restores_buffer() {
    let mut e = emu_with(&[0xA0, 0x00, 0xD1, 0x25, 0x12, 0x02]);
    e.v_reg[1] = 60;
    e.v_reg[2] = 61;
    e.tick().unwrap();
    let before = e.screen;
    e.tick().unwrap();
    assert!(e.screen.iter().any(|p| *p));
    assert_eq!(e.v_reg[0xF], 0);
    // Jump back and draw again at the same spot.
    e.tick().unwrap();
    e.tick().unwrap();
    assert_eq!(e.screen, before);
    assert_eq!(e.v_reg[0xF], 1);
}

#[test]
fn draw_wraps_around_the_edges() {
    // Glyph rows at I = 0 start with 0xF0: four pixels wide. Drawn at
    // (62, 63) they wrap to columns 62, 63, 0, 1 of the last row, and
    // later rows wrap back to the top of the screen.
    let mut e = emu_with(&[0xA0, 0x00, 0xD1, 0x22]);
    e.v_reg[1] = 62;
    e.v_reg[2] = 63;
    e.tick().unwrap();
    e.tick().unwrap();
    assert!(e.screen[63 * 64 + 62]);
    assert!(e.screen[63 * 64 + 63]);
    assert!(e.screen[63 * 64 + 0]);
    assert!(e.screen[63 * 64 + 1]);
    // Second sprite row (0x90) lands on row 0: bits in columns 0 and 3.
    assert!(e.screen[62]);
    assert!(!e.screen[63]);
    assert!(!e.screen[0]);
    assert!(e.screen[1]);
}

#[test]
fn draw_past_end_of_memory_faults() {
    let mut e = emu_with(&[0xAF, 0xFF, 0xD0, 0x02]);
    e.tick().unwrap();
    assert_eq!(e.tick(), Err(Chip8Error::MemoryOutOfBounds));
}

#[test]
fn clear_screen_resets_every_pixel() {
    let mut e = emu_with(&[0xA0, 0x00, 0xD0, 0x05, 0x00, 0xE0]);
    e.tick().unwrap();
    e.tick().unwrap();
    assert!(e.screen.iter().any(|p| *p));
    e.tick().unwrap();
    assert!(e.screen.iter().all(|p| !p));
}

/// After arbitrary execution, reset yields a state identical to a freshly
/// constructed instance.
#[test]
fn reset_matches_fresh_instance() {
    let mut e = emu_with(&[0x60, 0xC8, 0x61, 0x64, 0x80, 0x14, 0xA0, 0x00, 0xD0, 0x15, 0x22,
        0x10]);
    for _ in 0..6 {
        e.tick().unwrap();
    }
    e.set_key(7, true).unwrap();
    e.tick_timers();
    e.reset();
    let fresh = EMU::new();
    assert!(same_state(&e, &fresh));
    // Reset is idempotent.
    e.reset();
    assert!(same_state(&e, &fresh));
}

#[test]
fn empty_program_loads_but_first_tick_faults() {
    let mut e = EMU::new();
    assert_eq!(e.load(&[]), Ok(()));
    let fresh = EMU::new();
    assert!(same_state(&e, &fresh));
    // The word at the start address is 0x0000, which no table row matches.
    assert_eq!(e.tick(), Err(Chip8Error::UnimplementedOpcode));
}

#[test]
fn draw_with_zero_rows_changes_nothing() {
    let mut e = emu_with(&[0xA0, 0x00, 0xD0, 0x00]);
    e.tick().unwrap();
    e.tick().unwrap();
    assert!(e.screen.iter().all(|p| !p));
    assert_eq!(e.v_reg[0xF], 0);
}

#[test]
fn store_zero_registers_writes_nothing() {
    let mut e = emu_with(&[0xA3, 0x00, 0xF0, 0x55]);
    e.ram[0x300] = 0x5A;
    e.tick().unwrap();
    e.tick().unwrap();
    assert_eq!(e.ram[0x300], 0x5A);
}

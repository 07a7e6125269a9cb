use chip8::chip8::Chip8;
use chip8::semantics::Fault;

fn pixel(c: &Chip8, x: usize, y: usize) -> u8 {
    c.screen[y * 64 + x]
}

#[test]
fn init_state() {
    let c = Chip8::init();
    assert_eq!(c.pc, 0x200);
    assert_eq!(c.memory.len(), 4092);
    assert_eq!(c.registers.len(), 16);
    assert_eq!(c.screen.len(), 64 * 32);
    assert_eq!(c.keys.len(), 16);
    assert_eq!(c.index, 0);
    assert_eq!(c.delay_timer, 0);
    assert_eq!(c.sound_timer, 0);
    assert!(c.stack.is_empty());
    // glyph table: first byte of "0", first byte of "1", last byte of "F"
    assert_eq!(c.memory[0], 0xF0);
    assert_eq!(c.memory[5], 0x20);
    assert_eq!(c.memory[79], 0x80);
    // everything after the glyphs is zero
    assert!(c.memory[80..].iter().all(|&b| b == 0));
    assert!(c.screen.iter().all(|&p| p == 0));
}

#[test]
fn load_rom_copies() {
    let mut c = Chip8::init();
    c.load_rom(&[1, 2, 3]);
    assert_eq!(&c.memory[0x200..0x203], &[1, 2, 3]);
    assert_eq!(c.memory[0x203], 0);
    assert_eq!(c.memory[0x1FF], 0);
}

#[test]
fn load_rom_truncates_long_image() {
    let mut c = Chip8::init();
    let rom = vec![0xAB; 5000];
    c.load_rom(&rom);
    assert_eq!(c.memory.len(), 4092);
    assert_eq!(c.memory[0x200], 0xAB);
    assert_eq!(c.memory[4091], 0xAB);
    // bytes below the ROM window untouched
    assert_eq!(c.memory[0], 0xF0);
}

#[test]
fn load_rom_empty() {
    let mut c = Chip8::init();
    c.load_rom(&[]);
    assert!(c.memory[0x200..].iter().all(|&b| b == 0));
}

#[test]
fn set_imm_and_copy() {
    let mut c = Chip8::init();
    assert!(c.execute_instruction(0x6012).is_ok());
    assert_eq!(c.registers[0], 0x12);
    assert_eq!(c.pc, 0x202);
    assert!(c.execute_instruction(0x8100).is_ok());
    assert_eq!(c.registers[1], 0x12);
}

#[test]
fn add_imm_wraps_without_flag() {
    let mut c = Chip8::init();
    c.execute_instruction(0x60FF).unwrap();
    c.registers[15] = 7;
    c.execute_instruction(0x7002).unwrap();
    assert_eq!(c.registers[0], 1);
    // 7xkk sets no flag
    assert_eq!(c.registers[15], 7);
}

#[test]
fn add_regs_carry() {
    let mut c = Chip8::init();
    c.execute_instruction(0x60C8).unwrap(); // V0 = 200
    c.execute_instruction(0x6164).unwrap(); // V1 = 100
    c.execute_instruction(0x8014).unwrap();
    assert_eq!(c.registers[0], 44); // 300 mod 256
    assert_eq!(c.registers[15], 1);
}

#[test]
fn add_regs_no_carry() {
    let mut c = Chip8::init();
    c.execute_instruction(0x6001).unwrap();
    c.execute_instruction(0x6102).unwrap();
    c.execute_instruction(0x8014).unwrap();
    assert_eq!(c.registers[0], 3);
    assert_eq!(c.registers[15], 0);
}

#[test]
fn sub_regs_underflow_wraps() {
    let mut c = Chip8::init();
    c.execute_instruction(0x6005).unwrap(); // V0 = 5
    c.execute_instruction(0x610A).unwrap(); // V1 = 10
    c.execute_instruction(0x8015).unwrap();
    assert_eq!(c.registers[0], 251); // (5 - 10) mod 256
    assert_eq!(c.registers[15], 0); // borrow
}

#[test]
fn sub_regs_no_borrow() {
    let mut c = Chip8::init();
    c.execute_instruction(0x600A).unwrap();
    c.execute_instruction(0x6105).unwrap();
    c.execute_instruction(0x8015).unwrap();
    assert_eq!(c.registers[0], 5);
    assert_eq!(c.registers[15], 1);
}

#[test]
fn or_and_xor() {
    let mut c = Chip8::init();
    c.execute_instruction(0x60F0).unwrap();
    c.execute_instruction(0x610F).unwrap();
    c.execute_instruction(0x8011).unwrap();
    assert_eq!(c.registers[0], 0xFF);
    c.execute_instruction(0x8012).unwrap();
    assert_eq!(c.registers[0], 0x0F);
    c.execute_instruction(0x8013).unwrap();
    assert_eq!(c.registers[0], 0x00);
}

#[test]
fn shr_keeps_low_bit_in_vf() {
    let mut c = Chip8::init();
    c.execute_instruction(0x6007).unwrap();
    c.execute_instruction(0x8016).unwrap();
    assert_eq!(c.registers[0], 3);
    assert_eq!(c.registers[15], 1);
    c.execute_instruction(0x8016).unwrap();
    assert_eq!(c.registers[0], 1);
    assert_eq!(c.registers[15], 1);
    c.execute_instruction(0x8016).unwrap();
    assert_eq!(c.registers[0], 0);
    assert_eq!(c.registers[15], 1);
}

#[test]
fn skip_eq_advances_4_when_equal() {
    let mut c = Chip8::init();
    c.execute_instruction(0x6042).unwrap(); // pc 0x202
    c.execute_instruction(0x3042).unwrap(); // equal: +4
    assert_eq!(c.pc, 0x206);
    c.execute_instruction(0x3043).unwrap(); // not equal: +2
    assert_eq!(c.pc, 0x208);
}

#[test]
fn skip_ne_advances_4_when_different() {
    let mut c = Chip8::init();
    c.execute_instruction(0x6042).unwrap(); // pc 0x202
    c.execute_instruction(0x4043).unwrap(); // different: +4
    assert_eq!(c.pc, 0x206);
    c.execute_instruction(0x4042).unwrap(); // equal: +2
    assert_eq!(c.pc, 0x208);
}

#[test]
fn jump_sets_pc() {
    let mut c = Chip8::init();
    c.execute_instruction(0x1234).unwrap();
    assert_eq!(c.pc, 0x234);
}

#[test]
fn set_index() {
    let mut c = Chip8::init();
    c.execute_instruction(0xA123).unwrap();
    assert_eq!(c.index, 0x123);
}

#[test]
fn add_index() {
    let mut c = Chip8::init();
    c.execute_instruction(0xA123).unwrap();
    c.execute_instruction(0x6010).unwrap();
    c.execute_instruction(0xF01E).unwrap();
    assert_eq!(c.index, 0x133);
}

#[test]
fn glyph_address_is_digit_times_5() {
    let mut c = Chip8::init();
    c.execute_instruction(0x600A).unwrap(); // V0 = 0xA
    c.execute_instruction(0xF029).unwrap();
    assert_eq!(c.index, 50);
}

#[test]
fn bcd_of_156() {
    let mut c = Chip8::init();
    c.execute_instruction(0x609C).unwrap(); // V0 = 156
    c.execute_instruction(0xA300).unwrap();
    c.execute_instruction(0xF033).unwrap();
    assert_eq!(&c.memory[0x300..0x303], &[1, 5, 6]);
}

#[test]
fn load_registers_from_memory() {
    let mut c = Chip8::init();
    // I = 0: the glyph table for "0" starts there
    c.execute_instruction(0xF265).unwrap();
    assert_eq!(c.registers[0], 0xF0);
    assert_eq!(c.registers[1], 0x90);
    assert_eq!(c.registers[2], 0x90);
    assert_eq!(c.registers[3], 0);
}

#[test]
fn draw_on_clear_screen_reproduces_sprite() {
    let mut c = Chip8::init();
    // glyph "0" at address 0: rows F0 90 90 90 F0, drawn at (0, 0)
    c.execute_instruction(0xD015).unwrap();
    assert_eq!(c.registers[15], 0);
    let rows = [0xF0u8, 0x90, 0x90, 0x90, 0xF0];
    for (y, row) in rows.iter().enumerate() {
        for b in 0..8 {
            let expected = (row >> (7 - b)) & 1;
            assert_eq!(pixel(&c, b, y), expected);
        }
    }
    // pixels outside the sprite stay clear
    assert_eq!(pixel(&c, 8, 0), 0);
    assert_eq!(pixel(&c, 0, 5), 0);
}

#[test]
fn draw_twice_erases_and_reports_collision() {
    let mut c = Chip8::init();
    c.execute_instruction(0xD015).unwrap();
    assert_eq!(c.registers[15], 0);
    c.execute_instruction(0xD015).unwrap();
    assert_eq!(c.registers[15], 1);
    assert!(c.screen.iter().all(|&p| p == 0));
}

#[test]
fn draw_wraps_around_both_edges() {
    let mut c = Chip8::init();
    c.execute_instruction(0x603E).unwrap(); // V0 = 62
    c.execute_instruction(0x611F).unwrap(); // V1 = 31
    c.execute_instruction(0xA000).unwrap(); // I = 0, glyph "0"
    c.execute_instruction(0xD012).unwrap(); // two rows at (62, 31)
    // row 0 (0xF0) at y = 31: bits at x 62 63 0 1 set
    assert_eq!(pixel(&c, 62, 31), 1);
    assert_eq!(pixel(&c, 63, 31), 1);
    assert_eq!(pixel(&c, 0, 31), 1);
    assert_eq!(pixel(&c, 1, 31), 1);
    assert_eq!(pixel(&c, 2, 31), 0);
    // row 1 (0x90) wraps to y = 0: bits at x 62 and 1
    assert_eq!(pixel(&c, 62, 0), 1);
    assert_eq!(pixel(&c, 63, 0), 0);
    assert_eq!(pixel(&c, 0, 0), 0);
    assert_eq!(pixel(&c, 1, 0), 1);
}

#[test]
fn clear_screen() {
    let mut c = Chip8::init();
    c.execute_instruction(0xD015).unwrap();
    assert!(c.screen.iter().any(|&p| p == 1));
    let pc = c.pc;
    c.execute_instruction(0x00E0).unwrap();
    assert!(c.screen.iter().all(|&p| p == 0));
    assert_eq!(c.pc, pc + 2);
}

#[test]
fn call_executes_first_target_instruction_in_same_step() {
    let mut c = Chip8::init();
    c.memory[0x300] = 0x60; // V0 := 0x55 at the call target
    c.memory[0x301] = 0x55;
    c.execute_instruction(0x2300).unwrap();
    assert_eq!(c.stack, vec![0x200]);
    assert_eq!(c.registers[0], 0x55);
    assert_eq!(c.pc, 0x302);
}

#[test]
fn call_then_return_restores_pc_after_call() {
    let mut c = Chip8::init();
    c.memory[0x300] = 0x60; // V0 := 0 at the call target
    c.memory[0x301] = 0x00;
    c.execute_instruction(0x2300).unwrap();
    c.execute_instruction(0x00EE).unwrap();
    assert_eq!(c.pc, 0x202);
    assert!(c.stack.is_empty());
}

#[test]
fn call_return_to_depth_16() {
    let mut c = Chip8::init();
    c.memory[0x300] = 0x60; // V0 := 0 at the call target
    c.memory[0x301] = 0x00;
    let mut expected_returns = Vec::new();
    for _ in 0..16 {
        expected_returns.push(c.pc);
        c.execute_instruction(0x2300).unwrap();
    }
    assert_eq!(c.stack.len(), 16);
    for depth in (0..16).rev() {
        c.execute_instruction(0x00EE).unwrap();
        assert_eq!(c.pc, expected_returns[depth] + 2);
        assert_eq!(c.stack.len(), depth);
    }
}

#[test]
fn nested_call_only_jumps() {
    let mut c = Chip8::init();
    // the call target's first instruction is itself a call
    c.memory[0x300] = 0x23;
    c.memory[0x301] = 0x04;
    c.execute_instruction(0x2300).unwrap();
    assert_eq!(c.stack, vec![0x200, 0x300]);
    assert_eq!(c.pc, 0x304);
}

#[test]
fn timers_tick_down_and_floor_at_zero() {
    let mut c = Chip8::init();
    c.execute_instruction(0x6002).unwrap(); // V0 = 2
    c.execute_instruction(0xF015).unwrap(); // delay = 2
    c.execute_instruction(0xF018).unwrap(); // sound = 2
    c.tick_delay_timer();
    assert_eq!(c.delay_timer, 1);
    c.execute_instruction(0xF107).unwrap(); // V1 = delay
    assert_eq!(c.registers[1], 1);
    c.tick_delay_timer();
    c.tick_delay_timer();
    assert_eq!(c.delay_timer, 0);
    c.tick_sound_timer();
    c.tick_sound_timer();
    c.tick_sound_timer();
    assert_eq!(c.sound_timer, 0);
}

#[test]
fn wait_key_blocks_until_pressed() {
    let mut c = Chip8::init();
    c.execute_instruction(0xF00A).unwrap();
    assert_eq!(c.pc, 0x200); // no key: no progress
    c.execute_instruction(0xF00A).unwrap();
    assert_eq!(c.pc, 0x200);
    c.set_key(7, true);
    c.set_key(3, true);
    c.execute_instruction(0xF00A).unwrap();
    assert_eq!(c.registers[0], 3); // lowest pressed index
    assert_eq!(c.pc, 0x202);
}

#[test]
fn skip_on_key_state() {
    let mut c = Chip8::init();
    c.execute_instruction(0x6004).unwrap(); // V0 = 4, pc 0x202
    c.set_key(4, true);
    c.execute_instruction(0xE09E).unwrap(); // pressed: +4
    assert_eq!(c.pc, 0x206);
    c.execute_instruction(0xE0A1).unwrap(); // pressed: +2
    assert_eq!(c.pc, 0x208);
    c.set_key(4, false);
    c.execute_instruction(0xE09E).unwrap(); // released: +2
    assert_eq!(c.pc, 0x20A);
    c.execute_instruction(0xE0A1).unwrap(); // released: +4
    assert_eq!(c.pc, 0x20E);
}

#[test]
fn random_with_zero_mask_is_zero() {
    let mut c = Chip8::init();
    c.registers[0] = 0xFF;
    c.execute_instruction(0xC000).unwrap();
    assert_eq!(c.registers[0], 0);
    c.execute_instruction(0xC10F).unwrap();
    assert!(c.registers[1] <= 0x0F);
}

#[test]
fn unknown_opcode_halts_without_corrupting_state() {
    let mut c = Chip8::init();
    c.execute_instruction(0x6012).unwrap();
    let pc = c.pc;
    let regs = c.registers.clone();
    let mem = c.memory.clone();
    for &op in &[0x5123u16, 0x9120, 0x8017, 0x801E, 0xB123, 0xF055, 0x0123, 0xE000, 0xF099] {
        assert_eq!(c.execute_instruction(op), Err(Fault::UnknownOpcode(op)));
        assert_eq!(c.pc, pc);
        assert_eq!(c.registers, regs);
        assert_eq!(c.memory, mem);
    }
}

#[test]
fn return_with_empty_stack_faults() {
    let mut c = Chip8::init();
    assert_eq!(c.execute_instruction(0x00EE), Err(Fault::EmptyStack));
}

#[test]
fn fetch_outside_memory_faults() {
    let mut c = Chip8::init();
    c.execute_instruction(0x1FFE).unwrap(); // jump to 0xFFE, past memory end
    assert_eq!(c.emulate_cycle(), Err(Fault::PcOutOfRange));
    assert_eq!(c.pc, 0xFFE);
}

#[test]
fn memory_faults_from_high_index() {
    let mut c = Chip8::init();
    c.execute_instruction(0xAFFF).unwrap(); // I = 0xFFF
    assert_eq!(c.execute_instruction(0xF033), Err(Fault::MemOutOfRange));
    assert_eq!(c.execute_instruction(0xD011), Err(Fault::MemOutOfRange));
    assert_eq!(c.execute_instruction(0xFF65), Err(Fault::MemOutOfRange));
}

#[test]
fn key_index_out_of_range_faults() {
    let mut c = Chip8::init();
    c.execute_instruction(0x6014).unwrap(); // V0 = 20
    assert_eq!(c.execute_instruction(0xE09E), Err(Fault::KeyOutOfRange));
    assert_eq!(c.execute_instruction(0xE0A1), Err(Fault::KeyOutOfRange));
}

#[test]
fn glyph_digit_out_of_range_faults() {
    let mut c = Chip8::init();
    c.execute_instruction(0x6014).unwrap(); // V0 = 20
    assert_eq!(c.execute_instruction(0xF029), Err(Fault::DigitOutOfRange));
}

#[test]
fn emulate_cycle_runs_program_from_memory() {
    let mut c = Chip8::init();
    c.load_rom(&[0x60, 0x2A, 0x70, 0x01]);
    c.emulate_cycle().unwrap();
    assert_eq!(c.registers[0], 0x2A);
    c.emulate_cycle().unwrap();
    assert_eq!(c.registers[0], 0x2B);
    assert_eq!(c.pc, 0x204);
}

use chip8_core::machine::Chip8;
use chip8_core::model::Chip8Error;
use chip8_core::to_0rgb;

fn machine_with(program: &[u8]) -> Chip8 {
    let mut chip = Chip8::new();
    chip.load_program(&program.to_vec()).unwrap();
    chip
}

#[test]
fn new_machine_state() {
    let chip = Chip8::new();
    assert_eq!(chip.pc, 0x200);
    assert_eq!(chip.v, vec![0u8; 16]);
    assert_eq!(chip.mem.len(), 4096);
    assert!(chip.stack.is_empty());
    assert_eq!(chip.framebuffer, vec![0u8; 64 * 32]);
    assert_eq!(chip.i, 0);
    assert_eq!(chip.keys, vec![false; 16]);
    assert_eq!(chip.delay_timer, 0);
    assert_eq!(chip.sound_timer, 0);
    assert!(!chip.draw);
    // The font table is resident at address 0: glyph 0 and glyph F.
    assert_eq!(&chip.mem[0..5], &[0xF0, 0x90, 0x90, 0x90, 0xF0]);
    assert_eq!(&chip.mem[75..80], &[0xF0, 0x80, 0xF0, 0x80, 0x80]);
    assert_eq!(&chip.mem[80..85], &[0, 0, 0, 0, 0]);
}

#[test]
fn load_program_places_bytes() {
    let chip = machine_with(&[0x60, 0x05, 0x61, 0x03]);
    assert_eq!(&chip.mem[0x200..0x204], &[0x60, 0x05, 0x61, 0x03]);
    assert_eq!(chip.mem[0x204], 0);
    // The font area is untouched.
    assert_eq!(&chip.mem[0..5], &[0xF0, 0x90, 0x90, 0x90, 0xF0]);
}

#[test]
fn load_program_too_large() {
    let mut chip = Chip8::new();
    let big = vec![0u8; 4096 - 0x200 + 1];
    assert_eq!(chip.load_program(&big), Err(Chip8Error::ProgramTooLarge { len: 3585 }));
    // Nothing was written.
    assert_eq!(chip.mem[0x200], 0);
    let exact = vec![0xAAu8; 4096 - 0x200];
    assert_eq!(chip.load_program(&exact), Ok(()));
    assert_eq!(chip.mem[4095], 0xAA);
}

#[test]
fn add_with_carry() {
    // V0 := 200, V1 := 100, V0 += V1: 300 mod 256 = 44 with carry.
    let mut chip = machine_with(&[0x60, 0xC8, 0x61, 0x64, 0x80, 0x14]);
    for _ in 0..3 {
        chip.execute_cycle().unwrap();
    }
    assert_eq!(chip.v[0], 44);
    assert_eq!(chip.v[0xF], 1);
}

#[test]
fn add_without_carry() {
    let mut chip = machine_with(&[0x60, 0x05, 0x61, 0x03, 0x80, 0x14]);
    for _ in 0..3 {
        chip.execute_cycle().unwrap();
    }
    assert_eq!(chip.v[0], 8);
    assert_eq!(chip.v[0xF], 0);
}

#[test]
fn end_to_end_three_steps() {
    // 6005, 6103, 8014: V0 == 8, VF == 0, PC advanced by 6.
    let mut chip = machine_with(&[0x60, 0x05, 0x61, 0x03, 0x80, 0x14]);
    for _ in 0..3 {
        chip.execute_cycle().unwrap();
    }
    assert_eq!(chip.v[0], 8);
    assert_eq!(chip.v[0xF], 0);
    assert_eq!(chip.pc, 0x200 + 6);
}

#[test]
fn sub_with_borrow_flag() {
    // V0 := 5, V1 := 3, V0 -= V1: no borrow, VF = 1.
    let mut chip = machine_with(&[0x60, 0x05, 0x61, 0x03, 0x80, 0x15]);
    for _ in 0..3 {
        chip.execute_cycle().unwrap();
    }
    assert_eq!(chip.v[0], 2);
    assert_eq!(chip.v[0xF], 1);
    // V0 := 3, V1 := 5, V0 -= V1: borrow, VF = 0, wrapped difference.
    let mut chip = machine_with(&[0x60, 0x03, 0x61, 0x05, 0x80, 0x15]);
    for _ in 0..3 {
        chip.execute_cycle().unwrap();
    }
    assert_eq!(chip.v[0], 254);
    assert_eq!(chip.v[0xF], 0);
}

#[test]
fn shift_right_reads_vy() {
    // V1 := 0b1011, V0 := V1 >> 1 with VF = old low bit; V1 unchanged.
    let mut chip = machine_with(&[0x61, 0x0B, 0x80, 0x16]);
    for _ in 0..2 {
        chip.execute_cycle().unwrap();
    }
    assert_eq!(chip.v[0], 0b101);
    assert_eq!(chip.v[0xF], 1);
    assert_eq!(chip.v[1], 0b1011);
}

#[test]
fn shift_left_reads_vy() {
    // V1 := 0b1000_0001, V0 := V1 << 1 with VF = old top bit; V1 unchanged.
    let mut chip = machine_with(&[0x61, 0x81, 0x80, 0x1E]);
    for _ in 0..2 {
        chip.execute_cycle().unwrap();
    }
    assert_eq!(chip.v[0], 0b10);
    assert_eq!(chip.v[0xF], 1);
    assert_eq!(chip.v[1], 0x81);
}

#[test]
fn assignment_to_vf_is_ordinary() {
    // 6F2A writes VF like any register: no flag logic intercepts it.
    let mut chip = machine_with(&[0x6F, 0x2A]);
    chip.execute_cycle().unwrap();
    assert_eq!(chip.v[0xF], 0x2A);
}

#[test]
fn random_masked_to_zero() {
    // C000 masks the random byte with 0: V0 must be 0 whatever was drawn.
    let mut chip = machine_with(&[0xC0, 0x00]);
    chip.v[0] = 0x77;
    chip.execute_cycle().unwrap();
    assert_eq!(chip.v[0], 0);
}

#[test]
fn random_injected_byte_is_masked() {
    // With the random byte supplied, CXNN is deterministic: 0xAB & 0x0F.
    let mut chip = machine_with(&[0xC0, 0x0F]);
    chip.execute_cycle_with(0xAB).unwrap();
    assert_eq!(chip.v[0], 0x0B);
}

#[test]
fn clear_screen_and_redraw_flag() {
    // Draw the glyph "0" (I = 0) at (0, 0), then clear.
    let mut chip = machine_with(&[0xA0, 0x00, 0xD0, 0x05, 0x00, 0xE0, 0x61, 0x01]);
    chip.execute_cycle().unwrap();
    assert!(!chip.draw);
    chip.execute_cycle().unwrap();
    assert!(chip.draw);
    assert_eq!(chip.framebuffer[0], 1);
    chip.execute_cycle().unwrap();
    // The clear leaves an all-zero framebuffer and no redraw request...
    assert!(!chip.draw);
    assert!(chip.framebuffer.iter().all(|&p| p == 0));
    // ...and the flag stays down through a non-draw instruction.
    chip.execute_cycle().unwrap();
    assert!(!chip.draw);
}

#[test]
fn draw_twice_restores_framebuffer() {
    // The glyph "8" at (3, 2), twice.
    let mut chip = machine_with(&[0xA0, 0x28, 0x60, 0x03, 0x61, 0x02, 0xD0, 0x15, 0xD0, 0x15]);
    for _ in 0..3 {
        chip.execute_cycle().unwrap();
    }
    let before = chip.framebuffer.clone();
    chip.execute_cycle().unwrap();
    assert!(chip.draw);
    assert_eq!(chip.v[0xF], 0);
    assert_ne!(chip.framebuffer, before);
    chip.execute_cycle().unwrap();
    assert!(chip.draw);
    // Every on bit of the second draw hit a pixel the first turned on.
    assert_eq!(chip.v[0xF], 1);
    assert_eq!(chip.framebuffer, before);
}

#[test]
fn sprite_wraps_at_edges() {
    // An 8x2 all-ones sprite at (60, 30): columns wrap to x = 0..3, and the
    // second row lands on y = 31.
    let mut chip = machine_with(&[0x60, 0x3C, 0x61, 0x1E, 0xA3, 0x00, 0xD0, 0x12]);
    chip.mem[0x300] = 0xFF;
    chip.mem[0x301] = 0xFF;
    for _ in 0..4 {
        chip.execute_cycle().unwrap();
    }
    for row in [30usize, 31] {
        for x in [60usize, 61, 62, 63, 0, 1, 2, 3] {
            assert_eq!(chip.framebuffer[x + row * 64], 1, "pixel ({x}, {row})");
        }
        for x in [4usize, 59] {
            assert_eq!(chip.framebuffer[x + row * 64], 0, "pixel ({x}, {row})");
        }
    }
    assert_eq!(chip.v[0xF], 0);

    // Anchored at (60, 31) the second row wraps to y = 0.
    let mut chip = machine_with(&[0x60, 0x3C, 0x61, 0x1F, 0xA3, 0x00, 0xD0, 0x12]);
    chip.mem[0x300] = 0xFF;
    chip.mem[0x301] = 0xFF;
    for _ in 0..4 {
        chip.execute_cycle().unwrap();
    }
    assert_eq!(chip.framebuffer[60 + 31 * 64], 1);
    assert_eq!(chip.framebuffer[0 + 31 * 64], 1);
    assert_eq!(chip.framebuffer[60], 1);
    assert_eq!(chip.framebuffer[0], 1);
}

#[test]
fn store_load_round_trip() {
    // V0..=V2 := 7, 8, 9; I := 0x300; store; I := 0x300; load; registers and
    // both I advances by x + 1.
    let mut chip = machine_with(&[
        0x60, 0x07, 0x61, 0x08, 0x62, 0x09, 0xA3, 0x00, 0xF2, 0x55, 0xA3, 0x00, 0xF2, 0x65,
    ]);
    for _ in 0..5 {
        chip.execute_cycle().unwrap();
    }
    assert_eq!(&chip.mem[0x300..0x303], &[7, 8, 9]);
    assert_eq!(chip.i, 0x303);
    // Scramble the registers, then load them back.
    chip.v[0] = 0;
    chip.v[1] = 0;
    chip.v[2] = 0;
    for _ in 0..2 {
        chip.execute_cycle().unwrap();
    }
    assert_eq!(&chip.v[0..3], &[7, 8, 9]);
    assert_eq!(chip.i, 0x303);
}

#[test]
fn bcd_of_234() {
    // V0 := 234; I := 0x300; FX33 writes 2, 3, 4.
    let mut chip = machine_with(&[0x60, 0xEA, 0xA3, 0x00, 0xF0, 0x33]);
    for _ in 0..3 {
        chip.execute_cycle().unwrap();
    }
    assert_eq!(chip.mem[0x300], 2);
    assert_eq!(chip.mem[0x301], 3);
    assert_eq!(chip.mem[0x302], 4);
}

#[test]
fn return_on_empty_stack_fails() {
    let mut chip = machine_with(&[0x00, 0xEE]);
    assert_eq!(chip.execute_cycle(), Err(Chip8Error::StackUnderflow));
    // The machine made no progress.
    assert_eq!(chip.pc, 0x200);
}

#[test]
fn call_and_return() {
    // 2nnn pushes the return address; 00EE pops it.
    let mut chip = machine_with(&[0x23, 0x00]);
    chip.mem[0x300] = 0x00;
    chip.mem[0x301] = 0xEE;
    chip.execute_cycle().unwrap();
    assert_eq!(chip.pc, 0x300);
    assert_eq!(chip.stack, vec![0x202]);
    chip.execute_cycle().unwrap();
    assert_eq!(chip.pc, 0x202);
    assert!(chip.stack.is_empty());
}

#[test]
fn wait_key_blocks_then_consumes() {
    let mut chip = machine_with(&[0xF0, 0x0A]);
    for _ in 0..3 {
        chip.execute_cycle().unwrap();
        assert_eq!(chip.pc, 0x200);
    }
    chip.keys[7] = true;
    chip.execute_cycle().unwrap();
    assert_eq!(chip.pc, 0x202);
    assert_eq!(chip.v[0], 7);
    assert!(!chip.keys[7]);
}

#[test]
fn skip_if_key_consumes_flag() {
    // EX9E with the key pressed: skip and clear the flag.
    let mut chip = machine_with(&[0x60, 0x05, 0xE0, 0x9E]);
    chip.keys[5] = true;
    for _ in 0..2 {
        chip.execute_cycle().unwrap();
    }
    assert_eq!(chip.pc, 0x206);
    assert!(!chip.keys[5]);
    // EXA1 with the key not pressed: skip, flags untouched.
    let mut chip = machine_with(&[0x60, 0x05, 0xE0, 0xA1]);
    for _ in 0..2 {
        chip.execute_cycle().unwrap();
    }
    assert_eq!(chip.pc, 0x206);
}

#[test]
fn key_out_of_range_fails() {
    let mut chip = machine_with(&[0x60, 0x10, 0xE0, 0x9E]);
    chip.execute_cycle().unwrap();
    assert_eq!(chip.execute_cycle(), Err(Chip8Error::KeyOutOfRange { key: 16 }));
}

#[test]
fn unknown_opcode_fails() {
    let mut chip = machine_with(&[0x50, 0x01]);
    assert_eq!(
        chip.execute_cycle(),
        Err(Chip8Error::UnknownOpcode { opcode: 0x5001, pc: 0x200 })
    );
    let mut chip = machine_with(&[0x80, 0x18]);
    assert_eq!(
        chip.execute_cycle(),
        Err(Chip8Error::UnknownOpcode { opcode: 0x8018, pc: 0x200 })
    );
}

#[test]
fn pc_out_of_range_fails() {
    // Jump to the last byte of memory: no second opcode byte exists there.
    let mut chip = machine_with(&[0x1F, 0xFF]);
    chip.execute_cycle().unwrap();
    assert_eq!(chip.execute_cycle(), Err(Chip8Error::PcOutOfRange { pc: 0xFFF }));
}

#[test]
fn draw_past_memory_fails() {
    // I := 0xFFF, then a 2-row sprite would read past the end of memory.
    let mut chip = machine_with(&[0xAF, 0xFF, 0xD0, 0x02]);
    chip.execute_cycle().unwrap();
    assert_eq!(chip.execute_cycle(), Err(Chip8Error::AddressOutOfRange { addr: 0xFFF }));
}

#[test]
fn store_past_memory_fails() {
    // I := 0xFFF, then storing V0..=V1 would write past the end of memory.
    let mut chip = machine_with(&[0xAF, 0xFF, 0xF1, 0x55]);
    chip.execute_cycle().unwrap();
    assert_eq!(chip.execute_cycle(), Err(Chip8Error::AddressOutOfRange { addr: 0xFFF }));
}

#[test]
fn timers_tick_and_beep() {
    // V0 := 2; sound timer := V0; then two no-op-ish cycles.
    let mut chip = machine_with(&[0x60, 0x02, 0xF0, 0x18, 0x61, 0x00, 0x62, 0x00]);
    assert_eq!(chip.execute_cycle(), Ok(false));
    // The timer is set to 2, then ticked to 1 in the same cycle.
    assert_eq!(chip.execute_cycle(), Ok(false));
    assert_eq!(chip.sound_timer, 1);
    // It stood at 1 at tick time: the beep fires and it reaches 0.
    assert_eq!(chip.execute_cycle(), Ok(true));
    assert_eq!(chip.sound_timer, 0);
    assert_eq!(chip.execute_cycle(), Ok(false));
    assert_eq!(chip.sound_timer, 0);
}

#[test]
fn delay_timer_read_back() {
    // V0 := 3; delay := V0; V1 := delay.
    let mut chip = machine_with(&[0x60, 0x03, 0xF0, 0x15, 0xF1, 0x07]);
    for _ in 0..3 {
        chip.execute_cycle().unwrap();
    }
    // The delay timer ticked once after being set to 3, once more after the
    // read of 2.
    assert_eq!(chip.v[1], 2);
    assert_eq!(chip.delay_timer, 1);
}

#[test]
fn font_address_and_skips() {
    // FX29: I := V0 * 5; then 3XNN skips when equal.
    let mut chip = machine_with(&[0x60, 0x0A, 0xF0, 0x29, 0x30, 0x0A, 0x61, 0x01, 0x62, 0x01]);
    for _ in 0..3 {
        chip.execute_cycle().unwrap();
    }
    assert_eq!(chip.i, 50);
    // The skip jumped over 6101.
    assert_eq!(chip.pc, 0x208);
    chip.execute_cycle().unwrap();
    assert_eq!(chip.v[1], 0);
    assert_eq!(chip.v[2], 1);
}

#[test]
fn address_register_wraps_at_16_bits() {
    // I := 0xFFF, V0 := 0xFF, repeated FX1E additions stay within 16 bits.
    let mut chip = machine_with(&[0xAF, 0xFF, 0x60, 0xFF, 0xF0, 0x1E]);
    for _ in 0..3 {
        chip.execute_cycle().unwrap();
    }
    assert_eq!(chip.i, 0xFFF + 0xFF);
}

#[test]
fn jump_with_offset() {
    // BNNN jumps to NNN + V0.
    let mut chip = machine_with(&[0x60, 0x04, 0xB3, 0x00]);
    for _ in 0..2 {
        chip.execute_cycle().unwrap();
    }
    assert_eq!(chip.pc, 0x304);
}

#[test]
fn pixel_colors() {
    assert_eq!(to_0rgb(&1), 0x00FFFFFF);
    assert_eq!(to_0rgb(&0), 0);
    assert_eq!(to_0rgb(&2), 0);
}

use chip8::cpu::{Error, IndexRegister, PcChange, CPU, FLAG_REGISTER, LOAD_ORIGIN, OPCODE_SIZE,
    REGISTER_AMOUNT, STACK_SIZE};
use chip8::frontend::{ROM, WindowAction};
use chip8::MEMORY_SIZE;

const NO_KEYS: [bool; 16] = [false; 16];

#[test]
fn test_load_then_add_scenario() {
    // load register 0 = 5; load register 1 = 3; add register 1 into register 0
    let mut cpu = CPU::new();
    cpu.load(&[0x60, 0x05, 0x61, 0x03, 0x80, 0x14]);
    for _ in 0..3 {
        let out = cpu.tick(&NO_KEYS);
        assert!(out.error.is_none());
    }
    assert_eq!(cpu.registers[0], 8);
    assert_eq!(cpu.registers[FLAG_REGISTER], 0);
}

#[test]
fn test_return_on_fresh_machine_underflows() {
    let mut cpu = CPU::new();
    cpu.load(&[0x00, 0xEE]);
    let out = cpu.tick(&NO_KEYS);
    assert_eq!(out.error, Some(Error::StackUnderflow));
    assert_eq!(cpu.pc, 0x200);
}

#[test]
fn test_first_tick_executes_at_load_origin() {
    let mut cpu = CPU::new();
    cpu.load(&[0x61, 0x35]);
    assert_eq!(cpu.pc as usize, LOAD_ORIGIN);
    let out = cpu.tick(&NO_KEYS);
    assert!(out.error.is_none());
    assert_eq!(cpu.registers[1], 0x35);
    assert_eq!(cpu.pc as usize, LOAD_ORIGIN + OPCODE_SIZE);
}

#[test]
fn test_clear_screen_marks_frame_changed() {
    let mut cpu = CPU::new();
    cpu.vram = [7; 2048];
    cpu.load(&[0x00, 0xE0]);
    let out = cpu.tick(&NO_KEYS);
    assert!(out.error.is_none());
    assert!(out.vram_changed);
    assert_eq!(out.vram, &[0u8; 2048]);
}

#[test]
fn test_call_then_return_round_trips_pc() {
    let mut cpu = CPU::new();
    cpu.load(&[0x23, 0x00]); // call 0x300
    cpu.memory[0x300] = 0x00; // return
    cpu.memory[0x301] = 0xEE;
    let out = cpu.tick(&NO_KEYS);
    assert!(out.error.is_none());
    assert_eq!(cpu.pc, 0x300);
    assert_eq!(cpu.sp, 1);
    let out = cpu.tick(&NO_KEYS);
    assert!(out.error.is_none());
    assert_eq!(cpu.pc, 0x202);
    assert_eq!(cpu.sp, 0);
}

#[test]
fn test_add_carry_boundary_pairs() {
    let mut cpu = CPU::new();
    cpu.registers[1] = 200;
    cpu.registers[2] = 55;
    cpu.run_opcode(0x8124).unwrap();
    assert_eq!(cpu.registers[1], 255);
    assert_eq!(cpu.registers[FLAG_REGISTER], 0);
    cpu.registers[1] = 200;
    cpu.registers[2] = 56;
    cpu.run_opcode(0x8124).unwrap();
    assert_eq!(cpu.registers[1], 0);
    assert_eq!(cpu.registers[FLAG_REGISTER], 1);
    cpu.registers[1] = 255;
    cpu.registers[2] = 255;
    cpu.run_opcode(0x8124).unwrap();
    assert_eq!(cpu.registers[1], 254);
    assert_eq!(cpu.registers[FLAG_REGISTER], 1);
}

#[test]
fn test_sub_equal_operands_leaves_no_borrow() {
    let mut cpu = CPU::new();
    cpu.registers[1] = 0x20;
    cpu.registers[2] = 0x20;
    cpu.run_opcode(0x8125).unwrap();
    assert_eq!(cpu.registers[1], 0);
    assert_eq!(cpu.registers[FLAG_REGISTER], 1);
    cpu.registers[1] = 0x10;
    cpu.registers[2] = 0x20;
    cpu.run_opcode(0x8125).unwrap();
    assert_eq!(cpu.registers[1], 0xF0);
    assert_eq!(cpu.registers[FLAG_REGISTER], 0);
}

#[test]
fn test_draw_twice_restores_framebuffer_and_collides() {
    let mut cpu = CPU::new();
    cpu.i.value = 0x300;
    cpu.memory[0x300] = 0xFF;
    cpu.registers[0] = 3; // column
    cpu.registers[1] = 5; // row
    cpu.run_opcode(0xD011).unwrap();
    assert_eq!(cpu.registers[FLAG_REGISTER], 0);
    for col in 0..8 {
        assert_eq!(cpu.vram[5 * 64 + 3 + col], 1);
    }
    cpu.run_opcode(0xD011).unwrap();
    assert_eq!(cpu.registers[FLAG_REGISTER], 1);
    assert_eq!(cpu.vram, [0u8; 2048]);
}

#[test]
fn test_draw_wraps_at_screen_edges() {
    let mut cpu = CPU::new();
    cpu.i.value = 0x300;
    cpu.memory[0x300] = 0b10000000;
    cpu.memory[0x301] = 0b10000000;
    cpu.registers[0] = 63; // last column
    cpu.registers[1] = 31; // last row
    cpu.run_opcode(0xD012).unwrap();
    assert_eq!(cpu.vram[31 * 64 + 63], 1); // first row lands at (63, 31)
    assert_eq!(cpu.vram[63], 1); // second row wraps to (63, 0)
    cpu.memory[0x300] = 0b01000000;
    cpu.run_opcode(0xD011).unwrap();
    assert_eq!(cpu.vram[31 * 64], 1); // second column wraps to (0, 31)
}

#[test]
fn test_store_load_round_trip_is_inclusive() {
    for x in 0..REGISTER_AMOUNT {
        let mut cpu = CPU::new();
        for k in 0..16 {
            cpu.registers[k] = (k as u8) + 10;
        }
        cpu.i.value = 0x600;
        let store = 0xF055 | ((x as u16) << 8);
        cpu.run_opcode(store).unwrap();
        assert_eq!(cpu.memory[0x600 + x], (x as u8) + 10);
        let saved = cpu.registers;
        cpu.registers = [0; 16];
        cpu.i.value = 0x600;
        let load = 0xF065 | ((x as u16) << 8);
        cpu.run_opcode(load).unwrap();
        for k in 0..=x {
            assert_eq!(cpu.registers[k], saved[k]);
        }
        for k in (x + 1)..16 {
            assert_eq!(cpu.registers[k], 0);
        }
    }
}

#[test]
fn test_call_overflows_when_stack_is_full() {
    let mut cpu = CPU::new();
    for _ in 0..STACK_SIZE {
        assert!(cpu.run_opcode(0x2300).is_ok());
    }
    assert_eq!(cpu.sp, STACK_SIZE);
    let change = cpu.run_opcode(0x2300);
    assert_eq!(change.unwrap_err(), Error::StackOverflow);
    assert_eq!(cpu.sp, 16);
}

#[test]
fn test_unrecognized_word_is_reported_and_harmless() {
    let mut cpu = CPU::new();
    let change = cpu.run_opcode(0x00E1);
    assert_eq!(change.unwrap_err(), Error::InvalidOpcode(0x00E1));
    // a fresh machine reads the word 0x0000, which matches no pattern
    let out = cpu.tick(&NO_KEYS);
    assert_eq!(out.error, Some(Error::InvalidOpcode(0)));
    assert_eq!(cpu.pc, 0x200);
    let out = cpu.tick(&NO_KEYS);
    assert_eq!(out.error, Some(Error::InvalidOpcode(0)));
}

#[test]
fn test_random_byte_is_masked() {
    let mut cpu = CPU::new();
    cpu.registers[3] = 0xAA;
    cpu.run_opcode(0xC300).unwrap();
    assert_eq!(cpu.registers[3], 0); // a zero mask forces zero
    for _ in 0..32 {
        cpu.run_opcode(0xC30F).unwrap();
        assert_eq!(cpu.registers[3] & 0xF0, 0);
    }
}

#[test]
fn test_wait_for_key_captures_lowest_pressed() {
    let mut cpu = CPU::new();
    cpu.load(&[0xF1, 0x0A]);
    let out = cpu.tick(&NO_KEYS);
    assert!(out.error.is_none());
    assert_eq!(cpu.pc, 0x202);
    assert_eq!(cpu.waiting_for_key_press, Some(1));
    // no key: still suspended, nothing executes
    cpu.tick(&NO_KEYS);
    assert_eq!(cpu.pc, 0x202);
    assert_eq!(cpu.waiting_for_key_press, Some(1));
    let mut keys = [false; 16];
    keys[9] = true;
    keys[4] = true;
    cpu.tick(&keys);
    assert_eq!(cpu.registers[1], 4); // lowest pressed key wins
    assert_eq!(cpu.waiting_for_key_press, None);
    assert_eq!(cpu.pc, 0x202); // the resuming tick executes no instruction
}

#[test]
fn test_delay_timer_counts_down_once_per_tick() {
    let mut cpu = CPU::new();
    cpu.dt = 5;
    cpu.tick(&NO_KEYS);
    assert_eq!(cpu.dt, 4);
    cpu.tick(&NO_KEYS);
    assert_eq!(cpu.dt, 3);
    cpu.dt = 1;
    cpu.tick(&NO_KEYS);
    assert_eq!(cpu.dt, 0);
    cpu.tick(&NO_KEYS);
    assert_eq!(cpu.dt, 0);
}

#[test]
fn test_beep_reads_the_sound_timer() {
    let mut cpu = CPU::new();
    cpu.dt = 5;
    let out = cpu.tick(&NO_KEYS);
    assert!(!out.beep); // the delay timer does not sound the tone
    cpu.st = 3;
    let out = cpu.tick(&NO_KEYS);
    assert!(out.beep);
    assert_eq!(cpu.st, 3); // the sound timer is never counted down
    cpu.st = 0;
    let out = cpu.tick(&NO_KEYS);
    assert!(!out.beep);
}

#[test]
fn test_font_glyphs_installed_at_construction() {
    let cpu = CPU::new();
    assert_eq!(cpu.memory[0], 0xF0); // glyph 0 starts with a full row
    assert_eq!(cpu.memory[4], 0xF0);
    assert_eq!(&cpu.memory[75..80], &[0xF0, 0x80, 0xF0, 0x80, 0x80]); // glyph F
    assert_eq!(cpu.memory[80], 0); // first byte past the glyph table
}

#[test]
fn test_load_truncates_oversized_image() {
    let mut cpu = CPU::new();
    let image = vec![0xABu8; 4000];
    cpu.load(&image);
    assert_eq!(cpu.memory[0x200], 0xAB);
    assert_eq!(cpu.memory[MEMORY_SIZE - 1], 0xAB);
    assert_eq!(cpu.memory[0], 0xF0); // the font region is untouched
}

#[test]
fn test_key_skips_reduce_the_key_index() {
    let mut cpu = CPU::new();
    cpu.keypad[4] = true;
    cpu.registers[2] = 4;
    assert_eq!(cpu.run_opcode(0xE29E).unwrap(), PcChange::Skip);
    assert_eq!(cpu.run_opcode(0xE2A1).unwrap(), PcChange::Increment);
    cpu.registers[2] = 0x14; // only the low four bits pick the key
    assert_eq!(cpu.run_opcode(0xE29E).unwrap(), PcChange::Skip);
    cpu.registers[2] = 5;
    assert_eq!(cpu.run_opcode(0xE29E).unwrap(), PcChange::Increment);
    assert_eq!(cpu.run_opcode(0xE2A1).unwrap(), PcChange::Skip);
}

#[test]
fn test_rom_from_bytes_truncates_and_pads() {
    let rom = ROM::from_bytes(&[1, 2, 3]);
    assert_eq!(rom.size, 3);
    assert_eq!(rom.rom[0], 1);
    assert_eq!(rom.rom[2], 3);
    assert_eq!(rom.rom[3], 0);
    let big = vec![9u8; 4000];
    let rom = ROM::from_bytes(&big);
    assert_eq!(rom.size, 3584);
    assert_eq!(rom.rom[3583], 9);
}

#[test]
fn test_index_register_masks_to_twelve_bits() {
    assert_eq!(IndexRegister::from(0x1234).value, 0x234);
    let (v, overflow) = IndexRegister::from(0xFFF).overflowing_add(1);
    assert_eq!(v.value, 0);
    assert!(overflow);
    let (v, overflow) = IndexRegister::from(10).overflowing_add(5);
    assert_eq!(v.value, 15);
    assert!(!overflow);
}

#[test]
fn test_window_action_compares() {
    assert!(WindowAction::Close == WindowAction::Close);
}

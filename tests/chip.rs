use chip8::chip::Chip;
use chip8::error::C8Err;

const NO_KEYS: [bool; 16] = [false; 16];

fn loaded(program: &[u8]) -> Chip {
    let mut c = Chip::new();
    c.load(program).unwrap();
    c
}

fn run(program: &[u8], cycles: usize) -> Chip {
    let mut c = loaded(program);
    for _ in 0..cycles {
        c.step(&NO_KEYS, 0).unwrap();
    }
    c
}

#[test]
fn power_on_state() {
    let c = Chip::new();
    assert_eq!(c.pc(), 512);
    assert_eq!(c.i(), 0);
    assert_eq!(c.registers(), [0; 16]);
    assert!(c.stack().is_empty());
    assert_eq!(c.delay_timer(), 0);
    assert_eq!(c.sound_timer(), 0);
}

#[test]
fn add_register_to_register_sets_carry() {
    let c = run(&[0x60, 250, 0x61, 10, 0x80, 0x14], 3);
    assert_eq!(c.registers()[0], 4);
    assert_eq!(c.registers()[15], 1);
    let c = run(&[0x60, 1, 0x61, 1, 0x80, 0x14], 3);
    assert_eq!(c.registers()[0], 2);
    assert_eq!(c.registers()[15], 0);
}

#[test]
fn subtract_register_sets_no_borrow_flag() {
    let c = run(&[0x60, 5, 0x61, 3, 0x80, 0x15], 3);
    assert_eq!(c.registers()[0], 2);
    assert_eq!(c.registers()[15], 1);
    let c = run(&[0x60, 3, 0x61, 5, 0x80, 0x15], 3);
    assert_eq!(c.registers()[15], 0);
    assert_eq!(c.registers()[0], 254);
    let c = run(&[0x60, 3, 0x61, 5, 0x80, 0x17], 3);
    assert_eq!(c.registers()[0], 2);
    assert_eq!(c.registers()[15], 1);
}

#[test]
fn flag_is_written_before_a_vf_destination() {
    // 8F04 with VF = 200, V0 = 100: the carry goes to VF first, then the sum.
    let c = run(&[0x6F, 200, 0x60, 100, 0x8F, 0x04], 3);
    assert_eq!(c.registers()[15], 44);
}

#[test]
fn shifts_set_the_bit_shifted_out() {
    let c = run(&[0x60, 5, 0x80, 0x06], 2);
    assert_eq!(c.registers()[0], 2);
    assert_eq!(c.registers()[15], 1);
    let c = run(&[0x60, 0x81, 0x80, 0x0E], 2);
    assert_eq!(c.registers()[0], 0x02);
    assert_eq!(c.registers()[15], 1);
}

#[test]
fn logic_and_immediate_add_wrap() {
    let c = run(&[0x60, 0x0C, 0x61, 0x0A, 0x80, 0x11, 0x82, 0x10, 0x70, 0xFF], 5);
    assert_eq!(c.registers()[0], 0x0D);
    assert_eq!(c.registers()[2], 0x0A);
    assert_eq!(c.registers()[15], 0);
}

#[test]
fn end_to_end_program() {
    let program = [0x00, 0xE0, 0x60, 0x0A, 0xA2, 0x50, 0xD0, 0x05];
    let c = run(&program, 4);
    assert_eq!(c.pc(), 512 + 8);
    assert_eq!(c.registers()[0], 10);
    assert_eq!(c.i(), 0x250);
    // The five bytes at 0x250 are zero, so the region holds no lit cell.
    for y in 0..5 {
        for x in 10..18 {
            assert_eq!(c.screen.get(x, y), Some(false));
        }
    }
    assert_eq!(c.registers()[15], 0);
}

#[test]
fn end_to_end_program_draws_the_bytes_at_i() {
    let mut program = vec![0x00, 0xE0, 0x60, 0x0A, 0xA2, 0x50, 0xD0, 0x15];
    program.resize(0x50, 0);
    program.extend_from_slice(&[0xF0, 0x90, 0x90, 0x90, 0xF1]);
    let c = run(&program, 4);
    let sprite = [0xF0u8, 0x90, 0x90, 0x90, 0xF1];
    for (row, byte) in sprite.iter().enumerate() {
        for col in 0..8 {
            let on = byte & (0x80 >> col) != 0;
            assert_eq!(c.screen.get(10 + col, row), Some(on));
        }
    }
    assert_eq!(c.registers()[15], 0);
}

#[test]
fn call_and_return() {
    let mut c = loaded(&[0x22, 0x04, 0x00, 0x00, 0x00, 0xEE]);
    c.step(&NO_KEYS, 0).unwrap();
    assert_eq!(c.pc(), 0x204);
    assert_eq!(c.stack(), vec![0x202]);
    c.step(&NO_KEYS, 0).unwrap();
    assert_eq!(c.pc(), 0x202);
    assert!(c.stack().is_empty());
}

#[test]
fn return_on_empty_stack_faults_and_keeps_state() {
    let mut c = loaded(&[0x00, 0xEE]);
    assert_eq!(c.step(&NO_KEYS, 0), Err(C8Err::StackUnderflow));
    assert_eq!(c.pc(), 512);
}

#[test]
fn seventeenth_nested_call_overflows() {
    let mut c = loaded(&[0x22, 0x00]);
    for _ in 0..16 {
        assert_eq!(c.step(&NO_KEYS, 0), Ok(()));
    }
    assert_eq!(c.stack().len(), 16);
    assert_eq!(c.step(&NO_KEYS, 0), Err(C8Err::StackOverflow));
    assert_eq!(c.stack().len(), 16);
}

#[test]
fn invalid_instruction_faults() {
    let mut c = loaded(&[0xFF, 0xFF]);
    assert_eq!(c.step(&NO_KEYS, 0), Err(C8Err::InvalidInstruction { word: 0xFFFF }));
    assert_eq!(c.pc(), 512);
}

#[test]
fn fetch_from_reserved_region_faults() {
    let mut c = loaded(&[0x11, 0x00]);
    c.step(&NO_KEYS, 0).unwrap();
    assert_eq!(c.pc(), 0x100);
    assert_eq!(c.step(&NO_KEYS, 0), Err(C8Err::MemoryOutOfRange { address: 0x100 }));
}

#[test]
fn jumps_and_skips() {
    let c = run(&[0x60, 4, 0xB3, 0x00], 2);
    assert_eq!(c.pc(), 0x304);
    let c = run(&[0x60, 4, 0x30, 4], 2);
    assert_eq!(c.pc(), 0x206);
    let c = run(&[0x60, 4, 0x40, 4], 2);
    assert_eq!(c.pc(), 0x204);
    let c = run(&[0x60, 4, 0x61, 4, 0x50, 0x10], 3);
    assert_eq!(c.pc(), 0x208);
    let c = run(&[0x60, 4, 0x61, 4, 0x90, 0x10], 3);
    assert_eq!(c.pc(), 0x206);
}

#[test]
fn bcd_and_block_transfers() {
    let c = run(&[0x60, 234, 0xA3, 0x00, 0xF0, 0x33, 0xF2, 0x65], 4);
    assert_eq!(&c.registers()[0..3], &[2, 3, 4]);
    let c = run(&[0x60, 7, 0x61, 8, 0xA3, 0x00, 0xF1, 0x55, 0x60, 0, 0x61, 0, 0xF1, 0x65], 7);
    assert_eq!(&c.registers()[0..2], &[7, 8]);
}

#[test]
fn block_store_into_reserved_region_faults() {
    let mut c = loaded(&[0xA1, 0x00, 0xF0, 0x55]);
    c.step(&NO_KEYS, 0).unwrap();
    assert_eq!(c.step(&NO_KEYS, 0), Err(C8Err::MemoryOutOfRange { address: 0x100 }));
    let mut c = loaded(&[0xAF, 0xFE, 0xF0, 0x33]);
    c.step(&NO_KEYS, 0).unwrap();
    assert_eq!(c.step(&NO_KEYS, 0), Err(C8Err::MemoryOutOfRange { address: 4096 }));
}

#[test]
fn random_uses_the_given_byte() {
    let mut c = loaded(&[0xC0, 0x0F]);
    c.step(&NO_KEYS, 0xAB).unwrap();
    assert_eq!(c.registers()[0], 0x0B);
}

#[test]
fn cycle_draws_its_own_random_byte() {
    let mut c = loaded(&[0x60, 5, 0xC1, 0x00, 0xC2, 0x0F]);
    c.cycle(&NO_KEYS).unwrap();
    c.cycle(&NO_KEYS).unwrap();
    c.cycle(&NO_KEYS).unwrap();
    assert_eq!(c.registers()[0], 5);
    assert_eq!(c.registers()[1], 0);
    assert!(c.registers()[2] < 16);
    assert_eq!(c.pc(), 0x206);
}

#[test]
fn key_skips_and_wait_for_key() {
    let mut held = [false; 16];
    held[7] = true;
    let mut c = loaded(&[0x60, 7, 0xE0, 0x9E]);
    c.step(&NO_KEYS, 0).unwrap();
    c.step(&held, 0).unwrap();
    assert_eq!(c.pc(), 0x206);
    let mut c = loaded(&[0x60, 7, 0xE0, 0xA1]);
    c.step(&NO_KEYS, 0).unwrap();
    c.step(&NO_KEYS, 0).unwrap();
    assert_eq!(c.pc(), 0x206);
    let mut c = loaded(&[0xF1, 0x0A]);
    c.step(&NO_KEYS, 0).unwrap();
    assert_eq!(c.pc(), 512);
    c.step(&held, 0).unwrap();
    assert_eq!(c.pc(), 514);
    assert_eq!(c.registers()[1], 7);
}

#[test]
fn timers_are_set_read_and_ticked() {
    let mut c = loaded(&[0x60, 3, 0xF0, 0x15, 0xF0, 0x18, 0xF1, 0x07]);
    c.start();
    assert_eq!(c.delay_timer(), 100);
    assert_eq!(c.sound_timer(), 100);
    c.step(&NO_KEYS, 0).unwrap();
    c.step(&NO_KEYS, 0).unwrap();
    c.step(&NO_KEYS, 0).unwrap();
    c.tick_timers();
    assert_eq!(c.delay_timer(), 2);
    assert_eq!(c.sound_timer(), 2);
    c.step(&NO_KEYS, 0).unwrap();
    assert_eq!(c.registers()[1], 2);
    for _ in 0..5 {
        c.tick_timers();
    }
    assert_eq!(c.delay_timer(), 0);
}

#[test]
fn font_glyphs_are_drawable() {
    let mut c = loaded(&[0x00, 0xE0, 0x60, 0x0A, 0xF0, 0x29, 0xD1, 0x25]);
    c.start();
    for _ in 0..4 {
        c.step(&NO_KEYS, 0).unwrap();
    }
    assert_eq!(c.i(), 0x50 + 5 * 0xA);
    let glyph_a = [0xF0u8, 0x90, 0xF0, 0x90, 0x90];
    for (row, byte) in glyph_a.iter().enumerate() {
        for col in 0..8 {
            assert_eq!(c.screen.get(col, row), Some(byte & (0x80 >> col) != 0));
        }
    }
}

#[test]
fn index_register_adds_registers() {
    let c = run(&[0x60, 0x10, 0xA1, 0x00, 0xF0, 0x1E], 3);
    assert_eq!(c.i(), 0x110);
}

#[test]
fn oversized_program_is_refused() {
    let mut c = Chip::new();
    assert_eq!(c.load(&vec![0u8; 3585]), Err(C8Err::MemoryOutOfRange { address: 4096 }));
    assert_eq!(c.load(&vec![0u8; 3584]), Ok(()));
}

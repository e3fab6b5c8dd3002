use chip8::error::C8Err;
use chip8::mem::{Memory, FONT_START, MEMORY_SIZE, PROGRAM_START};

#[test]
fn reserved_region_rejects_reads_and_writes() {
    let mut m = Memory::new();
    for a in 0..PROGRAM_START {
        assert_eq!(m.get(a), Err(C8Err::MemoryOutOfRange { address: a }));
        assert_eq!(m.write(7, a), Err(C8Err::MemoryOutOfRange { address: a }));
    }
}

#[test]
fn last_address_is_reachable_and_the_next_is_not() {
    let mut m = Memory::new();
    assert_eq!(m.write(0xAB, 4095), Ok(()));
    assert_eq!(m.get(4095), Ok(0xAB));
    assert_eq!(m.write(1, 4096), Err(C8Err::MemoryOutOfRange { address: 4096 }));
    assert_eq!(m.get(4096), Err(C8Err::MemoryOutOfRange { address: 4096 }));
    assert_eq!(m.get(512), Ok(0));
}

#[test]
fn font_goes_into_reserved_region() {
    let mut m = Memory::new();
    m.load_font();
    let glyph_zero = m.sprite(FONT_START, 5).unwrap();
    assert_eq!(glyph_zero, vec![0xF0, 0x90, 0x90, 0x90, 0xF0]);
    let glyph_f = m.sprite(FONT_START + 75, 5).unwrap();
    assert_eq!(glyph_f, vec![0xF0, 0x80, 0xF0, 0x80, 0x80]);
    assert_eq!(m.sprite(FONT_START - 1, 1).unwrap(), vec![0]);
    assert_eq!(m.sprite(FONT_START + 80, 1).unwrap(), vec![0]);
}

#[test]
fn sprite_past_the_end_fails() {
    let m = Memory::new();
    assert_eq!(m.sprite(4090, 6).unwrap().len(), 6);
    assert_eq!(m.sprite(4090, 7), Err(C8Err::MemoryOutOfRange { address: 4090 }));
}

#[test]
fn program_loads_at_start_and_oversized_program_is_refused() {
    let mut m = Memory::new();
    assert_eq!(m.load_program(&[1, 2, 3]), Ok(()));
    assert_eq!(m.get(512), Ok(1));
    assert_eq!(m.get(514), Ok(3));
    assert_eq!(m.get(515), Ok(0));
    let full = vec![9u8; MEMORY_SIZE - PROGRAM_START];
    assert_eq!(m.load_program(&full), Ok(()));
    assert_eq!(m.get(4095), Ok(9));
    let mut m2 = Memory::new();
    let too_big = vec![9u8; MEMORY_SIZE - PROGRAM_START + 1];
    assert_eq!(m2.load_program(&too_big), Err(C8Err::MemoryOutOfRange { address: 4096 }));
    assert_eq!(m2.get(512), Ok(0));
}

#[test]
fn blocks_go_through_the_guard() {
    let mut m = Memory::new();
    assert_eq!(m.write_block(511, &[1, 2]), Err(C8Err::MemoryOutOfRange { address: 511 }));
    assert_eq!(m.write_block(4094, &[1, 2, 3]), Err(C8Err::MemoryOutOfRange { address: 4096 }));
    assert_eq!(m.get(4094), Ok(0));
    assert_eq!(m.write_block(4093, &[1, 2, 3]), Ok(()));
    assert_eq!(m.read_block(4093, 3), Ok(vec![1, 2, 3]));
    assert_eq!(m.read_block(100, 3), Err(C8Err::MemoryOutOfRange { address: 100 }));
    assert_eq!(m.read_block(4095, 2), Err(C8Err::MemoryOutOfRange { address: 4096 }));
}

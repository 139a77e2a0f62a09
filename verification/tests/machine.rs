//! Drives whole programs through `cycle`: loading, fetching, faults,
//! timers, and the beep.

use chip8::emu::Chip8;
use chip8::Fault;

/// A full memory image holding `program` at the program start.
fn image(program: &[u8]) -> Vec<u8> {
    let mut m = vec![0u8; 4096];
    for (i, b) in program.iter().enumerate() {
        m[0x200 + i] = *b;
    }
    m
}

#[test]
fn end_to_end_add_then_clear() {
    let mut c = Chip8::new();
    c.load_rom(&[0x60, 0x05, 0x61, 0x03, 0x80, 0x14, 0x00, 0x00]).unwrap();
    assert_eq!(c.cycle(), Ok(false));
    assert_eq!(c.cycle(), Ok(false));
    assert_eq!(c.cycle(), Ok(false));
    assert_eq!(c.registers[0], 8);
    assert_eq!(c.registers[1], 3);
    assert_eq!(c.registers[15], 0);
    c.redraw = false;
    assert_eq!(c.cycle(), Ok(false));
    assert!(c.redraw);
    for y in 0..32 {
        for x in 0..64 {
            assert!(!c.should_fill_pixel(x, y));
        }
    }
}

#[test]
fn load_rom_places_bytes_and_keeps_the_font() {
    let mut c = Chip8::new();
    c.load_rom(&[1, 2, 3]).unwrap();
    assert_eq!(c.memory[0x200], 1);
    assert_eq!(c.memory[0x201], 2);
    assert_eq!(c.memory[0x202], 3);
    assert_eq!(c.memory[0x203], 0);
    assert_eq!(c.memory[0], 0xF0);
    assert_eq!(c.memory[79], 0x80);
}

#[test]
fn load_rom_rejects_an_oversized_image() {
    let mut c = Chip8::new();
    let big = vec![0xAAu8; 4096 - 0x200 + 1];
    assert_eq!(c.load_rom(&big), Err(Fault::RomTooLong));
    assert_eq!(c.memory[0x200], 0);
    let exact = vec![0xBBu8; 4096 - 0x200];
    assert_eq!(c.load_rom(&exact), Ok(()));
    assert_eq!(c.memory[0x200], 0xBB);
    assert_eq!(c.memory[4095], 0xBB);
}

#[test]
fn jump_sets_the_program_counter_absolutely() {
    let mut c = Chip8::new();
    c.load_rom(&[0x13, 0x86]).unwrap();
    assert_eq!(c.cycle(), Ok(false));
    assert_eq!(c.pc, 0x386);
}

#[test]
fn jump_offset_adds_v0() {
    let mut c = Chip8::new();
    c.load_rom(&[0x60, 0x10, 0xB3, 0x00]).unwrap();
    c.cycle().unwrap();
    c.cycle().unwrap();
    assert_eq!(c.pc, 0x310);
}

#[test]
fn skip_when_register_equals_immediate() {
    let mut c = Chip8::new();
    c.load_rom(&[0x60, 0x05, 0x30, 0x05]).unwrap();
    c.cycle().unwrap();
    c.cycle().unwrap();
    assert_eq!(c.pc, 0x206);
}

#[test]
fn no_skip_when_register_differs_from_immediate() {
    let mut c = Chip8::new();
    c.load_rom(&[0x60, 0x05, 0x30, 0x06]).unwrap();
    c.cycle().unwrap();
    c.cycle().unwrap();
    assert_eq!(c.pc, 0x204);
}

#[test]
fn skip_when_register_differs_is_the_complement() {
    let mut c = Chip8::new();
    c.load_rom(&[0x60, 0x05, 0x40, 0x06]).unwrap();
    c.cycle().unwrap();
    c.cycle().unwrap();
    assert_eq!(c.pc, 0x206);
}

#[test]
fn skip_on_register_comparison() {
    let mut c = Chip8::new();
    c.load_rom(&[0x60, 0x07, 0x61, 0x07, 0x50, 0x10, 0x00, 0x00, 0x90, 0x10]).unwrap();
    c.cycle().unwrap();
    c.cycle().unwrap();
    c.cycle().unwrap();
    // Equal: 5XY0 skips over the word at 0x206.
    assert_eq!(c.pc, 0x208);
    c.cycle().unwrap();
    // Equal again: 9XY0 does not skip.
    assert_eq!(c.pc, 0x20A);
}

#[test]
fn call_then_return_round_trip() {
    let mut c = Chip8::new();
    let mut m = image(&[0x23, 0x00]);
    m[0x300] = 0x00;
    m[0x301] = 0xEE;
    c.set_mem(&m);
    assert_eq!(c.cycle(), Ok(false));
    assert_eq!(c.pc, 0x300);
    assert_eq!(c.sp, 1);
    assert_eq!(c.cycle(), Ok(false));
    assert_eq!(c.pc, 0x202);
    assert_eq!(c.sp, 0);
}

#[test]
fn key_wait_stalls_the_machine_until_a_key_arrives() {
    let mut c = Chip8::new();
    c.load_rom(&[0xF0, 0x0A]).unwrap();
    for _ in 0..3 {
        assert_eq!(c.cycle(), Ok(false));
        assert_eq!(c.pc, 0x200);
    }
    c.key_pressed(7);
    assert_eq!(c.cycle(), Ok(false));
    assert_eq!(c.pc, 0x202);
    assert_eq!(c.registers[0], 7);
}

#[test]
fn key_release_undoes_key_press() {
    let mut c = Chip8::new();
    c.load_rom(&[0xF0, 0x0A]).unwrap();
    c.key_pressed(7);
    c.key_released(7);
    assert_eq!(c.cycle(), Ok(false));
    assert_eq!(c.pc, 0x200);
}

#[test]
fn skip_if_key_down_and_skip_if_key_up() {
    let mut c = Chip8::new();
    c.load_rom(&[0x60, 0x03, 0xE0, 0x9E, 0xE0, 0xA1]).unwrap();
    c.cycle().unwrap();
    c.cycle().unwrap();
    // Key 3 is up: no skip from EX9E.
    assert_eq!(c.pc, 0x204);
    c.cycle().unwrap();
    // EXA1 skips while the key is up.
    assert_eq!(c.pc, 0x208);

    let mut d = Chip8::new();
    d.load_rom(&[0x60, 0x03, 0xE0, 0x9E]).unwrap();
    d.key_pressed(3);
    d.cycle().unwrap();
    d.cycle().unwrap();
    assert_eq!(d.pc, 0x206);
}

#[test]
fn unknown_opcodes_are_skipped() {
    let mut c = Chip8::new();
    c.load_rom(&[0x00, 0x01, 0x85, 0x5F, 0xE5, 0x55, 0xF0, 0x01]).unwrap();
    for i in 0u16..4 {
        assert_eq!(c.cycle(), Ok(false));
        assert_eq!(c.pc, 0x202 + 2 * i);
    }
    assert_eq!(c.registers, vec![0u8; 16]);
}

#[test]
fn fetch_past_memory_is_a_fault_that_changes_nothing() {
    let mut c = Chip8::new();
    c.load_rom(&[0x1F, 0xFF]).unwrap();
    assert_eq!(c.cycle(), Ok(false));
    assert_eq!(c.pc, 0xFFF);
    assert_eq!(c.cycle(), Err(Fault::FetchOutOfBounds));
    assert_eq!(c.pc, 0xFFF);
    assert_eq!(c.cycle(), Err(Fault::FetchOutOfBounds));
}

#[test]
fn return_with_empty_stack_is_a_fault() {
    let mut c = Chip8::new();
    c.load_rom(&[0x00, 0xEE]).unwrap();
    assert_eq!(c.cycle(), Err(Fault::StackUnderflow));
    assert_eq!(c.pc, 0x200);
    assert_eq!(c.sp, 0);
}

#[test]
fn seventeenth_nested_call_overflows_the_stack() {
    let mut c = Chip8::new();
    c.load_rom(&[0x22, 0x00]).unwrap();
    for i in 0u16..16 {
        assert_eq!(c.cycle(), Ok(false));
        assert_eq!(c.sp, i + 1);
        assert_eq!(c.pc, 0x200);
    }
    assert_eq!(c.cycle(), Err(Fault::StackOverflow));
    assert_eq!(c.sp, 16);
}

#[test]
fn bcd_past_memory_is_a_fault() {
    let mut c = Chip8::new();
    c.load_rom(&[0xAF, 0xFF, 0xF0, 0x33]).unwrap();
    assert_eq!(c.cycle(), Ok(false));
    assert_eq!(c.index, 0xFFF);
    assert_eq!(c.cycle(), Err(Fault::MemoryOutOfBounds));
    assert_eq!(c.pc, 0x202);
}

#[test]
fn register_dump_past_memory_is_a_fault() {
    let mut c = Chip8::new();
    c.load_rom(&[0xAF, 0xFF, 0xF1, 0x55]).unwrap();
    c.cycle().unwrap();
    assert_eq!(c.cycle(), Err(Fault::MemoryOutOfBounds));
}

#[test]
fn sprite_rows_past_memory_are_a_fault() {
    let mut c = Chip8::new();
    c.load_rom(&[0xAF, 0xFF, 0xD0, 0x12]).unwrap();
    c.cycle().unwrap();
    assert_eq!(c.cycle(), Err(Fault::MemoryOutOfBounds));
}

#[test]
fn key_test_with_a_wild_register_is_a_fault() {
    let mut c = Chip8::new();
    c.load_rom(&[0x60, 0xC8, 0xE0, 0x9E]).unwrap();
    c.cycle().unwrap();
    assert_eq!(c.cycle(), Err(Fault::KeyOutOfBounds));
}

#[test]
fn sound_timer_beeps_once_when_it_reaches_one() {
    let mut c = Chip8::new();
    c.load_rom(&[0x60, 0x02, 0xF0, 0x18, 0x00, 0x01, 0x00, 0x01, 0x00, 0x01]).unwrap();
    assert_eq!(c.cycle(), Ok(false));
    assert_eq!(c.cycle(), Ok(false));
    assert_eq!(c.sound_timer, 1);
    assert_eq!(c.cycle(), Ok(true));
    assert_eq!(c.sound_timer, 0);
    assert_eq!(c.cycle(), Ok(false));
}

#[test]
fn delay_timer_counts_down_and_reads_back() {
    let mut c = Chip8::new();
    c.load_rom(&[0x60, 0x03, 0xF0, 0x15, 0xF1, 0x07]).unwrap();
    c.cycle().unwrap();
    c.cycle().unwrap();
    assert_eq!(c.delay_timer, 2);
    c.cycle().unwrap();
    assert_eq!(c.registers[1], 2);
    assert_eq!(c.delay_timer, 1);
    c.cycle().unwrap();
    assert_eq!(c.delay_timer, 0);
    c.cycle().unwrap();
    assert_eq!(c.delay_timer, 0);
}

#[test]
fn random_byte_is_fully_masked() {
    let mut c = Chip8::new();
    c.load_rom(&[0xC0, 0x00, 0xC1, 0x0F]).unwrap();
    c.cycle().unwrap();
    c.cycle().unwrap();
    assert_eq!(c.registers[0], 0);
    assert!(c.registers[1] <= 0x0F);
}

#[test]
fn set_index_loads_the_address_immediate() {
    let mut c = Chip8::new();
    c.load_rom(&[0xA1, 0x23]).unwrap();
    c.cycle().unwrap();
    assert_eq!(c.index, 0x123);
    assert_eq!(c.pc, 0x202);
}

#[test]
fn font_index_through_a_program_draws_a_glyph() {
    let mut c = Chip8::new();
    c.load_rom(&[0x60, 0x0A, 0xF0, 0x29, 0x61, 0x00, 0xD1, 0x15]).unwrap();
    for _ in 0..4 {
        c.cycle().unwrap();
    }
    assert_eq!(c.index, 50);
    // Glyph A: F0 90 F0 90 90 drawn at the origin.
    assert!(c.should_fill_pixel(0, 0));
    assert!(c.should_fill_pixel(3, 0));
    assert!(c.should_fill_pixel(0, 2));
    assert!(!c.should_fill_pixel(1, 1));
    assert!(c.should_fill_pixel(3, 4));
    assert!(!c.should_fill_pixel(1, 4));
}

#[test]
fn init_resets_the_machine_but_keeps_keys_and_queue() {
    let mut c = Chip8::new();
    c.load_rom(&[0x60, 0x0A, 0xF0, 0x29, 0x61, 0x00, 0xD1, 0x15]).unwrap();
    for _ in 0..4 {
        c.cycle().unwrap();
    }
    c.key_pressed(2);
    let queued = c.draw_queue.len();
    assert!(queued > 0);
    c.init();
    assert_eq!(c.pc, 0x200);
    assert_eq!(c.sp, 0);
    assert_eq!(c.index, 0);
    assert_eq!(c.registers, vec![0u8; 16]);
    assert_eq!(c.memory[0x200], 0);
    assert_eq!(c.memory[0], 0xF0);
    assert!(c.redraw);
    assert_eq!(c.draw_queue.len(), queued);
    assert_eq!(c.keys[2], 1);
    for y in 0..32 {
        for x in 0..64 {
            assert!(!c.should_fill_pixel(x, y));
        }
    }
}

#[test]
fn set_mem_replaces_the_whole_memory() {
    let mut c = Chip8::new();
    let mut m = vec![0u8; 4096];
    m[0] = 9;
    m[4095] = 8;
    c.set_mem(&m);
    assert_eq!(c.memory[0], 9);
    assert_eq!(c.memory[4095], 8);
}

#[test]
fn current_opcode_records_the_last_fetch() {
    let mut c = Chip8::new();
    c.load_rom(&[0x6A, 0x2B]).unwrap();
    c.cycle().unwrap();
    assert_eq!(c.opcode, 0x6A2B);
    assert_eq!(c.registers[10], 0x2B);
}

//! Exercises the opcode methods directly, one semantic case at a time.

use chip8::emu::Chip8;

#[test]
fn add_without_carry() {
    let mut c = Chip8::new();
    c.op_set_imm(0, 5);
    c.op_set_imm(1, 3);
    c.op_add(0, 1);
    assert_eq!(c.registers[0], 8);
    assert_eq!(c.registers[15], 0);
}

#[test]
fn add_with_carry_wraps() {
    let mut c = Chip8::new();
    c.op_set_imm(2, 200);
    c.op_set_imm(3, 100);
    c.op_add(2, 3);
    assert_eq!(c.registers[2], 44);
    assert_eq!(c.registers[15], 1);
}

#[test]
fn sub_without_borrow_sets_flag() {
    let mut c = Chip8::new();
    c.op_set_imm(0, 10);
    c.op_set_imm(1, 3);
    c.op_sub(0, 1);
    assert_eq!(c.registers[0], 7);
    assert_eq!(c.registers[15], 1);
}

#[test]
fn sub_with_borrow_clears_flag() {
    let mut c = Chip8::new();
    c.op_set_imm(0, 3);
    c.op_set_imm(1, 10);
    c.op_sub(0, 1);
    assert_eq!(c.registers[0], 249);
    assert_eq!(c.registers[15], 0);
}

#[test]
fn sub_equal_operands_means_no_borrow() {
    let mut c = Chip8::new();
    c.op_set_imm(0, 77);
    c.op_set_imm(1, 77);
    c.op_sub(0, 1);
    assert_eq!(c.registers[0], 0);
    assert_eq!(c.registers[15], 1);
}

#[test]
fn rsub_reverses_operands() {
    let mut c = Chip8::new();
    c.op_set_imm(0, 3);
    c.op_set_imm(1, 10);
    c.op_rsub(0, 1);
    assert_eq!(c.registers[0], 7);
    assert_eq!(c.registers[15], 1);

    let mut d = Chip8::new();
    d.op_set_imm(0, 10);
    d.op_set_imm(1, 3);
    d.op_rsub(0, 1);
    assert_eq!(d.registers[0], 249);
    assert_eq!(d.registers[15], 0);
}

#[test]
fn add_imm_wraps_and_leaves_flag_alone() {
    let mut c = Chip8::new();
    c.op_set_imm(0, 250);
    c.op_set_imm(15, 9);
    c.op_add_imm(0, 10);
    assert_eq!(c.registers[0], 4);
    assert_eq!(c.registers[15], 9);
}

#[test]
fn bitwise_or_and_xor() {
    let mut c = Chip8::new();
    c.op_set_imm(0, 0b1100);
    c.op_set_imm(1, 0b1010);
    c.op_or(0, 1);
    assert_eq!(c.registers[0], 0b1110);
    c.op_set_imm(0, 0b1100);
    c.op_and(0, 1);
    assert_eq!(c.registers[0], 0b1000);
    c.op_set_imm(0, 0b1100);
    c.op_xor(0, 1);
    assert_eq!(c.registers[0], 0b0110);
}

#[test]
fn shift_right_keeps_low_bit_in_flag() {
    let mut c = Chip8::new();
    c.op_set_imm(0, 5);
    c.op_shr(0);
    assert_eq!(c.registers[0], 2);
    assert_eq!(c.registers[15], 1);
    c.op_shr(0);
    assert_eq!(c.registers[0], 1);
    assert_eq!(c.registers[15], 0);
}

#[test]
fn shift_left_keeps_high_bit_in_flag() {
    let mut c = Chip8::new();
    c.op_set_imm(0, 0x81);
    c.op_shl(0);
    assert_eq!(c.registers[0], 2);
    assert_eq!(c.registers[15], 1);
    c.op_shl(0);
    assert_eq!(c.registers[0], 4);
    assert_eq!(c.registers[15], 0);
}

#[test]
fn assign_copies_register() {
    let mut c = Chip8::new();
    c.op_set_imm(1, 42);
    c.op_assign(0, 1);
    assert_eq!(c.registers[0], 42);
    assert_eq!(c.registers[1], 42);
}

#[test]
fn bcd_of_157_writes_one_five_seven() {
    let mut c = Chip8::new();
    c.op_set_index(1000);
    c.op_set_imm(0, 157);
    c.op_bcd(0);
    assert_eq!(c.memory[1000], 1);
    assert_eq!(c.memory[1001], 5);
    assert_eq!(c.memory[1002], 7);
}

#[test]
fn bcd_of_small_value_pads_with_zeroes() {
    let mut c = Chip8::new();
    c.op_set_index(1000);
    c.op_set_imm(0, 7);
    c.op_bcd(0);
    assert_eq!(c.memory[1000], 0);
    assert_eq!(c.memory[1001], 0);
    assert_eq!(c.memory[1002], 7);
}

#[test]
fn font_index_uses_low_nibble_times_five() {
    let mut c = Chip8::new();
    c.op_set_imm(0, 0x1F);
    c.op_font_index(0);
    assert_eq!(c.index, 75);
}

#[test]
fn add_index_accumulates() {
    let mut c = Chip8::new();
    c.op_set_index(0xFFF);
    c.op_set_imm(0, 255);
    c.op_add_index(0);
    assert_eq!(c.index, 0xFFF + 255);
}

#[test]
fn reg_dump_and_load_round_trip() {
    let mut c = Chip8::new();
    c.op_set_imm(0, 11);
    c.op_set_imm(1, 22);
    c.op_set_imm(2, 33);
    c.op_set_index(2000);
    c.op_reg_dump(2);
    assert_eq!(c.memory[2000], 11);
    assert_eq!(c.memory[2001], 22);
    assert_eq!(c.memory[2002], 33);
    assert_eq!(c.index, 2000);
    c.op_set_imm(0, 0);
    c.op_set_imm(1, 0);
    c.op_set_imm(2, 0);
    c.op_reg_load(2);
    assert_eq!(c.registers[0], 11);
    assert_eq!(c.registers[1], 22);
    assert_eq!(c.registers[2], 33);
    assert_eq!(c.index, 2000);
}

#[test]
fn key_wait_stalls_then_stores_key() {
    let mut c = Chip8::new();
    let pc0 = c.pc;
    c.op_key_wait(0);
    assert_eq!(c.pc, pc0);
    c.op_key_wait(0);
    assert_eq!(c.pc, pc0);
    c.key_pressed(4);
    c.op_key_wait(0);
    assert_eq!(c.pc, pc0 + 2);
    assert_eq!(c.registers[0], 4);
}

#[test]
fn key_wait_observes_highest_pressed_key() {
    let mut c = Chip8::new();
    c.key_pressed(2);
    c.key_pressed(9);
    c.op_key_wait(3);
    assert_eq!(c.registers[3], 9);
}

#[test]
fn rand_masked_by_zero_is_zero() {
    let mut c = Chip8::new();
    c.op_rand(0, 0xAB, 0x00);
    assert_eq!(c.registers[0], 0);
    c.op_rand(1, 0xAB, 0x0F);
    assert_eq!(c.registers[1], 0x0B);
}

#[test]
fn clear_screen_requests_redraw() {
    let mut c = Chip8::new();
    c.op_set_index(0);
    c.op_draw(0, 1, 5);
    c.redraw = false;
    c.op_clear_screen();
    assert!(c.redraw);
    for y in 0..32 {
        for x in 0..64 {
            assert!(!c.should_fill_pixel(x, y));
        }
    }
}

#[test]
fn draw_glyph_sets_pixels_without_collision() {
    let mut c = Chip8::new();
    // Glyph 0 sits at memory offset 0: rows F0 90 90 90 F0.
    c.op_set_index(0);
    c.op_set_imm(0, 10);
    c.op_set_imm(1, 5);
    c.op_draw(0, 1, 5);
    assert_eq!(c.registers[15], 0);
    assert!(c.should_fill_pixel(10, 5));
    assert!(c.should_fill_pixel(13, 5));
    assert!(!c.should_fill_pixel(14, 5));
    assert!(c.should_fill_pixel(10, 6));
    assert!(!c.should_fill_pixel(11, 6));
    assert!(c.should_fill_pixel(13, 6));
    // 4 + 2 + 2 + 2 + 4 set bits in the glyph.
    assert_eq!(c.draw_queue.len(), 14);
    let first = c.draw_queue.pop_front().unwrap();
    assert_eq!(first, (10, 5, 1));
}

#[test]
fn draw_twice_restores_screen_and_queues_double() {
    let mut c = Chip8::new();
    c.op_set_index(0);
    c.op_set_imm(0, 10);
    c.op_set_imm(1, 5);
    c.op_draw(0, 1, 5);
    let events_once = c.draw_queue.len();
    c.op_draw(0, 1, 5);
    assert_eq!(c.registers[15], 1);
    assert_eq!(c.draw_queue.len(), 2 * events_once);
    for y in 0..32 {
        for x in 0..64 {
            assert!(!c.should_fill_pixel(x, y));
        }
    }
    // Every queued record for the second pass reports the pixel going dark.
    for _ in 0..events_once {
        c.draw_queue.pop_front().unwrap();
    }
    while let Some((_, _, v)) = c.draw_queue.pop_front() {
        assert_eq!(v, 0);
    }
}

#[test]
fn draw_clips_at_the_right_edge() {
    let mut c = Chip8::new();
    c.op_set_index(0);
    c.op_set_imm(0, 62);
    c.op_set_imm(1, 0);
    c.op_draw(0, 1, 5);
    assert!(c.should_fill_pixel(62, 0));
    assert!(c.should_fill_pixel(63, 0));
    assert!(c.should_fill_pixel(62, 1));
    assert!(!c.should_fill_pixel(63, 1));
    // Rows F0 90 90 90 F0 keep 2 + 1 + 1 + 1 + 2 pixels on screen.
    assert_eq!(c.draw_queue.len(), 7);
}

#[test]
fn draw_clips_at_the_bottom_edge() {
    let mut c = Chip8::new();
    c.op_set_index(0);
    c.op_set_imm(0, 0);
    c.op_set_imm(1, 30);
    c.op_draw(0, 1, 5);
    // Only the first two glyph rows fit: 4 + 2 pixels.
    assert_eq!(c.draw_queue.len(), 6);
    assert!(c.should_fill_pixel(0, 30));
    assert!(c.should_fill_pixel(0, 31));
}

#[test]
fn collision_is_reported_per_draw() {
    let mut c = Chip8::new();
    c.op_set_index(0);
    c.op_set_imm(0, 0);
    c.op_set_imm(1, 0);
    c.op_draw(0, 1, 1);
    assert_eq!(c.registers[15], 0);
    c.op_draw(0, 1, 1);
    assert_eq!(c.registers[15], 1);
    c.op_draw(0, 1, 1);
    assert_eq!(c.registers[15], 0);
}

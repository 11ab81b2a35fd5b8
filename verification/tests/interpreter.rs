use chippy_core::emu;
use chippy_core::{SCREEN_HEIGHT, SCREEN_WIDTH};

const FONT: [u8; 80] = [
    0xF0, 0x90, 0x90, 0x90, 0xF0, 0x20, 0x60, 0x20, 0x20, 0x70, 0xF0, 0x10, 0xF0, 0x80, 0xF0, 0xF0,
    0x10, 0xF0, 0x10, 0xF0, 0x90, 0x90, 0xF0, 0x10, 0x10, 0xF0, 0x80, 0xF0, 0x10, 0xF0, 0xF0, 0x80,
    0xF0, 0x90, 0xF0, 0xF0, 0x10, 0x20, 0x40, 0x40, 0xF0, 0x90, 0xF0, 0x90, 0xF0, 0xF0, 0x90, 0xF0,
    0x10, 0xF0, 0xF0, 0x90, 0xF0, 0x90, 0x90, 0xE0, 0x90, 0xE0, 0x90, 0xE0, 0xF0, 0x80, 0x80, 0x80,
    0xF0, 0xE0, 0x90, 0x90, 0x90, 0xE0, 0xF0, 0x80, 0xF0, 0x80, 0xF0, 0xF0, 0x80, 0xF0, 0x80, 0x80,
];

/// Loads `program` and runs `ticks` cycles.
fn run(program: &[u8], ticks: usize) -> emu {
    let mut e = emu::new();
    e.load(program);
    for _ in 0..ticks {
        e.tick();
    }
    e
}

fn pixel(e: &emu, x: usize, y: usize) -> bool {
    e.get_display()[x + SCREEN_WIDTH * y]
}

fn lit_pixels(e: &emu) -> usize {
    e.get_display().iter().filter(|p| **p).count()
}

#[test]
fn new_machine_is_in_power_on_state() {
    let e = emu::new();
    assert_eq!(e.program_counter(), 0x200);
    assert_eq!(e.index_register(), 0);
    assert_eq!(e.stack_pointer(), 0);
    assert_eq!(e.delay_timer(), 0);
    assert_eq!(e.sound_timer(), 0);
    for k in 0..16 {
        assert_eq!(e.register(k), 0);
    }
    for a in 0..80 {
        assert_eq!(e.memory(a), FONT[a]);
    }
    for a in 80..4096 {
        assert_eq!(e.memory(a), 0);
    }
    assert_eq!(e.get_display().len(), SCREEN_WIDTH * SCREEN_HEIGHT);
    assert_eq!(lit_pixels(&e), 0);
}

#[test]
fn load_copies_program_to_0x200() {
    let mut e = emu::new();
    e.load(&[0x12, 0x34, 0x56]);
    assert_eq!(e.memory(0x1FF), 0);
    assert_eq!(e.memory(0x200), 0x12);
    assert_eq!(e.memory(0x201), 0x34);
    assert_eq!(e.memory(0x202), 0x56);
    assert_eq!(e.memory(0x203), 0);
    assert_eq!(e.memory(0), 0xF0);
}

#[test]
fn load_fills_all_of_program_memory() {
    let mut e = emu::new();
    let data = vec![0xAB; 4096 - 0x200];
    e.load(&data);
    assert_eq!(e.memory(0x200), 0xAB);
    assert_eq!(e.memory(4095), 0xAB);
    assert_eq!(e.memory(79), FONT[79]);
}

#[test]
fn fetch_reads_big_endian_opcode() {
    // 6A42: VA = 0x42
    let e = run(&[0x6A, 0x42], 1);
    assert_eq!(e.register(0xA), 0x42);
    assert_eq!(e.program_counter(), 0x202);
}

#[test]
fn opcode_0000_does_nothing() {
    let e = run(&[0x00, 0x00], 1);
    assert_eq!(e.program_counter(), 0x202);
    assert_eq!(e.stack_pointer(), 0);
}

#[test]
fn push_then_pop_gives_back_value() {
    let mut e = emu::new();
    e.push(0x345);
    e.push(0x678);
    assert_eq!(e.stack_pointer(), 2);
    assert_eq!(e.pop(), 0x678);
    assert_eq!(e.pop(), 0x345);
    assert_eq!(e.stack_pointer(), 0);
}

#[test]
fn stack_holds_sixteen_entries() {
    let mut e = emu::new();
    for k in 0..16u16 {
        e.push(k);
    }
    assert_eq!(e.stack_pointer(), 16);
    for k in (0..16u16).rev() {
        assert_eq!(e.pop(), k);
    }
}

#[test]
fn jump_sets_program_counter() {
    let e = run(&[0x1A, 0xBC], 1);
    assert_eq!(e.program_counter(), 0xABC);
}

#[test]
fn call_then_return_resumes_after_call() {
    // 0x200: 2206 call 0x206; 0x202: 6155; 0x204: 1204 (loop)
    // 0x206: 00EE return
    let mut e = run(&[0x22, 0x06, 0x61, 0x55, 0x12, 0x04, 0x00, 0xEE], 1);
    assert_eq!(e.program_counter(), 0x206);
    assert_eq!(e.stack_pointer(), 1);
    e.tick();
    assert_eq!(e.program_counter(), 0x202);
    assert_eq!(e.stack_pointer(), 0);
    e.tick();
    assert_eq!(e.register(1), 0x55);
}

#[test]
fn skip_if_equal_and_not_equal_are_complementary() {
    // V3 = 0x10; 3310 skips; at 0x206: 4310 does not skip
    let e = run(&[0x63, 0x10, 0x33, 0x10, 0x00, 0x00, 0x43, 0x10], 2);
    assert_eq!(e.program_counter(), 0x206);
    let e = run(&[0x63, 0x10, 0x33, 0x10, 0x00, 0x00, 0x43, 0x10], 3);
    assert_eq!(e.program_counter(), 0x208);
    let e = run(&[0x63, 0x11, 0x43, 0x10], 2);
    assert_eq!(e.program_counter(), 0x206);
    let e = run(&[0x63, 0x11, 0x33, 0x10], 2);
    assert_eq!(e.program_counter(), 0x204);
}

#[test]
fn skip_on_register_equality() {
    // V1 = 7, V2 = 7, 5120 skips
    let e = run(&[0x61, 0x07, 0x62, 0x07, 0x51, 0x20], 3);
    assert_eq!(e.program_counter(), 0x208);
    // 9120 does not skip
    let e = run(&[0x61, 0x07, 0x62, 0x07, 0x91, 0x20], 3);
    assert_eq!(e.program_counter(), 0x206);
    // V2 = 8: 9120 skips
    let e = run(&[0x61, 0x07, 0x62, 0x08, 0x91, 0x20], 3);
    assert_eq!(e.program_counter(), 0x208);
}

#[test]
fn add_constant_wraps_without_flag() {
    // V4 = 0xFF; V4 += 2; VF stays 0
    let e = run(&[0x64, 0xFF, 0x74, 0x02], 2);
    assert_eq!(e.register(4), 0x01);
    assert_eq!(e.register(0xF), 0);
}

fn alu(vx: u8, vy: u8, n: u8) -> emu {
    let mut e = emu::new();
    e.execute_with(0x6000 | vx as u16, 0); // V0 = vx
    e.execute_with(0x6100 | vy as u16, 0); // V1 = vy
    e.execute_with(0x8010 | n as u16, 0);
    e
}

#[test]
fn register_logic() {
    assert_eq!(alu(0x0F, 0xAA, 0).register(0), 0xAA);
    assert_eq!(alu(0x0F, 0xF0, 1).register(0), 0xFF);
    assert_eq!(alu(0x3C, 0x0F, 2).register(0), 0x0C);
    assert_eq!(alu(0x3C, 0x0F, 3).register(0), 0x33);
}

#[test]
fn add_registers_sets_carry() {
    let e = alu(200, 100, 4);
    assert_eq!(e.register(0), 44);
    assert_eq!(e.register(0xF), 1);
    let e = alu(20, 100, 4);
    assert_eq!(e.register(0), 120);
    assert_eq!(e.register(0xF), 0);
}

#[test]
fn sub_registers_sets_not_borrow() {
    let e = alu(10, 3, 5);
    assert_eq!(e.register(0), 7);
    assert_eq!(e.register(0xF), 1);
    let e = alu(3, 10, 5);
    assert_eq!(e.register(0), 249);
    assert_eq!(e.register(0xF), 0);
    let e = alu(5, 5, 5);
    assert_eq!(e.register(0), 0);
    assert_eq!(e.register(0xF), 1);
}

#[test]
fn reverse_sub_registers() {
    let e = alu(3, 10, 7);
    assert_eq!(e.register(0), 7);
    assert_eq!(e.register(0xF), 1);
    let e = alu(10, 3, 7);
    assert_eq!(e.register(0), 249);
    assert_eq!(e.register(0xF), 0);
}

#[test]
fn shift_right_keeps_low_bit() {
    let e = alu(0b1000_0011, 0, 6);
    assert_eq!(e.register(0), 0b0100_0001);
    assert_eq!(e.register(0xF), 1);
    let e = alu(0b1000_0010, 0, 6);
    assert_eq!(e.register(0), 0b0100_0001);
    assert_eq!(e.register(0xF), 0);
}

#[test]
fn shift_left_keeps_high_bit() {
    let e = alu(0b1000_0011, 0, 0xE);
    assert_eq!(e.register(0), 0b0000_0110);
    assert_eq!(e.register(0xF), 1);
    let e = alu(0b0100_0001, 0, 0xE);
    assert_eq!(e.register(0), 0b1000_0010);
    assert_eq!(e.register(0xF), 0);
}

#[test]
fn unlisted_8xy_opcodes_are_refused() {
    for n in [8u8, 9, 0xA, 0xB, 0xC, 0xD, 0xF] {
        assert!(!can_run(&[0x81, 0x20 | n], 0));
    }
    for n in [0u8, 1, 2, 3, 4, 5, 6, 7, 0xE] {
        assert!(can_run(&[0x81, 0x20 | n], 0));
    }
}

#[test]
fn flag_register_as_target_keeps_flag() {
    // VF = 200; V1 = 100; 8F14: VF holds the carry, not the sum
    let mut e = emu::new();
    e.execute_with(0x6FC8, 0);
    e.execute_with(0x6164, 0);
    e.execute_with(0x8F14, 0);
    assert_eq!(e.register(0xF), 1);
}

#[test]
fn set_index_and_jump_with_offset() {
    let e = run(&[0xA1, 0x23], 1);
    assert_eq!(e.index_register(), 0x123);
    // V0 = 0x10; B300 jumps to 0x310
    let e = run(&[0x60, 0x10, 0xB3, 0x00], 2);
    assert_eq!(e.program_counter(), 0x310);
}

#[test]
fn random_byte_is_masked() {
    let mut e = emu::new();
    for _ in 0..200 {
        e.execute_with(0xC00F, 0xFF);
        assert_eq!(e.register(0), 0x0F);
    }
    e.execute_with(0xC0F0, 0x3C);
    assert_eq!(e.register(0), 0x30);
    // through tick, with the outside generator
    for _ in 0..200 {
        let e = run(&[0xC5, 0x0A], 1);
        assert_eq!(e.register(5) & !0x0A, 0);
    }
}

#[test]
fn random_byte_varies() {
    let mut seen = [false; 256];
    for _ in 0..400 {
        let e = run(&[0xC5, 0xFF], 1);
        seen[e.register(5) as usize] = true;
    }
    assert!(seen.iter().filter(|b| **b).count() > 1);
}

#[test]
fn draw_font_glyph() {
    // I = 0 (glyph "0"); V0 = 0, V1 = 0; D015
    let e = run(&[0xA0, 0x00, 0x60, 0x00, 0x61, 0x00, 0xD0, 0x15], 4);
    for row in 0..5 {
        for col in 0..8 {
            let expected = (FONT[row] >> (7 - col)) & 1 == 1;
            assert_eq!(pixel(&e, col, row), expected, "pixel {} {}", col, row);
        }
    }
    assert_eq!(lit_pixels(&e), 14);
    assert_eq!(e.register(0xF), 0);
}

#[test]
fn draw_twice_erases_and_reports_collision() {
    let e = run(&[0xA0, 0x05, 0x60, 0x0A, 0x61, 0x03, 0xD0, 0x15, 0xD0, 0x15], 5);
    assert_eq!(lit_pixels(&e), 0);
    assert_eq!(e.register(0xF), 1);
}

#[test]
fn draw_wraps_around_edges() {
    // glyph "8" (I = 40) drawn at x = 62, y = 30
    let e = run(&[0xA0, 0x28, 0x60, 0x3E, 0x61, 0x1E, 0xD0, 0x15], 4);
    // row 0 of "8" is 0xF0: pixels at x = 62, 63, 0, 1 on y = 30
    assert!(pixel(&e, 62, 30));
    assert!(pixel(&e, 63, 30));
    assert!(pixel(&e, 0, 30));
    assert!(pixel(&e, 1, 30));
    assert!(!pixel(&e, 2, 30));
    // row 2 lands on y = 0
    assert!(pixel(&e, 62, 0));
    assert!(pixel(&e, 1, 0));
    assert_eq!(lit_pixels(&e), 16);
}

#[test]
fn draw_wraps_large_coordinates() {
    // V0 = 200 wraps to x = 8, V1 = 100 wraps to y = 4
    let e = run(&[0xA0, 0x00, 0x60, 0xC8, 0x61, 0x64, 0xD0, 0x11], 4);
    assert!(pixel(&e, 8, 4));
    assert!(pixel(&e, 11, 4));
    assert!(!pixel(&e, 12, 4));
    assert_eq!(lit_pixels(&e), 4);
}

#[test]
fn draw_zero_rows_draws_nothing() {
    let e = run(&[0xA0, 0x00, 0xD0, 0x10], 2);
    assert_eq!(lit_pixels(&e), 0);
    assert_eq!(e.register(0xF), 0);
}

#[test]
fn clear_screen_then_draw_has_no_collision() {
    let e = run(&[0xA0, 0x00, 0xD0, 0x05, 0x00, 0xE0], 3);
    assert_eq!(lit_pixels(&e), 0);
    let e = run(&[0xA0, 0x00, 0xD0, 0x05, 0x00, 0xE0, 0xD0, 0x05], 4);
    assert_eq!(e.register(0xF), 0);
    assert_eq!(lit_pixels(&e), 14);
}

#[test]
fn key_skips() {
    // V2 = 5; E29E skips when key 5 is held
    let mut e = emu::new();
    e.load(&[0x62, 0x05, 0xE2, 0x9E]);
    e.keypress(5, true);
    e.tick();
    e.tick();
    assert_eq!(e.program_counter(), 0x206);
    let mut e = emu::new();
    e.load(&[0x62, 0x05, 0xE2, 0x9E]);
    e.tick();
    e.tick();
    assert_eq!(e.program_counter(), 0x204);
    let mut e = emu::new();
    e.load(&[0x62, 0x05, 0xE2, 0xA1]);
    e.tick();
    e.tick();
    assert_eq!(e.program_counter(), 0x206);
    let mut e = emu::new();
    e.load(&[0x62, 0x05, 0xE2, 0xA1]);
    e.keypress(5, true);
    e.keypress(5, false);
    e.keypress(6, true);
    e.tick();
    e.tick();
    assert_eq!(e.program_counter(), 0x206);
}

#[test]
fn wait_for_key_repeats_until_pressed() {
    let mut e = emu::new();
    e.load(&[0xF3, 0x0A]);
    e.tick();
    assert_eq!(e.program_counter(), 0x200);
    e.tick();
    assert_eq!(e.program_counter(), 0x200);
    e.keypress(9, true);
    e.keypress(4, true);
    e.tick();
    assert_eq!(e.program_counter(), 0x202);
    assert_eq!(e.register(3), 4);
}

#[test]
fn timers_set_read_and_count_down() {
    // V1 = 3; DT = V1; ST = V1; V2 = DT
    let mut e = run(&[0x61, 0x03, 0xF1, 0x15, 0xF1, 0x18, 0xF2, 0x07], 4);
    assert_eq!(e.delay_timer(), 3);
    assert_eq!(e.sound_timer(), 3);
    assert_eq!(e.register(2), 3);
    for expected in [2u8, 1, 0, 0, 0] {
        e.tick_timers();
        assert_eq!(e.delay_timer(), expected);
        assert_eq!(e.sound_timer(), expected);
    }
}

#[test]
fn timers_after_many_ticks() {
    // DT = 200, ST = 5, then 7 ticks
    let mut e = run(&[0x61, 0xC8, 0xF1, 0x15, 0x61, 0x05, 0xF1, 0x18], 4);
    for _ in 0..7 {
        e.tick_timers();
    }
    assert_eq!(e.delay_timer(), 193);
    assert_eq!(e.sound_timer(), 0);
    assert_eq!(e.register(1), 5);
    assert_eq!(e.program_counter(), 0x208);
}

#[test]
fn timers_count_independently() {
    let mut e = run(&[0x61, 0x01, 0xF1, 0x15, 0x61, 0x02, 0xF1, 0x18], 4);
    e.tick_timers();
    assert_eq!(e.delay_timer(), 0);
    assert_eq!(e.sound_timer(), 1);
}

#[test]
fn add_to_index_wraps() {
    // I = 0xFFF; V0 = 2; F01E
    let e = run(&[0xAF, 0xFF, 0x60, 0x02, 0xF0, 0x1E], 3);
    assert_eq!(e.index_register(), 0x1001);
    let mut e = emu::new();
    e.execute_with(0xAFFF, 0);
    e.execute_with(0x60FF, 0);
    let mut expected: u16 = 0xFFF;
    for _ in 0..242 {
        e.execute_with(0xF01E, 0);
        expected = expected.wrapping_add(0xFF);
        assert_eq!(e.index_register(), expected);
    }
    assert!(expected < 0xFFF);
}

#[test]
fn font_address_of_digit() {
    let e = run(&[0x60, 0x0B, 0xF0, 0x29], 2);
    assert_eq!(e.index_register(), 55);
    let e = run(&[0x60, 0xFF, 0xF0, 0x29], 2);
    assert_eq!(e.index_register(), 1275);
}

#[test]
fn bcd_of_every_byte() {
    for v in 0..=255u8 {
        let mut e = emu::new();
        e.execute_with(0xA300, 0);
        e.execute_with(0x6700 | v as u16, 0);
        e.execute_with(0xF733, 0);
        // the digits as the float formula computes them
        let vx = v as f32;
        let hundreds = (vx / 100.0).floor() as u8;
        let tens = ((vx / 10.0) % 10.0).floor() as u8;
        let ones = (vx % 10.0) as u8;
        assert_eq!(e.memory(0x300), hundreds);
        assert_eq!(e.memory(0x301), tens);
        assert_eq!(e.memory(0x302), ones);
        assert_eq!(100 * e.memory(0x300) as u32 + 10 * e.memory(0x301) as u32 + e.memory(0x302) as u32, v as u32);
    }
}

#[test]
fn store_and_load_registers() {
    let mut e = emu::new();
    for k in 0..16u16 {
        e.execute_with(0x6000 | (k << 8) | (k * 3 + 1), 0);
    }
    e.execute_with(0xA400, 0);
    e.execute_with(0xF455, 0);
    for k in 0..5 {
        assert_eq!(e.memory(0x400 + k), (k * 3 + 1) as u8);
    }
    assert_eq!(e.memory(0x405), 0);
    for k in 0..16u16 {
        e.execute_with(0x6000 | (k << 8), 0);
    }
    e.execute_with(0xF465, 0);
    for k in 0..5 {
        assert_eq!(e.register(k), (k * 3 + 1) as u8);
    }
    assert_eq!(e.register(5), 0);
    assert_eq!(e.index_register(), 0x400);
}

#[test]
fn store_all_registers_at_top_of_memory() {
    let mut e = emu::new();
    e.execute_with(0x6F77, 0);
    e.execute_with(0xAFF0, 0);
    e.execute_with(0xFF55, 0);
    assert_eq!(e.memory(4095), 0x77);
}

#[test]
fn reset_restores_power_on_state() {
    let mut e = run(&[0xA0, 0x00, 0xD0, 0x05, 0x61, 0x09, 0xF1, 0x15, 0x22, 0x00], 5);
    e.keypress(3, true);
    e.reset();
    let fresh = emu::new();
    assert_eq!(e.program_counter(), fresh.program_counter());
    assert_eq!(e.stack_pointer(), 0);
    assert_eq!(e.delay_timer(), 0);
    assert_eq!(e.index_register(), 0);
    for k in 0..16 {
        assert_eq!(e.register(k), 0);
    }
    for a in 0..4096 {
        assert_eq!(e.memory(a), fresh.memory(a));
    }
    assert_eq!(lit_pixels(&e), 0);
    // key 3 is released again: EXA1 skips
    e.load(&[0x60, 0x03, 0xE0, 0xA1]);
    e.tick();
    e.tick();
    assert_eq!(e.program_counter(), 0x206);
}

#[test]
fn keys_survive_instructions() {
    let mut e = emu::new();
    e.keypress(0xF, true);
    e.load(&[0x00, 0xE0, 0x6F, 0x0F, 0xEF, 0x9E]);
    e.tick();
    e.tick();
    e.tick();
    assert_eq!(e.program_counter(), 0x208);
}

fn can_run(program: &[u8], ticks: usize) -> bool {
    let e = run(program, ticks);
    e.can_tick()
}

#[test]
fn can_tick_accepts_known_opcodes() {
    assert!(emu::new().can_tick()); // 0000 at 0x200
    assert!(can_run(&[0x00, 0xE0], 0));
    assert!(can_run(&[0x12, 0x00], 0));
    assert!(can_run(&[0x83, 0x4E], 0));
    assert!(!can_run(&[0x83, 0x4F], 0));
    assert!(can_run(&[0xC1, 0x23], 0));
    assert!(can_run(&[0xF1, 0x65], 0));
    assert!(can_run(&[0xA0, 0x00, 0xD0, 0x05], 1));
}

#[test]
fn can_tick_rejects_unknown_opcodes() {
    assert!(!can_run(&[0x01, 0x23], 0));
    assert!(!can_run(&[0x00, 0xE1], 0));
    assert!(!can_run(&[0x51, 0x21], 0));
    assert!(!can_run(&[0x91, 0x2F], 0));
    assert!(!can_run(&[0xE0, 0xFF], 0));
    assert!(!can_run(&[0xF0, 0xFF], 0));
    assert!(!can_run(&[0xF0, 0x56], 0));
}

#[test]
fn can_tick_rejects_stack_misuse() {
    // return with an empty stack
    assert!(!can_run(&[0x00, 0xEE], 0));
    // a subroutine that calls itself: the seventeenth call overflows
    let e = run(&[0x22, 0x00], 16);
    assert_eq!(e.stack_pointer(), 16);
    assert!(!e.can_tick());
    assert!(can_run(&[0x22, 0x00], 15));
}

#[test]
fn can_tick_rejects_out_of_range_memory() {
    // sprite rows past the end of memory
    assert!(!can_run(&[0xAF, 0xFF, 0xD0, 0x02], 1));
    assert!(can_run(&[0xAF, 0xFF, 0xD0, 0x01], 1));
    // BCD past the end of memory
    assert!(!can_run(&[0xAF, 0xFE, 0xF0, 0x33], 1));
    assert!(can_run(&[0xAF, 0xFD, 0xF0, 0x33], 1));
    // register dump past the end of memory
    assert!(!can_run(&[0xAF, 0xFF, 0xF1, 0x55], 1));
    assert!(can_run(&[0xAF, 0xFF, 0xF0, 0x55], 1));
    assert!(!can_run(&[0xAF, 0xF1, 0xFF, 0x65], 1));
    // key index past the keypad
    assert!(!can_run(&[0x60, 0x10, 0xE0, 0x9E], 1));
    assert!(can_run(&[0x60, 0x0F, 0xE0, 0x9E], 1));
    // opcode fetched from past the end of memory
    assert!(!can_run(&[0x1F, 0xFF], 1));
    assert!(can_run(&[0x1F, 0xFE], 1));
}

#[test]
fn random_byte_is_ignored_outside_cxnn() {
    let ops: [u16; 8] = [0x6A12, 0x7A05, 0x8AB4, 0xA300, 0xFA33, 0x3A17, 0xFA1E, 0xB010];
    let mut a = emu::new();
    let mut b = emu::new();
    for op in ops {
        a.execute_with(op, 0x00);
        b.execute_with(op, 0xFF);
        assert_eq!(a.program_counter(), b.program_counter());
        assert_eq!(a.index_register(), b.index_register());
        for k in 0..16 {
            assert_eq!(a.register(k), b.register(k));
        }
        for addr in 0..4096 {
            assert_eq!(a.memory(addr), b.memory(addr));
        }
    }
}

#[test]
fn load_then_store_registers_keeps_memory() {
    let mut e = emu::new();
    e.load(&[9, 8, 7, 6, 5, 4, 3, 2, 1]);
    e.execute_with(0xA200, 0);
    e.execute_with(0xF865, 0);
    e.execute_with(0xF855, 0);
    for k in 0..9 {
        assert_eq!(e.memory(0x200 + k), 9 - k as u8);
    }
    assert_eq!(e.register(8), 1);
}

use chip8::{Chip8, Chip8Error};

fn machine_with(program: &[u8]) -> Chip8 {
    let mut machine = Chip8::new();
    assert_eq!(machine.load_cartridge(&program.to_vec()), Ok(()));
    machine
}

fn run(machine: &mut Chip8, steps: usize) {
    for _ in 0..steps {
        assert_eq!(machine.cycle_with(0), Ok(()));
    }
}

fn lit(machine: &mut Chip8) -> Vec<(usize, usize)> {
    let vram = machine.checkVram();
    let mut pixels = Vec::new();
    for (y, row) in vram.iter().enumerate() {
        for (x, &pixel) in row.iter().enumerate() {
            assert!(pixel <= 1);
            if pixel == 1 {
                pixels.push((x, y));
            }
        }
    }
    pixels
}

#[test]
fn cls_darkens_display_and_marks_it() {
    let mut machine = machine_with(&[0xA0, 0x00, 0xD0, 0x05, 0x00, 0xE0]);
    run(&mut machine, 2);
    assert!(!lit(&mut machine).is_empty());
    assert!(machine.needsRedraw());
    run(&mut machine, 1);
    assert!(lit(&mut machine).is_empty());
    assert!(machine.needsRedraw());
    assert_eq!(machine.pc(), 0x206);
}

#[test]
fn cls_on_a_dark_display_still_marks_it() {
    let mut machine = machine_with(&[0x00, 0xE0]);
    run(&mut machine, 1);
    assert!(lit(&mut machine).is_empty());
    assert!(machine.needsRedraw());
    assert_eq!(machine.pc(), 0x202);
}

#[test]
fn jp_sets_pc_exactly() {
    let mut machine = machine_with(&[0x12, 0x50]);
    run(&mut machine, 1);
    assert_eq!(machine.pc(), 0x250);
}

#[test]
fn jp_to_itself_stays() {
    let mut machine = machine_with(&[0x12, 0x00]);
    run(&mut machine, 3);
    assert_eq!(machine.pc(), 0x200);
}

#[test]
fn call_then_ret_comes_back_after_the_call() {
    let mut program = vec![0u8; 0x102];
    program[0] = 0x23;
    program[1] = 0x00;
    program[0x100] = 0x00;
    program[0x101] = 0xEE;
    let mut machine = machine_with(&program);
    run(&mut machine, 1);
    assert_eq!(machine.pc(), 0x300);
    assert_eq!(machine.stack_depth(), 1);
    run(&mut machine, 1);
    assert_eq!(machine.pc(), 0x202);
    assert_eq!(machine.stack_depth(), 0);
}

#[test]
fn nested_calls_return_in_reverse_order() {
    let mut program = vec![0u8; 0x30];
    program[0x00..0x02].copy_from_slice(&[0x22, 0x10]);
    program[0x10..0x12].copy_from_slice(&[0x22, 0x20]);
    program[0x12..0x14].copy_from_slice(&[0x00, 0xEE]);
    program[0x20..0x22].copy_from_slice(&[0x00, 0xEE]);
    let mut machine = machine_with(&program);
    run(&mut machine, 2);
    assert_eq!(machine.pc(), 0x220);
    assert_eq!(machine.stack_depth(), 2);
    run(&mut machine, 1);
    assert_eq!(machine.pc(), 0x212);
    run(&mut machine, 1);
    assert_eq!(machine.pc(), 0x202);
    assert_eq!(machine.stack_depth(), 0);
}

#[test]
fn seventeenth_call_overflows_the_stack() {
    let mut machine = machine_with(&[0x22, 0x00]);
    for depth in 1..=16 {
        assert_eq!(machine.cycle_with(0), Ok(()));
        assert_eq!(machine.stack_depth(), depth);
    }
    assert_eq!(machine.cycle_with(0), Err(Chip8Error::StackOverflow));
    assert_eq!(machine.stack_depth(), 16);
    assert_eq!(machine.pc(), 0x200);
    assert_eq!(machine.cycle_with(0), Err(Chip8Error::StackOverflow));
}

#[test]
fn ret_on_an_empty_stack_underflows() {
    let mut machine = machine_with(&[0x00, 0xEE]);
    assert_eq!(machine.cycle_with(0), Err(Chip8Error::StackUnderflow));
    assert_eq!(machine.stack_depth(), 0);
    assert_eq!(machine.pc(), 0x200);
}

#[test]
fn ret_after_the_stack_drained_underflows() {
    let mut machine = machine_with(&[0x22, 0x02, 0x00, 0xEE]);
    run(&mut machine, 2);
    assert_eq!(machine.pc(), 0x202);
    assert_eq!(machine.cycle_with(0), Err(Chip8Error::StackUnderflow));
}

#[test]
fn se_imm_skips_on_equal() {
    let mut machine = machine_with(&[0x63, 0x42, 0x33, 0x42]);
    run(&mut machine, 2);
    assert_eq!(machine.pc(), 0x206);
    let mut machine = machine_with(&[0x63, 0x42, 0x33, 0x43]);
    run(&mut machine, 2);
    assert_eq!(machine.pc(), 0x204);
}

#[test]
fn sne_imm_skips_on_unequal() {
    let mut machine = machine_with(&[0x63, 0x42, 0x43, 0x43]);
    run(&mut machine, 2);
    assert_eq!(machine.pc(), 0x206);
    let mut machine = machine_with(&[0x63, 0x42, 0x43, 0x42]);
    run(&mut machine, 2);
    assert_eq!(machine.pc(), 0x204);
}

#[test]
fn se_reg_skips_on_equal() {
    let mut machine = machine_with(&[0x61, 0x09, 0x62, 0x09, 0x51, 0x20]);
    run(&mut machine, 3);
    assert_eq!(machine.pc(), 0x208);
    let mut machine = machine_with(&[0x61, 0x09, 0x62, 0x08, 0x51, 0x20]);
    run(&mut machine, 3);
    assert_eq!(machine.pc(), 0x206);
}

#[test]
fn sne_reg_skips_on_unequal() {
    let mut machine = machine_with(&[0x61, 0x09, 0x62, 0x08, 0x91, 0x20]);
    run(&mut machine, 3);
    assert_eq!(machine.pc(), 0x208);
    let mut machine = machine_with(&[0x61, 0x09, 0x62, 0x09, 0x91, 0x20]);
    run(&mut machine, 3);
    assert_eq!(machine.pc(), 0x206);
}

#[test]
fn ld_imm_sets_one_register() {
    let mut machine = machine_with(&[0x6B, 0xCD]);
    run(&mut machine, 1);
    for x in 0..16u8 {
        assert_eq!(machine.register(x), if x == 0xB { 0xCD } else { 0 });
    }
    assert_eq!(machine.pc(), 0x202);
}

#[test]
fn add_imm_wraps_and_leaves_vf() {
    let mut machine = machine_with(&[0x61, 0xF0, 0x71, 0x20, 0x71, 0x05]);
    run(&mut machine, 2);
    assert_eq!(machine.register(1), 0x10);
    assert_eq!(machine.register(0xF), 0);
    run(&mut machine, 1);
    assert_eq!(machine.register(1), 0x15);
    assert_eq!(machine.pc(), 0x206);
}

#[test]
fn ld_reg_copies() {
    let mut machine = machine_with(&[0x62, 0x77, 0x81, 0x20]);
    run(&mut machine, 2);
    assert_eq!(machine.register(1), 0x77);
    assert_eq!(machine.register(2), 0x77);
}

#[test]
fn or_and_xor_work_bitwise() {
    let mut machine = machine_with(&[0x61, 0xCA, 0x62, 0xA3, 0x81, 0x21]);
    run(&mut machine, 3);
    assert_eq!(machine.register(1), 0xEB);
    let mut machine = machine_with(&[0x61, 0xCA, 0x62, 0xA3, 0x81, 0x22]);
    run(&mut machine, 3);
    assert_eq!(machine.register(1), 0x82);
    let mut machine = machine_with(&[0x61, 0xCA, 0x62, 0xA3, 0x81, 0x23]);
    run(&mut machine, 3);
    assert_eq!(machine.register(1), 0x69);
    assert_eq!(machine.register(2), 0xA3);
    assert_eq!(machine.register(0xF), 0);
    assert_eq!(machine.pc(), 0x206);
}

#[test]
fn add_reg_with_carry() {
    let mut machine = machine_with(&[0x61, 0xFF, 0x62, 0x01, 0x81, 0x24]);
    run(&mut machine, 3);
    assert_eq!(machine.register(1), 0x00);
    assert_eq!(machine.register(0xF), 1);
    assert_eq!(machine.register(2), 0x01);
}

#[test]
fn add_reg_without_carry_clears_vf() {
    let mut machine = machine_with(&[0x6F, 0x01, 0x61, 0xFE, 0x62, 0x01, 0x81, 0x24]);
    run(&mut machine, 4);
    assert_eq!(machine.register(1), 0xFF);
    assert_eq!(machine.register(0xF), 0);
}

#[test]
fn add_reg_into_vf_keeps_the_sum() {
    let mut machine = machine_with(&[0x6F, 0xF0, 0x61, 0x20, 0x8F, 0x14]);
    run(&mut machine, 3);
    assert_eq!(machine.register(0xF), 0x10);
}

#[test]
fn sub_reg_with_borrow() {
    let mut machine = machine_with(&[0x61, 0x01, 0x62, 0x02, 0x81, 0x25]);
    run(&mut machine, 3);
    assert_eq!(machine.register(1), 0xFF);
    assert_eq!(machine.register(0xF), 0);
}

#[test]
fn sub_reg_without_borrow() {
    let mut machine = machine_with(&[0x61, 0x07, 0x62, 0x07, 0x81, 0x25]);
    run(&mut machine, 3);
    assert_eq!(machine.register(1), 0x00);
    assert_eq!(machine.register(0xF), 1);
    let mut machine = machine_with(&[0x61, 0x09, 0x62, 0x04, 0x81, 0x25]);
    run(&mut machine, 3);
    assert_eq!(machine.register(1), 0x05);
    assert_eq!(machine.register(0xF), 1);
}

#[test]
fn shr_moves_low_bit_to_vf() {
    let mut machine = machine_with(&[0x61, 0x03, 0x81, 0x06]);
    run(&mut machine, 2);
    assert_eq!(machine.register(1), 0x01);
    assert_eq!(machine.register(0xF), 1);
    let mut machine = machine_with(&[0x61, 0xFE, 0x62, 0x01, 0x81, 0x26]);
    run(&mut machine, 3);
    assert_eq!(machine.register(1), 0x7F);
    assert_eq!(machine.register(0xF), 0);
    assert_eq!(machine.register(2), 0x01);
}

#[test]
fn subn_reg_subtracts_the_other_way() {
    let mut machine = machine_with(&[0x61, 0x02, 0x62, 0x09, 0x81, 0x27]);
    run(&mut machine, 3);
    assert_eq!(machine.register(1), 0x07);
    assert_eq!(machine.register(0xF), 1);
    let mut machine = machine_with(&[0x61, 0x09, 0x62, 0x02, 0x81, 0x27]);
    run(&mut machine, 3);
    assert_eq!(machine.register(1), 0xF9);
    assert_eq!(machine.register(0xF), 0);
}

#[test]
fn shl_moves_high_bit_to_vf() {
    let mut machine = machine_with(&[0x61, 0x81, 0x81, 0x0E]);
    run(&mut machine, 2);
    assert_eq!(machine.register(1), 0x02);
    assert_eq!(machine.register(0xF), 1);
    let mut machine = machine_with(&[0x61, 0x41, 0x81, 0x0E]);
    run(&mut machine, 2);
    assert_eq!(machine.register(1), 0x82);
    assert_eq!(machine.register(0xF), 0);
}

#[test]
fn ld_i_sets_the_address_register() {
    let mut machine = machine_with(&[0xAF, 0xED]);
    run(&mut machine, 1);
    assert_eq!(machine.index(), 0xFED);
    assert_eq!(machine.pc(), 0x202);
}

#[test]
fn jp_v0_adds_v0() {
    let mut machine = machine_with(&[0x60, 0x10, 0xB3, 0x00]);
    run(&mut machine, 2);
    assert_eq!(machine.pc(), 0x310);
}

#[test]
fn jp_v0_past_memory_fails_at_the_next_fetch() {
    let mut machine = machine_with(&[0x60, 0xFF, 0xBF, 0xFF]);
    run(&mut machine, 2);
    assert_eq!(machine.pc(), 0x10FE);
    assert_eq!(machine.cycle_with(0), Err(Chip8Error::OutOfBounds));
    assert_eq!(machine.pc(), 0x10FE);
}

#[test]
fn skp_and_sknp_look_at_the_key_in_vx() {
    let program = [0x61, 0x0A, 0xE1, 0x9E, 0x00, 0x00, 0xE1, 0xA1];
    let mut machine = machine_with(&program);
    run(&mut machine, 2);
    assert_eq!(machine.pc(), 0x204);

    let mut machine = machine_with(&program);
    machine.set_key_state(0xA, true);
    run(&mut machine, 2);
    assert_eq!(machine.pc(), 0x206);
    run(&mut machine, 1);
    assert_eq!(machine.pc(), 0x208);
    machine.set_key_state(0xA, false);

    let mut machine = machine_with(&[0x61, 0x0A, 0xE1, 0xA1]);
    machine.set_key_state(0xB, true);
    run(&mut machine, 2);
    assert_eq!(machine.pc(), 0x206);
}

#[test]
fn a_key_code_above_fifteen_is_never_down() {
    let mut machine = machine_with(&[0x61, 0x1A, 0xE1, 0x9E, 0xE1, 0xA1]);
    for code in 0..16u8 {
        machine.set_key_state(code, true);
    }
    run(&mut machine, 2);
    assert_eq!(machine.pc(), 0x204);
    run(&mut machine, 1);
    assert_eq!(machine.pc(), 0x208);
}

#[test]
fn timers_are_read_and_set() {
    let mut machine = machine_with(&[0x61, 0x33, 0xF1, 0x15, 0xF1, 0x18, 0xF2, 0x07]);
    run(&mut machine, 3);
    assert_eq!(machine.delay_timer(), 0x33);
    assert_eq!(machine.sound_timer(), 0x33);
    machine.tick_timers();
    run(&mut machine, 1);
    assert_eq!(machine.register(2), 0x32);
    assert_eq!(machine.pc(), 0x208);
}

#[test]
fn add_i_adds_vx() {
    let mut machine = machine_with(&[0xA1, 0x00, 0x61, 0xFF, 0xF1, 0x1E]);
    run(&mut machine, 3);
    assert_eq!(machine.index(), 0x1FF);
    assert_eq!(machine.register(0xF), 0);
}

#[test]
fn add_i_past_twelve_bits_is_kept() {
    let mut machine = machine_with(&[0xAF, 0xFF, 0x61, 0x02, 0xF1, 0x1E]);
    run(&mut machine, 3);
    assert_eq!(machine.index(), 0x1001);
    assert_eq!(machine.register(0xF), 0);
}

#[test]
fn ld_f_points_at_the_glyph() {
    let mut machine = machine_with(&[0x61, 0x0A, 0xF1, 0x29, 0x62, 0x00, 0xF2, 0x29, 0x63, 0x0F,
        0xF3, 0x29, 0x64, 0x37, 0xF4, 0x29]);
    run(&mut machine, 2);
    assert_eq!(machine.index(), 50);
    run(&mut machine, 2);
    assert_eq!(machine.index(), 0);
    run(&mut machine, 2);
    assert_eq!(machine.index(), 75);
    run(&mut machine, 2);
    assert_eq!(machine.index(), 35);
}

#[test]
fn bcd_stores_three_digits() {
    let mut machine = machine_with(&[0x61, 234, 0xA3, 0x00, 0xF1, 0x33]);
    run(&mut machine, 3);
    assert_eq!(machine.memory_at(0x300), 2);
    assert_eq!(machine.memory_at(0x301), 3);
    assert_eq!(machine.memory_at(0x302), 4);
    assert_eq!(machine.memory_at(0x303), 0);
    assert_eq!(machine.index(), 0x300);
    assert_eq!(machine.pc(), 0x206);
}

#[test]
fn bcd_of_small_and_large_values() {
    let mut machine = machine_with(&[0x61, 7, 0xA3, 0x00, 0xF1, 0x33, 0x62, 255, 0xA3, 0x10, 0xF2,
        0x33]);
    run(&mut machine, 6);
    assert_eq!(machine.memory_at(0x300), 0);
    assert_eq!(machine.memory_at(0x301), 0);
    assert_eq!(machine.memory_at(0x302), 7);
    assert_eq!(machine.memory_at(0x310), 2);
    assert_eq!(machine.memory_at(0x311), 5);
    assert_eq!(machine.memory_at(0x312), 5);
}

#[test]
fn bcd_at_the_end_of_memory() {
    let mut machine = machine_with(&[0x61, 123, 0xAF, 0xFD, 0xF1, 0x33]);
    run(&mut machine, 3);
    assert_eq!(machine.memory_at(0xFFD), 1);
    assert_eq!(machine.memory_at(0xFFE), 2);
    assert_eq!(machine.memory_at(0xFFF), 3);
    let mut machine = machine_with(&[0x61, 123, 0xAF, 0xFE, 0xF1, 0x33]);
    run(&mut machine, 2);
    assert_eq!(machine.cycle_with(0), Err(Chip8Error::OutOfBounds));
    assert_eq!(machine.memory_at(0xFFE), 0);
    assert_eq!(machine.memory_at(0xFFF), 0);
    assert_eq!(machine.pc(), 0x204);
}

#[test]
fn store_regs_copies_v0_to_vx() {
    let mut machine = machine_with(&[0x60, 0x11, 0x61, 0x22, 0x62, 0x33, 0x63, 0x44, 0xA3, 0x00,
        0xF2, 0x55]);
    run(&mut machine, 6);
    assert_eq!(machine.memory_at(0x300), 0x11);
    assert_eq!(machine.memory_at(0x301), 0x22);
    assert_eq!(machine.memory_at(0x302), 0x33);
    assert_eq!(machine.memory_at(0x303), 0x00);
    assert_eq!(machine.index(), 0x300);
    assert_eq!(machine.pc(), 0x20C);
}

#[test]
fn load_regs_fills_v0_to_vx() {
    let mut machine = machine_with(&[0x63, 0x99, 0xA2, 0x06, 0xF2, 0x65, 0xAA, 0xBB, 0xCC, 0xDD]);
    run(&mut machine, 3);
    assert_eq!(machine.register(0), 0xAA);
    assert_eq!(machine.register(1), 0xBB);
    assert_eq!(machine.register(2), 0xCC);
    assert_eq!(machine.register(3), 0x99);
    assert_eq!(machine.index(), 0x206);
    assert_eq!(machine.pc(), 0x206);
}

#[test]
fn store_and_load_of_all_registers_round_trip() {
    let mut program = Vec::new();
    for x in 0..16u8 {
        program.extend_from_slice(&[0x60 | x, 0xA0 + x]);
    }
    program.extend_from_slice(&[0xA4, 0x00, 0xFF, 0x55]);
    for x in 0..16u8 {
        program.extend_from_slice(&[0x60 | x, 0x00]);
    }
    program.extend_from_slice(&[0xFF, 0x65]);
    let mut machine = machine_with(&program);
    run(&mut machine, 35);
    for x in 0..16u8 {
        assert_eq!(machine.memory_at(0x400 + x as usize), 0xA0 + x);
        assert_eq!(machine.register(x), 0xA0 + x);
    }
    assert_eq!(machine.memory_at(0x410), 0);
}

#[test]
fn store_and_load_past_memory_are_out_of_bounds() {
    let mut machine = machine_with(&[0xAF, 0xFF, 0xF1, 0x55]);
    run(&mut machine, 1);
    assert_eq!(machine.cycle_with(0), Err(Chip8Error::OutOfBounds));
    assert_eq!(machine.memory_at(0xFFF), 0);
    let mut machine = machine_with(&[0xAF, 0xFF, 0xF1, 0x65]);
    run(&mut machine, 1);
    assert_eq!(machine.cycle_with(0), Err(Chip8Error::OutOfBounds));
    let mut machine = machine_with(&[0x60, 0x5A, 0xAF, 0xFF, 0xF0, 0x55, 0x60, 0x00, 0xF0, 0x65]);
    run(&mut machine, 5);
    assert_eq!(machine.memory_at(0xFFF), 0x5A);
    assert_eq!(machine.register(0), 0x5A);
}

#[test]
fn drw_twice_toggles_pixels_off_and_reports_collision() {
    let mut machine = machine_with(&[0x61, 0x0A, 0x62, 0x05, 0xA2, 0x0A, 0xD1, 0x21, 0xD1, 0x21,
        0xFF]);
    run(&mut machine, 4);
    let expected: Vec<(usize, usize)> = (10..18).map(|x| (x, 5)).collect();
    assert_eq!(lit(&mut machine), expected);
    assert_eq!(machine.register(0xF), 0);
    assert!(machine.needsRedraw());
    run(&mut machine, 1);
    assert!(lit(&mut machine).is_empty());
    assert_eq!(machine.register(0xF), 1);
    assert!(machine.needsRedraw());
    assert_eq!(machine.index(), 0x20A);
    assert_eq!(machine.pc(), 0x20A);
}

#[test]
fn drw_draws_a_font_glyph() {
    let mut machine = machine_with(&[0x61, 0x02, 0x62, 0x03, 0xA0, 0x05, 0xD1, 0x25]);
    run(&mut machine, 4);
    let expected = vec![(4, 3), (3, 4), (4, 4), (4, 5), (4, 6), (4, 7), (5, 7), (3, 7)];
    let mut expected_sorted = expected.clone();
    expected_sorted.sort_by_key(|&(x, y)| (y, x));
    assert_eq!(lit(&mut machine), expected_sorted);
    assert_eq!(machine.register(0xF), 0);
    assert_eq!(machine.index(), 5);
}

#[test]
fn drw_wraps_around_both_edges() {
    let mut machine = machine_with(&[0x61, 62, 0x62, 31, 0xA2, 0x08, 0xD1, 0x22, 0xF0, 0x81]);
    run(&mut machine, 4);
    let mut expected = vec![(62, 31), (63, 31), (0, 31), (1, 31), (62, 0), (5, 0)];
    expected.sort_by_key(|&(x, y)| (y, x));
    assert_eq!(lit(&mut machine), expected);
    assert_eq!(machine.register(0xF), 0);
}

#[test]
fn drw_wraps_a_start_coordinate_beyond_the_display() {
    let mut machine = machine_with(&[0x61, 64 + 3, 0x62, 32 + 2, 0xA2, 0x08, 0xD1, 0x21, 0x80]);
    run(&mut machine, 4);
    assert_eq!(lit(&mut machine), vec![(3, 2)]);
    let mut machine = machine_with(&[0x61, 255, 0x62, 255, 0xA2, 0x08, 0xD1, 0x21, 0xC0]);
    run(&mut machine, 4);
    assert_eq!(lit(&mut machine), vec![(0, 31), (63, 31)]);
}

#[test]
fn drw_partial_overlap_collides_and_xors() {
    let mut machine = machine_with(&[0x61, 0x00, 0x62, 0x00, 0xA2, 0x0E, 0xD1, 0x21, 0xA2, 0x0F,
        0xD1, 0x21, 0x00, 0x00, 0xF0, 0x3C]);
    run(&mut machine, 4);
    assert_eq!(machine.register(0xF), 0);
    run(&mut machine, 2);
    assert_eq!(lit(&mut machine), vec![(0, 0), (1, 0), (4, 0), (5, 0)]);
    assert_eq!(machine.register(0xF), 1);
}

#[test]
fn drw_without_overlap_clears_vf() {
    let mut machine = machine_with(&[0x6F, 0x01, 0x61, 0x08, 0xA2, 0x0A, 0xD0, 0x01, 0xD1, 0x01,
        0xFF]);
    run(&mut machine, 4);
    assert_eq!(machine.register(0xF), 0);
    run(&mut machine, 1);
    assert_eq!(machine.register(0xF), 0);
    let expected: Vec<(usize, usize)> = (0..16).map(|x| (x, 0)).collect();
    assert_eq!(lit(&mut machine), expected);
}

#[test]
fn drw_of_no_rows_changes_no_pixel_but_marks_the_display() {
    let mut machine = machine_with(&[0x6F, 0x07, 0xAF, 0xFF, 0xD0, 0x00]);
    run(&mut machine, 3);
    assert!(lit(&mut machine).is_empty());
    assert_eq!(machine.register(0xF), 0);
    assert!(machine.needsRedraw());
    assert_eq!(machine.pc(), 0x206);
}

#[test]
fn drw_reads_coordinates_before_it_writes_vf() {
    let mut machine = machine_with(&[0x6F, 0x04, 0x61, 0x02, 0xA2, 0x08, 0xDF, 0x11, 0x80]);
    run(&mut machine, 4);
    assert_eq!(lit(&mut machine), vec![(4, 2)]);
    assert_eq!(machine.register(0xF), 0);
}

#[test]
fn drw_past_memory_is_out_of_bounds() {
    let mut machine = machine_with(&[0xAF, 0xFE, 0xD0, 0x03]);
    run(&mut machine, 1);
    assert_eq!(machine.cycle_with(0), Err(Chip8Error::OutOfBounds));
    assert!(lit(&mut machine).is_empty());
    assert!(!machine.needsRedraw());
    assert_eq!(machine.pc(), 0x202);
    let mut machine = machine_with(&[0xAF, 0xFE, 0xD0, 0x02]);
    run(&mut machine, 2);
    assert_eq!(machine.pc(), 0x204);
}

#[test]
fn wait_for_key_holds_until_a_key_is_down() {
    let mut machine = machine_with(&[0x63, 0x77, 0xF3, 0x0A, 0x64, 0x01]);
    run(&mut machine, 1);
    for _ in 0..10 {
        assert_eq!(machine.cycle_with(0), Ok(()));
        assert_eq!(machine.pc(), 0x202);
        assert_eq!(machine.register(3), 0x77);
        assert_eq!(machine.awaiting_key(), Some(3));
    }
    machine.set_key_state(0x9, true);
    assert_eq!(machine.cycle_with(0), Ok(()));
    assert_eq!(machine.pc(), 0x204);
    assert_eq!(machine.register(3), 0x9);
    assert_eq!(machine.awaiting_key(), None);
    run(&mut machine, 1);
    assert_eq!(machine.register(4), 1);
    assert_eq!(machine.pc(), 0x206);
}

#[test]
fn wait_for_key_takes_the_lowest_key_that_is_down() {
    let mut machine = machine_with(&[0xF0, 0x0A]);
    run(&mut machine, 1);
    machine.set_key_state(0xC, true);
    machine.set_key_state(0x4, true);
    machine.set_key_state(0xF, true);
    run(&mut machine, 1);
    assert_eq!(machine.register(0), 0x4);
    assert_eq!(machine.pc(), 0x202);
}

#[test]
fn wait_for_key_starts_even_if_a_key_is_already_down() {
    let mut machine = machine_with(&[0xF5, 0x0A]);
    machine.set_key_state(0x0, true);
    run(&mut machine, 1);
    assert_eq!(machine.pc(), 0x200);
    assert_eq!(machine.awaiting_key(), Some(5));
    assert_eq!(machine.register(5), 0);
    machine.set_key_state(0x0, false);
    machine.set_key_state(0x1, true);
    run(&mut machine, 1);
    assert_eq!(machine.register(5), 1);
    assert_eq!(machine.pc(), 0x202);
}

#[test]
fn wait_for_key_lets_timers_run() {
    let mut machine = machine_with(&[0x61, 0x05, 0xF1, 0x15, 0xF0, 0x0A]);
    run(&mut machine, 3);
    for _ in 0..3 {
        run(&mut machine, 1);
        machine.tick_timers();
    }
    assert_eq!(machine.delay_timer(), 2);
    assert_eq!(machine.pc(), 0x204);
}

#[test]
fn failed_step_leaves_the_machine_as_it_was() {
    let mut machine = machine_with(&[0x61, 0x42, 0xA3, 0x21, 0xD1, 0x11, 0xFF, 0xFF]);
    run(&mut machine, 3);
    let vram = machine.checkVram();
    let memory: Vec<u8> = (0..4096).map(|a| machine.memory_at(a)).collect();
    for _ in 0..3 {
        assert_eq!(machine.cycle_with(9), Err(Chip8Error::UnknownOpcode(0xFFFF)));
    }
    assert_eq!(machine.pc(), 0x206);
    assert_eq!(machine.index(), 0x321);
    assert_eq!(machine.register(1), 0x42);
    assert_eq!(machine.stack_depth(), 0);
    assert_eq!(machine.checkVram(), vram);
    let after: Vec<u8> = (0..4096).map(|a| machine.memory_at(a)).collect();
    assert_eq!(after, memory);
}

use chip::{ChipState, Error};

fn machine_with(program: &[u8]) -> ChipState {
    let mut m = ChipState::new(42);
    m.load(program);
    m
}

fn run(m: &mut ChipState, ticks: usize) {
    for _ in 0..ticks {
        assert!(m.can_tick());
        m.tick().unwrap();
    }
}

#[test]
fn load_then_set_register() {
    let mut m = machine_with(&[0x6A, 0x3C]);
    assert_eq!(m.program_counter(), 0x200);
    assert!(m.tick().is_ok());
    assert_eq!(m.register(0xA), 0x3C);
    assert_eq!(m.program_counter(), 0x202);
}

#[test]
fn fresh_machine_is_blank() {
    let m = ChipState::new(7);
    assert_eq!(m.get_fbuf().len(), 32);
    assert!(m.get_fbuf().iter().all(|&row| row == 0));
    assert_eq!(m.program_counter(), 0);
    assert_eq!(m.keys, 0);
    for x in 0..16u8 {
        assert_eq!(m.register(x), 0);
    }
}

#[test]
fn add_immediate_wraps() {
    let mut m = machine_with(&[0x6A, 0xF0, 0x7A, 0x20, 0x63, 0x10, 0x73, 0x05]);
    run(&mut m, 4);
    assert_eq!(m.register(0xA), 0x10);
    assert_eq!(m.register(0x3), 0x15);
    assert_eq!(m.register(0xF), 0);
}

#[test]
fn add_registers_sets_carry() {
    let mut m = machine_with(&[0x60, 200, 0x61, 100, 0x80, 0x14]);
    run(&mut m, 3);
    assert_eq!(m.register(0), 44);
    assert_eq!(m.register(0xF), 1);
}

#[test]
fn add_registers_without_carry() {
    let mut m = machine_with(&[0x60, 100, 0x61, 100, 0x80, 0x14]);
    run(&mut m, 3);
    assert_eq!(m.register(0), 200);
    assert_eq!(m.register(0xF), 0);
}

#[test]
fn subtract_sets_borrow_flag() {
    // 10 - 3
    let mut m = machine_with(&[0x60, 10, 0x61, 3, 0x80, 0x15]);
    run(&mut m, 3);
    assert_eq!(m.register(0), 7);
    assert_eq!(m.register(0xF), 1);
    // 3 - 10 wraps
    let mut m = machine_with(&[0x60, 3, 0x61, 10, 0x80, 0x15]);
    run(&mut m, 3);
    assert_eq!(m.register(0), 249);
    assert_eq!(m.register(0xF), 0);
    // equal operands: no borrow flag
    let mut m = machine_with(&[0x60, 5, 0x61, 5, 0x80, 0x15]);
    run(&mut m, 3);
    assert_eq!(m.register(0), 0);
    assert_eq!(m.register(0xF), 0);
}

#[test]
fn reverse_subtract_sets_borrow_flag() {
    // v0 = v1 - v0 = 10 - 3
    let mut m = machine_with(&[0x60, 3, 0x61, 10, 0x80, 0x17]);
    run(&mut m, 3);
    assert_eq!(m.register(0), 7);
    assert_eq!(m.register(0xF), 1);
    // 3 - 10 wraps
    let mut m = machine_with(&[0x60, 10, 0x61, 3, 0x80, 0x17]);
    run(&mut m, 3);
    assert_eq!(m.register(0), 249);
    assert_eq!(m.register(0xF), 0);
}

#[test]
fn logic_ops_reset_flag() {
    let mut m = machine_with(&[0x6F, 9, 0x60, 0x0C, 0x61, 0x0A, 0x80, 0x11]);
    run(&mut m, 4);
    assert_eq!(m.register(0), 0x0E);
    assert_eq!(m.register(0xF), 0);
    let mut m = machine_with(&[0x60, 0x0C, 0x61, 0x0A, 0x80, 0x12, 0x62, 0x0C, 0x82, 0x13]);
    run(&mut m, 5);
    assert_eq!(m.register(0), 0x08);
    assert_eq!(m.register(2), 0x06);
}

#[test]
fn shifts_read_second_register() {
    let mut m = machine_with(&[0x61, 0x81, 0x80, 0x16]);
    run(&mut m, 2);
    assert_eq!(m.register(0), 0x40);
    assert_eq!(m.register(0xF), 1);
    let mut m = machine_with(&[0x61, 0x81, 0x80, 0x1E]);
    run(&mut m, 2);
    assert_eq!(m.register(0), 0x02);
    assert_eq!(m.register(0xF), 1);
    let mut m = machine_with(&[0x61, 0x40, 0x80, 0x1E]);
    run(&mut m, 2);
    assert_eq!(m.register(0), 0x80);
    assert_eq!(m.register(0xF), 0);
}

#[test]
fn clear_screen_zeroes_every_row() {
    let mut m = machine_with(&[0xA0, 0x00, 0xD0, 0x05, 0x00, 0xE0]);
    run(&mut m, 2);
    assert_ne!(m.get_fbuf()[0], 0);
    run(&mut m, 1);
    let fb = m.get_fbuf();
    assert_eq!(fb.len(), 32);
    assert!(fb.iter().all(|&row| row == 0));
}

#[test]
fn call_then_return() {
    // 0x200: call 0x206; 0x202: v0 = 1; 0x206: return
    let mut m = machine_with(&[0x22, 0x06, 0x60, 0x01, 0x00, 0x00, 0x00, 0xEE]);
    run(&mut m, 1);
    assert_eq!(m.program_counter(), 0x206);
    run(&mut m, 1);
    assert_eq!(m.program_counter(), 0x202);
    run(&mut m, 1);
    assert_eq!(m.register(0), 1);
}

#[test]
fn return_on_empty_stack_fails() {
    let mut m = machine_with(&[0x00, 0xEE]);
    assert_eq!(m.tick(), Err(Error::PoppedEmptyStack));
    assert_eq!(m.program_counter(), 0x200);
}

#[test]
fn draw_digit_zero_twice() {
    let mut m = machine_with(&[0x60, 0x00, 0xA0, 0x00, 0xD0, 0x05, 0xD0, 0x05]);
    run(&mut m, 3);
    assert_eq!(m.register(0xF), 0);
    let expected = [0xF0u64, 0x90, 0x90, 0x90, 0xF0];
    for (r, byte) in expected.iter().enumerate() {
        assert_eq!(m.get_fbuf()[r], byte << 56);
    }
    assert_eq!(m.get_fbuf()[5], 0);
    run(&mut m, 1);
    assert_eq!(m.register(0xF), 1);
    assert!(m.get_fbuf().iter().all(|&row| row == 0));
}

#[test]
fn draw_clips_right_and_bottom_edges() {
    // v0 = 60, v1 = 30; I = glyph 0; draw 5 rows
    let mut m = machine_with(&[0x60, 60, 0x61, 30, 0xA0, 0x00, 0xD0, 0x15]);
    run(&mut m, 4);
    let fb = m.get_fbuf();
    assert_eq!(fb[30], 0xF);
    assert_eq!(fb[31], 0x9);
    assert_eq!(fb[0], 0);
    assert_eq!(fb[1], 0);
}

#[test]
fn draw_coordinates_wrap_start() {
    // v0 = 64 + 8 draws at column 8, v1 = 32 + 1 draws at row 1
    let mut m = machine_with(&[0x60, 72, 0x61, 33, 0xA0, 0x00, 0xD0, 0x11]);
    run(&mut m, 4);
    assert_eq!(m.get_fbuf()[1], 0xF0u64 << 48);
    assert_eq!(m.get_fbuf()[0], 0);
}

#[test]
fn same_seed_gives_same_random_values() {
    let program = [0xC0, 0xFF, 0xC1, 0xFF, 0xC2, 0x0F];
    let mut a = machine_with(&program);
    let mut b = machine_with(&program);
    run(&mut a, 3);
    run(&mut b, 3);
    for x in 0..3u8 {
        assert_eq!(a.register(x), b.register(x));
    }
    assert_eq!(a.register(0), 40);
    assert_eq!(a.register(1), 172);
    assert_eq!(a.register(2), 14 & 0x0F);
}

#[test]
fn compare_with_nonzero_low_nibble_is_undefined() {
    let mut m = machine_with(&[0x50, 0x01]);
    assert_eq!(m.tick(), Err(Error::UndefinedOp(0x5001)));
    assert_eq!(m.program_counter(), 0x200);
}

#[test]
fn unknown_words_are_undefined() {
    for word in [0x0123u16, 0x8008, 0x9011, 0xE000, 0xF0FF] {
        let mut m = machine_with(&word.to_be_bytes());
        assert_eq!(m.tick(), Err(Error::UndefinedOp(word)));
        assert_eq!(m.program_counter(), 0x200);
    }
}

#[test]
fn skips_on_register_comparisons() {
    let mut m = machine_with(&[0x60, 0x05, 0x30, 0x05]);
    run(&mut m, 2);
    assert_eq!(m.program_counter(), 0x206);
    let mut m = machine_with(&[0x60, 0x05, 0x40, 0x05]);
    run(&mut m, 2);
    assert_eq!(m.program_counter(), 0x204);
    let mut m = machine_with(&[0x60, 0x05, 0x61, 0x05, 0x50, 0x10]);
    run(&mut m, 3);
    assert_eq!(m.program_counter(), 0x208);
    let mut m = machine_with(&[0x60, 0x05, 0x61, 0x05, 0x90, 0x10]);
    run(&mut m, 3);
    assert_eq!(m.program_counter(), 0x206);
}

#[test]
fn jumps() {
    let mut m = machine_with(&[0x13, 0x45]);
    run(&mut m, 1);
    assert_eq!(m.program_counter(), 0x345);
    let mut m = machine_with(&[0x60, 0x10, 0xB3, 0x00]);
    run(&mut m, 2);
    assert_eq!(m.program_counter(), 0x310);
}

#[test]
fn key_skips() {
    let mut m = machine_with(&[0x60, 0x05, 0xE0, 0x9E]);
    m.press_key(5);
    run(&mut m, 2);
    assert_eq!(m.program_counter(), 0x206);
    let mut m = machine_with(&[0x60, 0x05, 0xE0, 0xA1]);
    m.press_key(5);
    m.release_key(5);
    assert_eq!(m.keys, 0);
    run(&mut m, 2);
    assert_eq!(m.program_counter(), 0x206);
}

#[test]
fn wait_for_key_polls() {
    let mut m = machine_with(&[0xF3, 0x0A]);
    run(&mut m, 1);
    assert_eq!(m.program_counter(), 0x200);
    m.press_key(9);
    m.press_key(4);
    assert_eq!(m.keys, (1 << 9) | (1 << 4));
    run(&mut m, 1);
    assert_eq!(m.register(3), 4);
    assert_eq!(m.program_counter(), 0x202);
}

#[test]
fn timers_count_down_per_instruction() {
    // delay = 5, then read it back twice
    let mut m = machine_with(&[0x60, 0x05, 0xF0, 0x15, 0xF1, 0x07, 0xF2, 0x07]);
    run(&mut m, 4);
    assert_eq!(m.register(1), 4);
    assert_eq!(m.register(2), 3);
}

#[test]
fn bcd_store_and_register_load() {
    // v0 = 254; I = 0x300; BCD; load v0..v2 from I
    let mut m = machine_with(&[0x60, 254, 0xA3, 0x00, 0xF0, 0x33, 0xF2, 0x65]);
    run(&mut m, 4);
    assert_eq!(m.register(0), 2);
    assert_eq!(m.register(1), 5);
    assert_eq!(m.register(2), 4);
}

#[test]
fn register_store_then_load() {
    // v0 = 7, v1 = 9; I = 0x300; store v0..v1; I = 0x300; v0 = 0, v1 = 0; load
    let mut m = machine_with(&[
        0x60, 7, 0x61, 9, 0xA3, 0x00, 0xF1, 0x55, 0xA3, 0x00, 0x60, 0, 0x61, 0, 0xF1, 0x65,
    ]);
    run(&mut m, 8);
    assert_eq!(m.register(0), 7);
    assert_eq!(m.register(1), 9);
}

#[test]
fn index_add_and_glyph_address() {
    // v0 = 0xA; I = glyph of v0; draw 5 rows at (v1, v1) = (0, 0)
    let mut m = machine_with(&[0x60, 0x0A, 0xF0, 0x29, 0x61, 0x00, 0xD1, 0x15]);
    run(&mut m, 4);
    assert_eq!(m.get_fbuf()[0], 0xF0u64 << 56);
    assert_eq!(m.get_fbuf()[4], 0x90u64 << 56);
    // I = 0; I += 5 points at glyph 1
    let mut m = machine_with(&[0xA0, 0x00, 0x60, 0x05, 0xF0, 0x1E, 0x61, 0x00, 0xD1, 0x11]);
    run(&mut m, 5);
    assert_eq!(m.get_fbuf()[0], 0x20u64 << 56);
}

#[test]
fn cannot_tick_past_memory() {
    let mut m = machine_with(&[0x1F, 0xFF]);
    run(&mut m, 1);
    assert_eq!(m.program_counter(), 0xFFF);
    assert!(!m.can_tick());
}

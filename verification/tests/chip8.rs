use chip_8_emulator::{emulate, load_program, set_input, setup_emulator, Chip8Error, Interpreter};

fn boot(prog: &[u8]) -> Interpreter {
    let mut itp = setup_emulator();
    let bytes: Vec<u8> = prog.to_vec();
    load_program(&mut itp, &bytes).unwrap();
    itp
}

fn run(itp: &mut Interpreter, steps: usize) {
    for _ in 0..steps {
        emulate(itp).unwrap();
    }
}

#[test]
fn setup_initial_state() {
    let itp = setup_emulator();
    assert_eq!(itp.pc(), 0x200);
    assert_eq!(itp.index_reg(), 0);
    assert_eq!(itp.delay(), 0);
    assert_eq!(itp.sound(), 0);
    assert_eq!(itp.stack_depth(), 0);
    for x in 0..16 {
        assert_eq!(itp.reg(x), 0);
    }
    assert_eq!(itp.mem(0x50), 0xF0);
    assert_eq!(itp.mem(0x9F), 0x80);
    assert_eq!(itp.mem(0x4F), 0x00);
    assert_eq!(itp.mem(0xA0), 0x00);
    for x in 0..64 {
        for y in 0..32 {
            assert!(!itp.pixel(x, y));
        }
    }
}

#[test]
fn load_register_immediate() {
    let mut itp = boot(&[0x6A, 0x42]);
    run(&mut itp, 1);
    assert_eq!(itp.reg(10), 0x42);
    for x in 0..16 {
        if x != 10 {
            assert_eq!(itp.reg(x), 0);
        }
    }
    assert_eq!(itp.pc(), 0x202);
}

#[test]
fn add_immediate_wraps_without_flag() {
    let mut itp = boot(&[0x60, 0xFA, 0x70, 0x0A]);
    run(&mut itp, 2);
    assert_eq!(itp.reg(0), 4);
    assert_eq!(itp.reg(15), 0);
}

#[test]
fn add_registers_with_carry() {
    let mut itp = boot(&[0x60, 0xC8, 0x61, 0x64, 0x80, 0x14]);
    run(&mut itp, 3);
    assert_eq!(itp.reg(0), 44);
    assert_eq!(itp.reg(15), 1);
}

#[test]
fn add_registers_without_carry() {
    let mut itp = boot(&[0x60, 0x0A, 0x61, 0x14, 0x80, 0x14]);
    run(&mut itp, 3);
    assert_eq!(itp.reg(0), 30);
    assert_eq!(itp.reg(15), 0);
}

#[test]
fn sub_registers_with_borrow() {
    let mut itp = boot(&[0x60, 0x05, 0x61, 0x0A, 0x80, 0x15]);
    run(&mut itp, 3);
    assert_eq!(itp.reg(0), 251);
    assert_eq!(itp.reg(15), 0);
}

#[test]
fn sub_registers_without_borrow() {
    let mut itp = boot(&[0x60, 0x0A, 0x61, 0x05, 0x80, 0x15]);
    run(&mut itp, 3);
    assert_eq!(itp.reg(0), 5);
    assert_eq!(itp.reg(15), 1);
}

#[test]
fn shift_right_reads_and_writes_source_register() {
    let mut itp = boot(&[0x61, 0x07, 0x80, 0x16]);
    run(&mut itp, 2);
    assert_eq!(itp.reg(0), 3);
    assert_eq!(itp.reg(1), 3);
    assert_eq!(itp.reg(15), 1);
}

#[test]
fn shift_left_reads_and_writes_source_register() {
    let mut itp = boot(&[0x61, 0x81, 0x80, 0x1E]);
    run(&mut itp, 2);
    assert_eq!(itp.reg(0), 2);
    assert_eq!(itp.reg(1), 2);
    assert_eq!(itp.reg(15), 1);
}

#[test]
fn clear_display_darkens_every_pixel() {
    // draw a sprite, then clear: every pixel reads dark afterwards
    let mut prog = vec![0xA3, 0x00, 0xD0, 0x01, 0x00, 0xE0];
    prog.resize(0x100, 0);
    prog.push(0xFF);
    let mut itp = boot(&prog);
    run(&mut itp, 2);
    assert!(itp.pixel(0, 0));
    let changed = emulate(&mut itp).unwrap();
    assert!(changed);
    for x in 0..64 {
        for y in 0..32 {
            assert!(!itp.pixel(x, y));
        }
    }
}

#[test]
fn clear_display_on_dark_screen_reports_no_change() {
    let mut itp = boot(&[0x00, 0xE0]);
    let changed = emulate(&mut itp).unwrap();
    assert!(!changed);
}

#[test]
fn call_then_return_resumes_after_call() {
    let mut itp = boot(&[0x22, 0x04, 0x00, 0x00, 0x00, 0xEE]);
    run(&mut itp, 1);
    assert_eq!(itp.pc(), 0x204);
    assert_eq!(itp.stack_depth(), 1);
    run(&mut itp, 1);
    assert_eq!(itp.pc(), 0x202);
    assert_eq!(itp.stack_depth(), 0);
}

#[test]
fn draw_twice_toggles_sprite_off() {
    let mut prog = vec![0x60, 0x0A, 0x61, 0x05, 0xA3, 0x00, 0xD0, 0x11, 0xD0, 0x11];
    prog.resize(0x100, 0);
    prog.push(0xFF);
    let mut itp = boot(&prog);
    run(&mut itp, 3);
    let changed = emulate(&mut itp).unwrap();
    assert!(changed);
    for j in 0..8 {
        assert!(itp.pixel(10 + j, 5));
    }
    assert_eq!(itp.reg(15), 0);
    let changed = emulate(&mut itp).unwrap();
    assert!(changed);
    for j in 0..8 {
        assert!(!itp.pixel(10 + j, 5));
    }
    assert_eq!(itp.reg(15), 1);
}

#[test]
fn draw_clips_at_screen_edges() {
    // x0 = 60: only the leftmost four sprite columns are visible
    let mut prog = vec![0x60, 0x3C, 0x61, 0x00, 0xA3, 0x00, 0xD0, 0x11];
    prog.resize(0x100, 0);
    prog.push(0xFF);
    let mut itp = boot(&prog);
    run(&mut itp, 4);
    for x in 60..64 {
        assert!(itp.pixel(x, 0));
    }
    for x in 0..60 {
        assert!(!itp.pixel(x, 0));
    }
}

#[test]
fn font_address_instruction() {
    let mut itp = boot(&[0x60, 0x0A, 0xF0, 0x29]);
    run(&mut itp, 2);
    assert_eq!(itp.index_reg(), 0x82);
}

#[test]
fn bcd_digits_stored_at_index() {
    let mut itp = boot(&[0x60, 0xEA, 0xA3, 0x00, 0xF0, 0x33]);
    run(&mut itp, 3);
    assert_eq!(itp.mem(0x300), 2);
    assert_eq!(itp.mem(0x301), 3);
    assert_eq!(itp.mem(0x302), 4);
}

#[test]
fn wait_key_blocks_until_key_pressed() {
    let mut itp = boot(&[0xF5, 0x0A]);
    run(&mut itp, 1);
    assert_eq!(itp.pc(), 0x200);
    run(&mut itp, 1);
    assert_eq!(itp.pc(), 0x200);
    let mut keys = vec![false; 16];
    keys[7] = true;
    set_input(&mut itp, &keys);
    run(&mut itp, 1);
    assert_eq!(itp.reg(5), 7);
    assert_eq!(itp.pc(), 0x202);
}

#[test]
fn wait_key_picks_lowest_pressed() {
    let mut itp = boot(&[0xF5, 0x0A]);
    let mut keys = vec![false; 16];
    keys[3] = true;
    keys[9] = true;
    set_input(&mut itp, &keys);
    run(&mut itp, 1);
    assert_eq!(itp.reg(5), 3);
}

#[test]
fn scenario_three_instructions_add() {
    let mut itp = boot(&[0x60, 0x05, 0x61, 0x03, 0x80, 0x14]);
    run(&mut itp, 3);
    assert_eq!(itp.reg(0), 8);
    assert_eq!(itp.reg(15), 0);
}

#[test]
fn jump_sets_program_counter() {
    let mut itp = boot(&[0x12, 0x08]);
    run(&mut itp, 1);
    assert_eq!(itp.pc(), 0x208);
}

#[test]
fn jump_with_offset_adds_register_zero() {
    let mut itp = boot(&[0x60, 0x04, 0xB2, 0x0A]);
    run(&mut itp, 2);
    assert_eq!(itp.pc(), 0x20E);
}

#[test]
fn skip_if_equal_immediate() {
    let mut itp = boot(&[0x60, 0x05, 0x30, 0x05, 0x00, 0x00, 0x60, 0x01]);
    run(&mut itp, 2);
    assert_eq!(itp.pc(), 0x206);
}

#[test]
fn skip_if_not_equal_immediate() {
    let mut itp = boot(&[0x60, 0x05, 0x40, 0x05]);
    run(&mut itp, 2);
    assert_eq!(itp.pc(), 0x204);
}

#[test]
fn skip_if_registers_equal_and_not_equal() {
    let mut itp = boot(&[0x60, 0x05, 0x61, 0x05, 0x50, 0x10]);
    run(&mut itp, 3);
    assert_eq!(itp.pc(), 0x208);
    let mut itp = boot(&[0x60, 0x05, 0x61, 0x06, 0x90, 0x10]);
    run(&mut itp, 3);
    assert_eq!(itp.pc(), 0x208);
}

#[test]
fn key_skip_instructions_follow_input() {
    let mut itp = boot(&[0x60, 0x04, 0xE0, 0x9E, 0x00, 0x00, 0xE0, 0xA1]);
    let mut keys = vec![false; 16];
    keys[4] = true;
    set_input(&mut itp, &keys);
    run(&mut itp, 2);
    // key 4 pressed: skip over 0x204 to 0x206
    assert_eq!(itp.pc(), 0x206);
    run(&mut itp, 1);
    // ExA1 with the key still pressed: no skip
    assert_eq!(itp.pc(), 0x208);
}

#[test]
fn timers_store_and_tick() {
    let mut itp = boot(&[0x60, 0x05, 0xF0, 0x15, 0xF1, 0x07]);
    run(&mut itp, 2);
    assert_eq!(itp.delay(), 5);
    run(&mut itp, 1);
    // the cycle first ticks the timer to 4, then stores it
    assert_eq!(itp.reg(1), 4);
    assert_eq!(itp.delay(), 4);
}

#[test]
fn sound_timer_stores_and_ticks() {
    let mut itp = boot(&[0x60, 0x02, 0xF0, 0x18, 0x01, 0x23]);
    run(&mut itp, 2);
    assert_eq!(itp.sound(), 2);
    run(&mut itp, 1);
    assert_eq!(itp.sound(), 1);
}

#[test]
fn add_to_index_masks_to_twelve_bits() {
    let mut itp = boot(&[0x60, 0x05, 0xA0, 0x10, 0xF0, 0x1E]);
    run(&mut itp, 3);
    assert_eq!(itp.index_reg(), 0x15);
    assert_eq!(itp.reg(15), 0);
}

#[test]
fn register_dump_and_load() {
    let mut itp = boot(&[
        0x60, 0x0B, 0x61, 0x16, 0xA3, 0x00, 0xF1, 0x55, 0x60, 0x00, 0x61, 0x00, 0xF1, 0x65,
    ]);
    run(&mut itp, 4);
    assert_eq!(itp.mem(0x300), 11);
    assert_eq!(itp.mem(0x301), 22);
    run(&mut itp, 3);
    assert_eq!(itp.reg(0), 11);
    assert_eq!(itp.reg(1), 22);
}

#[test]
fn random_masked_with_zero_is_zero() {
    let mut itp = boot(&[0x60, 0x55, 0xC0, 0x00]);
    run(&mut itp, 2);
    assert_eq!(itp.reg(0), 0);
}

#[test]
fn register_copy_and_bitwise_ops() {
    let mut itp = boot(&[0x60, 0x0C, 0x61, 0x0A, 0x80, 0x11]);
    run(&mut itp, 3);
    assert_eq!(itp.reg(0), 0x0E);
    let mut itp = boot(&[0x60, 0x0C, 0x61, 0x0A, 0x80, 0x12]);
    run(&mut itp, 3);
    assert_eq!(itp.reg(0), 0x08);
    let mut itp = boot(&[0x60, 0x0C, 0x61, 0x0A, 0x80, 0x13]);
    run(&mut itp, 3);
    assert_eq!(itp.reg(0), 0x06);
    let mut itp = boot(&[0x61, 0x0A, 0x80, 0x10]);
    run(&mut itp, 2);
    assert_eq!(itp.reg(0), 0x0A);
}

#[test]
fn reverse_sub_both_directions() {
    let mut itp = boot(&[0x60, 0x05, 0x61, 0x0A, 0x80, 0x17]);
    run(&mut itp, 3);
    assert_eq!(itp.reg(0), 5);
    assert_eq!(itp.reg(15), 1);
    let mut itp = boot(&[0x60, 0x0A, 0x61, 0x05, 0x80, 0x17]);
    run(&mut itp, 3);
    assert_eq!(itp.reg(0), 251);
    assert_eq!(itp.reg(15), 0);
}

#[test]
fn return_on_empty_stack_is_underflow() {
    let mut itp = boot(&[0x00, 0xEE]);
    let e = emulate(&mut itp).unwrap_err();
    assert_eq!(e, Chip8Error::StackUnderflow { instr: 0x00EE, pc: 0x200 });
}

#[test]
fn unknown_opcodes_are_fatal() {
    let mut itp = boot(&[0x00, 0xFF]);
    let e = emulate(&mut itp).unwrap_err();
    assert_eq!(e, Chip8Error::UnknownOpcode { instr: 0x00FF, pc: 0x200 });
    let mut itp = boot(&[0x80, 0x0F]);
    let e = emulate(&mut itp).unwrap_err();
    assert_eq!(e, Chip8Error::UnknownOpcode { instr: 0x800F, pc: 0x200 });
    let mut itp = boot(&[0xE0, 0xFF]);
    let e = emulate(&mut itp).unwrap_err();
    assert_eq!(e, Chip8Error::UnknownOpcode { instr: 0xE0FF, pc: 0x200 });
    let mut itp = boot(&[0xF0, 0xFF]);
    let e = emulate(&mut itp).unwrap_err();
    assert_eq!(e, Chip8Error::UnknownOpcode { instr: 0xF0FF, pc: 0x200 });
}

#[test]
fn machine_code_routines_are_ignored() {
    let mut itp = boot(&[0x01, 0x23]);
    let changed = emulate(&mut itp).unwrap();
    assert!(!changed);
    assert_eq!(itp.pc(), 0x202);
    for x in 0..16 {
        assert_eq!(itp.reg(x), 0);
    }
}

#[test]
fn fetch_past_end_of_memory_fails() {
    let mut itp = boot(&[0x1F, 0xFF]);
    run(&mut itp, 1);
    assert_eq!(itp.pc(), 0xFFF);
    let e = emulate(&mut itp).unwrap_err();
    assert_eq!(e, Chip8Error::FetchOutOfBounds { pc: 0xFFF });
}

#[test]
fn bcd_past_end_of_memory_fails() {
    let mut itp = boot(&[0xAF, 0xFF, 0xF0, 0x33]);
    run(&mut itp, 1);
    let e = emulate(&mut itp).unwrap_err();
    assert_eq!(e, Chip8Error::AddrOutOfBounds { instr: 0xF033, pc: 0x202 });
}

#[test]
fn key_skip_with_bad_key_code_fails() {
    let mut itp = boot(&[0x60, 0x14, 0xE0, 0x9E]);
    run(&mut itp, 1);
    let e = emulate(&mut itp).unwrap_err();
    assert_eq!(e, Chip8Error::KeyOutOfRange { instr: 0xE09E, pc: 0x202 });
}

#[test]
fn oversized_program_is_rejected() {
    let mut itp = setup_emulator();
    let big = vec![0u8; 3585];
    let e = load_program(&mut itp, &big).unwrap_err();
    assert_eq!(e, Chip8Error::ProgramTooLarge { len: 3585 });
    // nothing was copied
    assert_eq!(itp.mem(0x200), 0);
    let full = vec![0x11u8; 3584];
    load_program(&mut itp, &full).unwrap();
    assert_eq!(itp.mem(0x200), 0x11);
    assert_eq!(itp.mem(0xFFF), 0x11);
    assert_eq!(itp.mem(0x1FF), 0);
}

use tiny_chip8::{to_nybbles, Chip8};

#[test]
fn test_load_rom() {
    let mut c = Chip8::new();
    let mut rom = [1; 4096];

    rom[0] = 255;
    rom[1] = 2;
    rom[2] = 3;
    c.load_rom(&rom);

    assert_eq!(c.memory[0x200], 255);
    assert_eq!(c.memory[0x201], 2);
    assert_eq!(c.memory[0x202], 3);
}

#[test]
fn test_first_512_off_limits() {
    let mut c = Chip8::new();
    let rom = [1; 4096];

    c.load_rom(&rom);

    for i in 0x000..0x1FF {
        assert_eq!(c.memory[i], 0);
    }
}

#[test]
fn test_to_nybbles() {
    let op: (u8, u8) = (0x12, 0x4e);

    let nybbles = to_nybbles(op);

    assert_eq!(nybbles.0, 0x01);
    assert_eq!(nybbles.1, 0x02);
    assert_eq!(nybbles.2, 0x04);
    assert_eq!(nybbles.3, 0x0e);
}

#[test]
fn test_op_1nnn() {
    let mut c = Chip8::new();
    c.run_op((0x12, 0x4e));

    assert_eq!(c.pc, 0x024e);
}

#[test]
fn test_op_6xnn() {
    let mut c = Chip8::new();
    c.run_op((0x61, 0x4e));

    assert_eq!(c.v[1], 0x4e);
}

#[test]
fn test_op_annn() {
    let mut c = Chip8::new();
    c.run_op((0xa1, 0x4e));

    assert_eq!(c.i, 0x14e);
}

#[test]
fn test_op_dxyn() {
    let mut c = Chip8::new();
    c.memory[0] = 0b11111000;
    c.v[0] = 0;
    c.v[1] = 0;
    c.i = 0;

    c.run_op((0xd0, 0x11));

    assert_eq!(c.vram[0][0..=7], [1, 1, 1, 1, 1, 0, 0, 0]);
}

#[test]
fn test_op_dxyn_x_wrap() {
    let mut c = Chip8::new();
    c.memory[0] = 0b11111111;
    c.v[0] = 59;
    c.v[1] = 0;
    c.i = 0;

    c.run_op((0xd0, 0x11));

    assert_eq!(c.vram[0][59..=63], [1, 1, 1, 1, 1]);
    assert_eq!(c.vram[0][0..=2], [1, 1, 1]);
}

#[test]
fn test_op_dxyn_y_wrap() {
    let mut c = Chip8::new();
    c.memory[0] = 0b10000000;
    c.memory[1] = 0b10000000;
    c.v[0] = 0;
    c.v[1] = 31;
    c.i = 0;

    c.run_op((0xd0, 0x12));

    assert_eq!(c.vram[31][0], 1);
    assert_eq!(c.vram[0][0], 1);
}

#[test]
fn test_op_3xnn() {
    let mut c = Chip8::new();
    c.run_op((0x30, 0x00));

    assert_eq!(c.pc, 0x204);
}

#[test]
fn test_op_4xnn() {
    let mut c = Chip8::new();
    c.run_op((0x40, 0x01));

    assert_eq!(c.pc, 0x204);
}

#[test]
fn test_op_5xy0() {
    let mut c = Chip8::new();

    c.v[0] = 1;
    c.v[1] = 1;
    c.run_op((0x50, 0x10));

    assert_eq!(c.pc, 0x204);
}

#[test]
fn test_op_7xnn() {
    let mut c = Chip8::new();

    c.run_op((0x70, 0x05));

    assert_eq!(c.v[0], 5);
}

#[test]
fn test_op_9xy0() {
    let mut c = Chip8::new();

    c.v[0] = 1;
    c.v[1] = 2;
    c.run_op((0x90, 0x10));

    assert_eq!(c.pc, 0x204);
}

#[test]
fn test_op_2nnn() {
    let mut c = Chip8::new();

    c.run_op((0x21, 0x11));

    assert_eq!(c.pc, 0x111);
    assert_eq!(c.sp, 1);
    assert_eq!(c.stack[0], 0x202);
}

#[test]
fn test_op_00ee() {
    let mut c = Chip8::new();

    c.run_op((0x21, 0x11)); // go to subroutine
    c.run_op((0x00, 0xee)); // return

    assert_eq!(c.pc, 0x202);
    assert_eq!(c.sp, 0);
}

#[test]
fn test_op_8xy0() {
    let mut c = Chip8::new();
    c.v[0] = 255;
    c.v[1] = 1;

    c.run_op((0x80, 0x10));

    assert_eq!(c.v[0], c.v[1]);
}

#[test]
fn test_op_8xy1() {
    let mut c = Chip8::new();
    c.v[0] = 0b01111110;
    c.v[1] = 0b11000000;

    c.run_op((0x80, 0x11));

    assert_eq!(c.v[0], 0b11111110);
}

#[test]
fn test_op_8xy2() {
    let mut c = Chip8::new();
    c.v[0] = 0b01111111;
    c.v[1] = 0b10000001;

    c.run_op((0x80, 0x12));

    assert_eq!(c.v[0], 0b00000001);
}

#[test]
fn test_op_8xy3() {
    let mut c = Chip8::new();
    c.v[0] = 0b01111111;
    c.v[1] = 0b10000001;

    c.run_op((0x80, 0x13));

    assert_eq!(c.v[0], 0b11111110);
}

#[test]
fn test_op_8xy4() {
    let mut c = Chip8::new();
    c.v[0] = 3;
    c.v[1] = 5;

    c.run_op((0x80, 0x14));

    assert_eq!(c.v[0], 8);
    assert_eq!(c.v[15], 0);
}

#[test]
fn test_op_8xy4_carry() {
    let mut c = Chip8::new();
    c.v[0] = 0b11111111;
    c.v[1] = 0b00000001;

    c.run_op((0x80, 0x14));

    assert_eq!(c.v[0], 0);
    assert_eq!(c.v[15], 1);
}

#[test]
fn test_op_8xy5() {
    let mut c = Chip8::new();
    c.v[0] = 5;
    c.v[1] = 3;

    c.run_op((0x80, 0x15));

    assert_eq!(c.v[0], 2);
    assert_eq!(c.v[15], 1);
}

#[test]
fn test_op_8xy5_borrow() {
    let mut c = Chip8::new();
    c.v[0] = 0b00000000;
    c.v[1] = 0b00000001;

    c.run_op((0x80, 0x15));

    assert_eq!(c.v[0], 0b11111111);
    assert_eq!(c.v[15], 0);
}

#[test]
fn test_op_8xye() {
    let mut c = Chip8::new();
    c.v[0] = 0b00000000;
    c.v[1] = 0b10000001;

    c.run_op((0x80, 0x1e));

    assert_eq!(c.v[0], 0b00000010);
    assert_eq!(c.v[15], 1);
}

#[test]
fn test_op_8xy6() {
    let mut c = Chip8::new();
    c.v[0] = 0b00000000;
    c.v[1] = 0b10000001;

    c.run_op((0x80, 0x16));

    assert_eq!(c.v[0], 0b01000000);
    assert_eq!(c.v[15], 1);
}

#[test]
fn test_op_fx55() {
    let mut c = Chip8::new();
    c.v[0] = 1;
    c.v[1] = 2;

    c.run_op((0xf1, 0x55));

    assert_eq!(c.memory[0], 1);
    assert_eq!(c.memory[1], 2);
    assert_eq!(c.i, 2);
}

#[test]
fn test_op_fx65() {
    let mut c = Chip8::new();
    c.memory[0] = 1;
    c.memory[1] = 2;

    c.run_op((0xf1, 0x65));

    assert_eq!(c.v[0], 1);
    assert_eq!(c.v[1], 2);
    assert_eq!(c.i, 2);
}

#[test]
fn test_op_fx33() {
    let mut c = Chip8::new();
    c.v[0] = 255;

    c.run_op((0xf0, 0x33));

    assert_eq!(c.memory[0], 0b0010);
    assert_eq!(c.memory[1], 0b00101);
    assert_eq!(c.memory[2], 0b00101);
}

#[test]
fn test_op_8xy7() {
    let mut c = Chip8::new();
    c.v[0] = 0b00000001;
    c.v[1] = 0b00000000;

    c.run_op((0x80, 0x17));

    assert_eq!(c.v[0], 0b11111111);
    assert_eq!(c.v[15], 0);
}

#[test]
fn test_op_bnnn() {
    let mut c = Chip8::new();
    c.v[0] = 0b00000010;

    c.run_op((0xb2, 0x00));

    assert_eq!(c.pc, 0x202)

}

#[test]
fn execute_runs_loaded_program() {
    let mut c = Chip8::new();
    c.load_rom(&[0x61, 0x4e]);

    c.execute();

    assert_eq!(c.v[1], 0x4e);
    assert_eq!(c.pc, 0x202);
    assert_eq!(c.current_op, (0x61, 0x4e));
}

#[test]
fn skip_on_equal_registers_moves_four() {
    let mut c = Chip8::new();
    c.v[0] = 1;
    c.v[1] = 1;

    c.run_op((0x50, 0x10));
    assert_eq!(c.pc, 0x204);

    c.v[1] = 2;
    c.run_op((0x50, 0x10));
    assert_eq!(c.pc, 0x206);
}

#[test]
fn load_rom_drops_bytes_past_memory() {
    let mut c = Chip8::new();
    let mut rom = [7u8; 4000];
    rom[3583] = 9;
    rom[3584] = 8;

    c.load_rom(&rom);

    assert_eq!(c.memory[4095], 9);
    assert_eq!(c.memory[511], 0);
    assert_eq!(c.memory[512], 7);
}

#[test]
fn fetch_past_memory_is_a_no_op() {
    let mut c = Chip8::new();
    c.pc = 4095;
    c.memory[4095] = 0x61;

    c.execute();

    assert_eq!(c.current_op, (0, 0));
    assert_eq!(c.pc, 4097);
    assert_eq!(c.v, [0; 16]);
}

#[test]
fn new_is_zeroed() {
    let c = Chip8::new();
    let d = c.debug_info();

    assert_eq!(d.pc, 0x200);
    assert_eq!(d.i, 0);
    assert_eq!(d.sp, 0);
    assert_eq!(d.v, [0; 16]);
    assert_eq!(d.stack, [0; 16]);
    assert!(!c.vram_changed);
    assert!(c.memory.iter().all(|b| *b == 0));
}

#[test]
fn debug_info_copies_registers() {
    let mut c = Chip8::new();
    c.run_op((0x63, 0x09));
    c.run_op((0xa1, 0x23));
    c.run_op((0x24, 0x00));

    let d = c.debug_info();
    assert_eq!(d.v[3], 9);
    assert_eq!(d.i, 0x123);
    assert_eq!(d.pc, 0x400);
    assert_eq!(d.sp, 1);
    assert_eq!(d.stack[0], 0x206);
}

#[test]
fn unknown_opcode_only_advances() {
    let mut c = Chip8::new();
    c.v[3] = 4;

    c.run_op((0x83, 0x48));
    c.run_op((0x5a, 0xb1));
    c.run_op((0xe0, 0x00));
    c.run_op((0xf0, 0xff));

    assert_eq!(c.pc, 0x208);
    assert_eq!(c.v[3], 4);
    assert_eq!(c.v[4], 0);
}

#[test]
fn clear_screen_blanks_display() {
    let mut c = Chip8::new();
    c.vram[3][5] = 1;
    c.vram[31][63] = 1;

    c.run_op((0x00, 0xe0));

    assert!(c.vram.iter().all(|row| row.iter().all(|p| *p == 0)));
    assert!(c.vram_changed);
    assert_eq!(c.pc, 0x202);
}

#[test]
fn return_on_empty_stack_is_a_no_op() {
    let mut c = Chip8::new();

    c.run_op((0x00, 0xee));

    assert_eq!(c.pc, 0x202);
    assert_eq!(c.sp, 0);
}

#[test]
fn call_on_full_stack_is_a_no_op() {
    let mut c = Chip8::new();
    for _ in 0..16 {
        c.run_op((0x22, 0x00));
    }
    assert_eq!(c.sp, 16);
    assert_eq!(c.pc, 0x200);
    assert_eq!(c.stack[15], 0x202);

    c.run_op((0x23, 0x00));

    assert_eq!(c.sp, 16);
    assert_eq!(c.pc, 0x202);
}

#[test]
fn nested_calls_return_in_order() {
    let mut c = Chip8::new();

    c.run_op((0x23, 0x00));
    c.run_op((0x24, 0x00));
    c.run_op((0x00, 0xee));
    assert_eq!(c.pc, 0x302);
    c.run_op((0x00, 0xee));
    assert_eq!(c.pc, 0x202);
    assert_eq!(c.sp, 0);
}

#[test]
fn add_immediate_wraps_without_flag() {
    let mut c = Chip8::new();
    c.v[2] = 250;
    c.v[15] = 7;

    c.run_op((0x72, 0x0a));

    assert_eq!(c.v[2], 4);
    assert_eq!(c.v[15], 7);
}

#[test]
fn subtract_reversed_without_borrow() {
    let mut c = Chip8::new();
    c.v[0] = 3;
    c.v[1] = 10;

    c.run_op((0x80, 0x17));

    assert_eq!(c.v[0], 7);
    assert_eq!(c.v[15], 1);
}

#[test]
fn subtract_equal_values_sets_no_borrow() {
    let mut c = Chip8::new();
    c.v[4] = 200;
    c.v[5] = 200;

    c.run_op((0x84, 0x55));

    assert_eq!(c.v[4], 0);
    assert_eq!(c.v[15], 1);
}

#[test]
fn add_into_flag_register_keeps_flag() {
    let mut c = Chip8::new();
    c.v[15] = 200;
    c.v[1] = 100;

    c.run_op((0x8f, 0x14));

    assert_eq!(c.v[15], 1);
}

#[test]
fn shift_right_of_flag_register_uses_value_before_shift() {
    let mut c = Chip8::new();
    c.v[15] = 0b0000_0111;

    c.run_op((0x80, 0xf6));

    assert_eq!(c.v[0], 0b0000_0011);
    assert_eq!(c.v[15], 1);
}

#[test]
fn shift_left_drops_high_bit() {
    let mut c = Chip8::new();
    c.v[1] = 0b0100_0001;

    c.run_op((0x80, 0x1e));

    assert_eq!(c.v[0], 0b1000_0010);
    assert_eq!(c.v[15], 0);
}

#[test]
fn draw_twice_restores_display() {
    let mut c = Chip8::new();
    c.memory[0x300] = 0b1011_0110;
    c.memory[0x301] = 0b0110_1101;
    c.memory[0x302] = 0b1111_0000;
    c.vram[10][60] = 1;
    c.vram[0][1] = 1;
    let before = c.vram;
    c.v[2] = 58;
    c.v[3] = 30;
    c.i = 0x300;

    c.run_op((0xd2, 0x33));
    assert_ne!(c.vram, before);
    c.run_op((0xd2, 0x33));

    assert_eq!(c.vram, before);
    assert!(c.vram_changed);
}

#[test]
fn draw_flag_reports_last_pixel_only() {
    let mut c = Chip8::new();
    c.memory[0] = 0b1000_0001;
    c.vram[0][0] = 1;

    c.run_op((0xd0, 0x11));

    assert_eq!(c.vram[0][0], 0);
    assert_eq!(c.vram[0][7], 1);
    assert_eq!(c.v[15], 0);

    c.run_op((0xd0, 0x11));

    assert_eq!(c.vram[0][0], 1);
    assert_eq!(c.vram[0][7], 0);
    assert_eq!(c.v[15], 1);
}

#[test]
fn draw_past_memory_is_a_no_op() {
    let mut c = Chip8::new();
    c.i = 4094;
    c.memory[4094] = 0xff;

    c.run_op((0xd0, 0x13));

    assert!(c.vram.iter().all(|row| row.iter().all(|p| *p == 0)));
    assert!(!c.vram_changed);
    assert_eq!(c.pc, 0x202);
}

#[test]
fn sprite_wraps_both_axes() {
    let mut c = Chip8::new();
    c.memory[0] = 0b0000_0001;
    c.memory[1] = 0b1000_0000;
    c.v[0] = 57;
    c.v[1] = 31;

    c.run_op((0xd0, 0x12));

    assert_eq!(c.vram[31][0], 1);
    assert_eq!(c.vram[0][57], 1);
    assert_eq!(c.vram[31][57], 0);
}

#[test]
fn bcd_of_small_values() {
    let mut c = Chip8::new();
    c.v[3] = 7;
    c.i = 0x400;

    c.run_op((0xf3, 0x33));

    assert_eq!(c.memory[0x400..0x403], [0, 0, 7]);

    c.v[3] = 120;
    c.run_op((0xf3, 0x33));
    assert_eq!(c.memory[0x400..0x403], [1, 2, 0]);
}

#[test]
fn bcd_past_memory_is_a_no_op() {
    let mut c = Chip8::new();
    c.v[0] = 123;
    c.i = 4094;

    c.run_op((0xf0, 0x33));

    assert_eq!(c.memory[4094], 0);
    assert_eq!(c.memory[4095], 0);
    assert_eq!(c.pc, 0x202);
}

#[test]
fn dump_then_load_round_trip() {
    let mut c = Chip8::new();
    for k in 0..16 {
        c.v[k] = (k as u8) * 3 + 1;
    }
    let saved = c.v;
    c.i = 0x500;

    c.run_op((0xf7, 0x55));
    assert_eq!(c.i, 0x508);
    for k in 0..8 {
        assert_eq!(c.memory[0x500 + k], saved[k]);
    }
    assert_eq!(c.memory[0x508], 0);

    c.v = [0; 16];
    c.v[8] = saved[8];
    c.i = 0x500;
    c.run_op((0xf7, 0x65));

    assert_eq!(c.i, 0x508);
    assert_eq!(c.v[0..8], saved[0..8]);
    assert_eq!(c.v[9], 0);
}

#[test]
fn dump_past_memory_is_a_no_op() {
    let mut c = Chip8::new();
    c.v[0] = 5;
    c.i = 4090;

    c.run_op((0xff, 0x55));

    assert_eq!(c.i, 4090);
    assert_eq!(c.memory[4090], 0);
}

#[test]
fn random_load_masks_host_byte() {
    let mut c = Chip8::new();
    c.random = 0b1010_1111;

    c.run_op((0xc4, 0x3c));

    assert_eq!(c.v[4], 0b0010_1100);
}

#[test]
fn key_skips_follow_key_state() {
    let mut c = Chip8::new();
    c.v[2] = 0xa;
    c.keys[0xa] = true;

    c.run_op((0xe2, 0x9e));
    assert_eq!(c.pc, 0x204);
    c.run_op((0xe2, 0xa1));
    assert_eq!(c.pc, 0x206);

    c.keys[0xa] = false;
    c.run_op((0xe2, 0x9e));
    assert_eq!(c.pc, 0x208);
    c.run_op((0xe2, 0xa1));
    assert_eq!(c.pc, 0x20c);

    c.v[2] = 200;
    c.run_op((0xe2, 0x9e));
    assert_eq!(c.pc, 0x20e);
}

#[test]
fn wait_for_key_holds_until_pressed() {
    let mut c = Chip8::new();

    c.run_op((0xf5, 0x0a));
    assert_eq!(c.pc, 0x200);
    assert_eq!(c.v[5], 0);

    c.keys[9] = true;
    c.keys[3] = true;
    c.run_op((0xf5, 0x0a));
    assert_eq!(c.pc, 0x202);
    assert_eq!(c.v[5], 3);
}

#[test]
fn timers_move_through_registers() {
    let mut c = Chip8::new();
    c.v[1] = 60;
    c.v[2] = 30;

    c.run_op((0xf1, 0x15));
    c.run_op((0xf2, 0x18));
    assert_eq!(c.delay_timer, 60);
    assert_eq!(c.sound_timer, 30);

    c.delay_timer = 42;
    c.run_op((0xf6, 0x07));
    assert_eq!(c.v[6], 42);
}

#[test]
fn index_add_and_font_glyph() {
    let mut c = Chip8::new();
    c.i = 0x100;
    c.v[3] = 0x20;

    c.run_op((0xf3, 0x1e));
    assert_eq!(c.i, 0x120);

    c.v[4] = 0xb;
    c.run_op((0xf4, 0x29));
    assert_eq!(c.i, 55);

    c.i = usize::MAX - 1;
    c.run_op((0xf3, 0x1e));
    assert_eq!(c.i, usize::MAX - 1);
}

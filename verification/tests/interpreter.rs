use chip8::decode::decode;
use chip8::Chip8;
use chip8::StepError;

fn machine_with(program: &[u8]) -> Chip8 {
    let mut c = Chip8::new();
    c.load_ram(program, 0x200);
    c.start();
    c
}

fn pixel(c: &Chip8, row: usize, col: usize) -> bool {
    *c.get_vram().get(row, col).unwrap()
}

#[test]
fn decode_round_trip() {
    let f = decode(0xABCD);
    assert_eq!(f.n0, 0xA);
    assert_eq!(f.n1, 0xB);
    assert_eq!(f.n2, 0xC);
    assert_eq!(f.n3, 0xD);
    assert_eq!(f.addr, 0xBCD);
    assert_eq!(f.kk, 0xCD);
    let w = (f.n0 as u16) * 0x1000 + (f.n1 as u16) * 0x100 + (f.n2 as u16) * 0x10 + f.n3 as u16;
    assert_eq!(w, 0xABCD);
    let z = decode(0x0000);
    assert_eq!((z.n0, z.n1, z.n2, z.n3, z.addr, z.kk), (0, 0, 0, 0, 0, 0));
}

#[test]
fn fresh_machine_holds_font_and_timers() {
    let c = Chip8::new();
    assert_eq!(c.pc, 0);
    assert_eq!(c.i, 0);
    assert_eq!(c.tim_delay, 255);
    assert_eq!(c.tim_snd, 255);
    assert!(c.tone_enabled());
    assert_eq!(c.ram_byte(0x50), 0xF0);
    assert_eq!(c.ram_byte(0x54), 0xF0);
    assert_eq!(c.ram_byte(0x55), 0x20);
    assert_eq!(c.ram_byte(0x9F), 0x80);
    assert_eq!(c.ram_byte(0x4F), 0x00);
    assert_eq!(c.ram_byte(0xA0), 0x00);
    assert!(!c.vram_changed);
    for r in 0..32 {
        for col in 0..64 {
            assert!(!pixel(&c, r, col));
        }
    }
}

#[test]
fn load_ram_places_bytes() {
    let mut c = Chip8::new();
    c.load_ram(&[1, 2, 3], 0x700);
    assert_eq!(c.ram_byte(0x6FF), 0);
    assert_eq!(c.ram_byte(0x700), 1);
    assert_eq!(c.ram_byte(0x701), 2);
    assert_eq!(c.ram_byte(0x702), 3);
    assert_eq!(c.ram_byte(0x703), 0);
}

#[test]
fn load_immediate_sets_register() {
    let mut c = machine_with(&[0x61, 0x05, 0x6F, 0xAB]);
    c.cycle().unwrap();
    assert_eq!(c.v[1], 0x05);
    assert_eq!(c.pc, 0x202);
    c.cycle().unwrap();
    assert_eq!(c.v[15], 0xAB);
    assert_eq!(c.pc, 0x204);
}

#[test]
fn add_immediate_wraps() {
    let mut c = machine_with(&[0x70, 0x02]);
    c.v[0] = 0xFF;
    c.cycle().unwrap();
    assert_eq!(c.v[0], 0x01);
    assert_eq!(c.pc, 0x202);
}

#[test]
fn add_registers_sets_carry_flag() {
    let mut c = machine_with(&[0x80, 0x14]);
    c.v[0] = 200;
    c.v[1] = 100;
    c.cycle().unwrap();
    assert_eq!(c.v[15], 1);
    assert_eq!(c.v[0], 44);

    let mut d = machine_with(&[0x80, 0x14]);
    d.v[0] = 1;
    d.v[1] = 2;
    d.cycle().unwrap();
    assert_eq!(d.v[15], 0);
    assert_eq!(d.v[0], 3);
}

#[test]
fn subtract_sets_no_borrow_flag() {
    let mut c = machine_with(&[0x80, 0x15]);
    c.v[0] = 5;
    c.v[1] = 3;
    c.cycle().unwrap();
    assert_eq!(c.v[15], 1);
    assert_eq!(c.v[0], 2);

    let mut d = machine_with(&[0x80, 0x15]);
    d.v[0] = 3;
    d.v[1] = 5;
    d.cycle().unwrap();
    assert_eq!(d.v[15], 0);
    assert_eq!(d.v[0], 254);
}

#[test]
fn subtract_reversed_sets_no_borrow_flag() {
    let mut c = machine_with(&[0x80, 0x17]);
    c.v[0] = 3;
    c.v[1] = 5;
    c.cycle().unwrap();
    assert_eq!(c.v[15], 1);
    assert_eq!(c.v[0], 2);

    let mut d = machine_with(&[0x80, 0x17]);
    d.v[0] = 5;
    d.v[1] = 3;
    d.cycle().unwrap();
    assert_eq!(d.v[15], 0);
    assert_eq!(d.v[0], 254);
}

#[test]
fn shifts_read_source_register_and_flag() {
    let mut c = machine_with(&[0x80, 0x16]);
    c.v[1] = 0b0000_0101;
    c.cycle().unwrap();
    assert_eq!(c.v[0], 0b0000_0010);
    assert_eq!(c.v[15], 1);
    assert_eq!(c.v[1], 0b0000_0101);

    let mut d = machine_with(&[0x80, 0x1E]);
    d.v[1] = 0x81;
    d.cycle().unwrap();
    assert_eq!(d.v[0], 0x02);
    assert_eq!(d.v[15], 1);
    assert_eq!(d.v[1], 0x81);
}

#[test]
fn bitwise_ops() {
    let mut c = machine_with(&[0x80, 0x11, 0x82, 0x32, 0x84, 0x53, 0x86, 0x70]);
    c.v[0] = 0b1100;
    c.v[1] = 0b1010;
    c.v[2] = 0b1100;
    c.v[3] = 0b1010;
    c.v[4] = 0b1100;
    c.v[5] = 0b1010;
    c.v[7] = 0x77;
    c.cycle().unwrap();
    assert_eq!(c.v[0], 0b1110);
    c.cycle().unwrap();
    assert_eq!(c.v[2], 0b1000);
    c.cycle().unwrap();
    assert_eq!(c.v[4], 0b0110);
    c.cycle().unwrap();
    assert_eq!(c.v[6], 0x77);
}

#[test]
fn conditional_skips() {
    // 3XKK: skip taken.
    let mut c = machine_with(&[0x30, 0x07]);
    c.v[0] = 7;
    c.cycle().unwrap();
    assert_eq!(c.pc, 0x204);
    // 3XKK: skip not taken.
    let mut c = machine_with(&[0x30, 0x07]);
    c.v[0] = 8;
    c.cycle().unwrap();
    assert_eq!(c.pc, 0x202);
    // 4XKK.
    let mut c = machine_with(&[0x40, 0x07]);
    c.v[0] = 8;
    c.cycle().unwrap();
    assert_eq!(c.pc, 0x204);
    // 5XY0.
    let mut c = machine_with(&[0x50, 0x10]);
    c.v[0] = 9;
    c.v[1] = 9;
    c.cycle().unwrap();
    assert_eq!(c.pc, 0x204);
    // 9XY0.
    let mut c = machine_with(&[0x90, 0x10]);
    c.v[0] = 9;
    c.v[1] = 8;
    c.cycle().unwrap();
    assert_eq!(c.pc, 0x204);
    let mut c = machine_with(&[0x90, 0x10]);
    c.v[0] = 9;
    c.v[1] = 9;
    c.cycle().unwrap();
    assert_eq!(c.pc, 0x202);
}

#[test]
fn jumps_set_pc() {
    let mut c = machine_with(&[0x13, 0x21]);
    c.cycle().unwrap();
    assert_eq!(c.pc, 0x321);

    // Legacy 0NNN jump.
    let mut c = machine_with(&[0x03, 0x21]);
    c.cycle().unwrap();
    assert_eq!(c.pc, 0x321);

    // BNNN adds V0.
    let mut c = machine_with(&[0xB3, 0x00]);
    c.v[0] = 0x21;
    c.cycle().unwrap();
    assert_eq!(c.pc, 0x321);
}

#[test]
fn call_and_return_resume_after_call() {
    let mut c = machine_with(&[0x23, 0x00]);
    c.load_ram(&[0x00, 0xEE], 0x300);
    c.cycle().unwrap();
    assert_eq!(c.pc, 0x300);
    assert_eq!(c.stack, vec![0x202]);
    c.cycle().unwrap();
    assert_eq!(c.pc, 0x202);
    assert!(c.stack.is_empty());
}

#[test]
fn store_index_and_font_base() {
    let mut c = machine_with(&[0xA1, 0x23, 0x6A, 0x0A, 0xFA, 0x29]);
    c.cycle().unwrap();
    assert_eq!(c.i, 0x123);
    c.cycle().unwrap();
    c.cycle().unwrap();
    assert_eq!(c.i, 50);
}

#[test]
fn index_add_saturates() {
    let mut c = machine_with(&[0xF0, 0x1E]);
    c.v[0] = 255;
    for _ in 0..300 {
        c.pc = 0x200;
        c.cycle().unwrap();
    }
    assert_eq!(c.i, 0xFFFF);
}

#[test]
fn random_masked_by_zero_is_zero() {
    let mut c = machine_with(&[0xC1, 0x00, 0xC2, 0x0F]);
    c.v[1] = 0xAA;
    c.cycle().unwrap();
    assert_eq!(c.v[1], 0);
    c.cycle().unwrap();
    assert!(c.v[2] <= 0x0F);
}

#[test]
fn timers_load_store_and_tone() {
    let mut c = machine_with(&[0x60, 0x09, 0xF0, 0x15, 0x61, 0x00, 0xF1, 0x18, 0xF2, 0x07]);
    c.cycle().unwrap();
    c.cycle().unwrap();
    assert_eq!(c.tim_delay, 9);
    c.cycle().unwrap();
    c.cycle().unwrap();
    assert_eq!(c.tim_snd, 0);
    assert!(!c.tone_enabled());
    c.cycle().unwrap();
    assert_eq!(c.v[2], 9);
}

#[test]
fn timer_floor_never_negative() {
    let mut c = Chip8::new();
    c.tim_delay = 1;
    c.tim_snd = 0;
    c.decrease_timers();
    assert_eq!(c.tim_delay, 0);
    assert_eq!(c.tim_snd, 0);
    c.decrease_timers();
    assert_eq!(c.tim_delay, 0);
    assert_eq!(c.tim_snd, 0);
}

#[test]
fn bcd_stores_decimal_digits() {
    let mut c = machine_with(&[0xA3, 0x00, 0xF3, 0x33]);
    c.v[3] = 234;
    c.cycle().unwrap();
    c.cycle().unwrap();
    assert_eq!(c.ram_byte(0x300), 2);
    assert_eq!(c.ram_byte(0x301), 3);
    assert_eq!(c.ram_byte(0x302), 4);
    assert_eq!(c.pc, 0x204);
}

#[test]
fn register_block_store_and_load() {
    let mut c = machine_with(&[0xA4, 0x00, 0xF3, 0x55, 0xA4, 0x00, 0xF3, 0x65]);
    c.v[0] = 10;
    c.v[1] = 11;
    c.v[2] = 12;
    c.v[3] = 13;
    c.v[4] = 99;
    c.cycle().unwrap();
    c.cycle().unwrap();
    assert_eq!(c.ram_byte(0x400), 10);
    assert_eq!(c.ram_byte(0x401), 11);
    assert_eq!(c.ram_byte(0x402), 12);
    assert_eq!(c.ram_byte(0x403), 13);
    assert_eq!(c.ram_byte(0x404), 0);
    assert_eq!(c.i, 0x404);
    c.v[0] = 0;
    c.v[1] = 0;
    c.v[2] = 0;
    c.v[3] = 0;
    c.cycle().unwrap();
    c.cycle().unwrap();
    assert_eq!(c.v[0], 10);
    assert_eq!(c.v[1], 11);
    assert_eq!(c.v[2], 12);
    assert_eq!(c.v[3], 13);
    assert_eq!(c.v[4], 99);
    assert_eq!(c.i, 0x404);
}

#[test]
fn key_skips_check_current_state() {
    // EX9E: skips when the key in VX is pressed.
    let mut c = machine_with(&[0xE0, 0x9E]);
    c.v[0] = 7;
    c.set_key(7, true);
    c.cycle().unwrap();
    assert_eq!(c.pc, 0x204);

    let mut c = machine_with(&[0xE0, 0x9E]);
    c.v[0] = 7;
    c.cycle().unwrap();
    assert_eq!(c.pc, 0x202);

    // EXA1: skips when the key in VX is not pressed.
    let mut c = machine_with(&[0xE0, 0xA1]);
    c.v[0] = 7;
    c.cycle().unwrap();
    assert_eq!(c.pc, 0x204);

    let mut c = machine_with(&[0xE0, 0xA1]);
    c.v[0] = 7;
    c.set_key(7, true);
    c.cycle().unwrap();
    assert_eq!(c.pc, 0x202);

    // A released key counts as not pressed again.
    let mut c = machine_with(&[0xE0, 0x9E]);
    c.v[0] = 7;
    c.set_key(7, true);
    c.set_key(7, false);
    c.cycle().unwrap();
    assert_eq!(c.pc, 0x202);
}

#[test]
fn key_wait_blocks_until_press() {
    let mut c = machine_with(&[0xF5, 0x0A]);
    let regs_before = c.v.clone();
    c.cycle().unwrap();
    assert_eq!(c.pc, 0x200);
    assert_eq!(c.v, regs_before);
    c.cycle().unwrap();
    c.cycle().unwrap();
    assert_eq!(c.pc, 0x200);
    assert_eq!(c.v, regs_before);
    c.set_key(7, true);
    c.cycle().unwrap();
    assert_eq!(c.v[5], 7);
    assert_eq!(c.pc, 0x202);
}

#[test]
fn key_wait_takes_pressed_key_at_once() {
    let mut c = machine_with(&[0xF5, 0x0A]);
    c.set_key(3, true);
    c.cycle().unwrap();
    assert_eq!(c.v[5], 3);
    assert_eq!(c.pc, 0x202);
}

#[test]
fn draw_sets_pixels_and_draw_again_clears() {
    // Draw the 5-row glyph for digit 0 (at address 0x50) at (0, 0), twice.
    let mut c = machine_with(&[0x65, 0x00, 0xA0, 0x50, 0xD5, 0x55, 0xD5, 0x55]);
    c.cycle().unwrap();
    c.cycle().unwrap();
    c.vram_changed = false;
    c.cycle().unwrap();
    // First draw: pixels of the glyph are set, no collision, dirty set.
    assert!(c.vram_changed);
    assert_eq!(c.v[15], 0);
    assert!(pixel(&c, 0, 0));
    assert!(pixel(&c, 0, 1));
    assert!(pixel(&c, 0, 2));
    assert!(pixel(&c, 0, 3));
    assert!(!pixel(&c, 0, 4));
    assert!(pixel(&c, 1, 0));
    assert!(!pixel(&c, 1, 1));
    assert!(pixel(&c, 1, 3));
    // Second draw: same sprite, same place: everything clears, collision.
    c.cycle().unwrap();
    assert_eq!(c.v[15], 1);
    for r in 0..32 {
        for col in 0..64 {
            assert!(!pixel(&c, r, col));
        }
    }
    assert!(c.vram_changed);
}

#[test]
fn draw_clips_at_edges() {
    // Draw the glyph for 0 with its top-left at (62, 30): only the 2x2
    // in-grid corner is touched, nothing wraps.
    let mut c = machine_with(&[0xD0, 0x15]);
    c.v[0] = 62;
    c.v[1] = 30;
    c.i = 0x50;
    c.cycle().unwrap();
    assert_eq!(c.v[15], 0);
    assert!(pixel(&c, 30, 62));
    assert!(pixel(&c, 30, 63));
    assert!(pixel(&c, 31, 62));
    assert!(!pixel(&c, 31, 63));
    assert!(!pixel(&c, 0, 0));
    assert!(!pixel(&c, 30, 0));
    assert!(!pixel(&c, 0, 62));
}

#[test]
fn clear_screen_clears_and_marks_dirty() {
    let mut c = machine_with(&[0xD0, 0x11, 0x00, 0xE0]);
    c.i = 0x50;
    c.cycle().unwrap();
    assert!(pixel(&c, 0, 0));
    c.vram_changed = false;
    c.cycle().unwrap();
    assert!(c.vram_changed);
    assert!(!pixel(&c, 0, 0));
    assert_eq!(c.pc, 0x204);
}

#[test]
fn end_to_end_three_steps() {
    let mut c = machine_with(&[0x60, 0x05, 0x70, 0x03, 0x00, 0xE0]);
    c.cycle().unwrap();
    assert_eq!(c.v[0], 5);
    c.cycle().unwrap();
    assert_eq!(c.v[0], 8);
    assert_eq!(c.pc, 0x204);
    c.vram_changed = false;
    c.cycle().unwrap();
    assert!(c.vram_changed);
    assert_eq!(c.pc, 0x206);
    for r in 0..32 {
        for col in 0..64 {
            assert!(!pixel(&c, r, col));
        }
    }
}

#[test]
fn invalid_opcodes_are_reported() {
    let mut c = machine_with(&[0x80, 0x18]);
    assert_eq!(c.cycle(), Err(StepError::InvalidOpcode(0x8018)));
    assert_eq!(c.pc, 0x200);

    let mut c = machine_with(&[0x50, 0x11]);
    assert_eq!(c.cycle(), Err(StepError::InvalidOpcode(0x5011)));

    let mut c = machine_with(&[0x90, 0x12]);
    assert_eq!(c.cycle(), Err(StepError::InvalidOpcode(0x9012)));

    let mut c = machine_with(&[0xE0, 0x55]);
    assert_eq!(c.cycle(), Err(StepError::InvalidOpcode(0xE055)));

    let mut c = machine_with(&[0xF0, 0xFF]);
    assert_eq!(c.cycle(), Err(StepError::InvalidOpcode(0xF0FF)));
}

#[test]
fn stack_underflow_on_return_without_call() {
    let mut c = machine_with(&[0x00, 0xEE]);
    assert_eq!(c.cycle(), Err(StepError::StackUnderflow));
    assert_eq!(c.pc, 0x200);
}

#[test]
fn stack_overflow_on_seventeenth_call() {
    // 2200 at 0x200 calls 0x200 again, forever.
    let mut c = machine_with(&[0x22, 0x00]);
    for depth in 1..=16 {
        c.cycle().unwrap();
        assert_eq!(c.stack.len(), depth);
    }
    assert_eq!(c.cycle(), Err(StepError::StackOverflow));
    assert_eq!(c.stack.len(), 16);
}

#[test]
fn address_overflow_reported_before_any_write() {
    // BCD at I = 4095 would write past the end of memory.
    let mut c = machine_with(&[0xAF, 0xFF, 0xF3, 0x33]);
    c.v[3] = 234;
    c.cycle().unwrap();
    assert_eq!(c.cycle(), Err(StepError::AddressOverflow));
    assert_eq!(c.ram_byte(0xFFF), 0);
    assert_eq!(c.pc, 0x202);

    // Sprite rows would be read past the end of memory.
    let mut c = machine_with(&[0xAF, 0xFF, 0xD0, 0x05]);
    c.cycle().unwrap();
    assert_eq!(c.cycle(), Err(StepError::AddressOverflow));

    // Register block store past the end of memory.
    let mut c = machine_with(&[0xAF, 0xFE, 0xF3, 0x55]);
    c.cycle().unwrap();
    assert_eq!(c.cycle(), Err(StepError::AddressOverflow));

    // A program counter outside memory is caught at the next fetch.
    let mut c = machine_with(&[0xBF, 0xFF]);
    c.v[0] = 255;
    c.cycle().unwrap();
    assert_eq!(c.pc, 0x10FE);
    assert_eq!(c.cycle(), Err(StepError::AddressOverflow));
}

#[test]
fn register_copy_assigns() {
    let mut c = machine_with(&[0x80, 0x10]);
    c.v[1] = 42;
    c.cycle().unwrap();
    assert_eq!(c.v[0], 42);
    assert_eq!(c.v[1], 42);
}

#[test]
fn key_wait_takes_lowest_pressed_key() {
    let mut c = machine_with(&[0xF5, 0x0A]);
    c.cycle().unwrap();
    assert_eq!(c.pc, 0x200);
    c.set_key(9, true);
    c.set_key(4, true);
    c.cycle().unwrap();
    assert_eq!(c.v[5], 4);
    assert_eq!(c.pc, 0x202);
}

//! Tests of the machine state lifecycle and the instruction engine, stepping
//! real programs through the interpreter.

use chip_again::error::StepError;
use chip_again::opcodes::{draw_sprite, overflowing_add, subtract, subtract_reverse};
use chip_again::state::{Input, State};

const NO_KEYS: Input = [false; 16];

/// A fresh machine whose program is the given instruction words.
fn load(words: &[u16]) -> State {
    let mut rom = Vec::new();
    for w in words {
        rom.push((w >> 8) as u8);
        rom.push((w & 0xFF) as u8);
    }
    State::new(&rom)
}

#[test]
fn new_loads_font_and_rom() {
    let s = State::new(&[0x12, 0x34]);
    // glyph 0 of the font
    assert_eq!(&s.mem[0..5], &[0xF0, 0x90, 0x90, 0x90, 0xF0]);
    // last byte of glyph F
    assert_eq!(s.mem[79], 0x80);
    assert_eq!(s.mem[80], 0x00);
    assert_eq!(s.mem[0x200], 0x12);
    assert_eq!(s.mem[0x201], 0x34);
    assert_eq!(s.pc, 0x200);
    assert_eq!(s.sp, 0);
    assert_eq!(s.reg_i, 0);
    assert!(s.display.iter().all(|c| !c));
    assert!(s.reg_v.iter().all(|r| *r == 0));
}

#[test]
fn new_truncates_long_rom() {
    let rom = vec![0xABu8; 5000];
    let s = State::new(&rom);
    assert_eq!(s.mem[0x200], 0xAB);
    assert_eq!(s.mem[4095], 0xAB);
    // the font region is untouched
    assert_eq!(s.mem[0], 0xF0);
}

#[test]
fn add_sets_carry_iff_sum_overflows() {
    let mut s = State::new(&[]);
    s.reg_v[0] = 250;
    s.reg_v[1] = 10;
    overflowing_add(&mut s, 0, 1);
    assert_eq!(s.reg_v[0], 4);
    assert_eq!(s.reg_v[0xF], 1);

    let mut s = State::new(&[]);
    s.reg_v[0] = 5;
    s.reg_v[1] = 10;
    overflowing_add(&mut s, 0, 1);
    assert_eq!(s.reg_v[0], 15);
    assert_eq!(s.reg_v[0xF], 0);
}

#[test]
fn subtract_sets_flag_iff_no_borrow() {
    let mut s = State::new(&[]);
    s.reg_v[2] = 10;
    s.reg_v[3] = 10;
    subtract(&mut s, 2, 3);
    assert_eq!(s.reg_v[2], 0);
    assert_eq!(s.reg_v[0xF], 1);

    let mut s = State::new(&[]);
    s.reg_v[2] = 5;
    s.reg_v[3] = 10;
    subtract(&mut s, 2, 3);
    assert_eq!(s.reg_v[2], 251);
    assert_eq!(s.reg_v[0xF], 0);
}

#[test]
fn subtract_reverse_stores_into_x() {
    let mut s = State::new(&[]);
    s.reg_v[0] = 5;
    s.reg_v[1] = 20;
    subtract_reverse(&mut s, 0, 1);
    assert_eq!(s.reg_v[0], 15);
    assert_eq!(s.reg_v[0xF], 1);

    let mut s = State::new(&[]);
    s.reg_v[0] = 20;
    s.reg_v[1] = 5;
    subtract_reverse(&mut s, 0, 1);
    assert_eq!(s.reg_v[0], 241);
    assert_eq!(s.reg_v[0xF], 0);
}

#[test]
fn draw_twice_restores_display() {
    let mut s = State::new(&[]);
    s.mem[0x300] = 0xFF;
    s.reg_i = 0x300;
    s.reg_v[0] = 60;
    s.reg_v[1] = 5;
    let before = s.display;
    draw_sprite(&mut s, 0, 1, 1);
    assert_eq!(s.reg_v[0xF], 0);
    assert_eq!(s.display.iter().filter(|c| **c).count(), 8);
    draw_sprite(&mut s, 0, 1, 1);
    assert_eq!(&s.display[..], &before[..]);
    // the second draw erased every one of its own pixels: collision
    assert_eq!(s.reg_v[0xF], 1);
}

#[test]
fn sprite_wraps_at_right_edge() {
    let mut s = State::new(&[]);
    s.mem[0x300] = 0xFF;
    s.reg_i = 0x300;
    s.reg_v[0] = 63;
    s.reg_v[1] = 0;
    draw_sprite(&mut s, 0, 1, 1);
    // pixel 0 lands at x = 63; pixels 1..=7 wrap to x = 0..=6
    assert!(s.display[63]);
    for x in 0..7 {
        assert!(s.display[x], "cell {} should be lit", x);
    }
    for x in 7..63 {
        assert!(!s.display[x]);
    }
}

#[test]
fn draw_detects_collision() {
    let mut s = State::new(&[]);
    s.mem[0x300] = 0x80; // single pixel
    s.reg_i = 0x300;
    s.reg_v[0] = 3;
    s.reg_v[1] = 4;
    draw_sprite(&mut s, 0, 1, 1);
    assert_eq!(s.reg_v[0xF], 0);
    assert!(s.display[3 + 4 * 64]);
    // drawing a second single-pixel sprite on the same cell erases it
    draw_sprite(&mut s, 0, 1, 1);
    assert_eq!(s.reg_v[0xF], 1);
    assert!(!s.display[3 + 4 * 64]);
}

#[test]
fn store_bcd_writes_decimal_digits() {
    // Fx33 on reg[x] = 156 writes [1, 5, 6]
    let mut s = load(&[0x639C, 0xA300, 0xF333]);
    assert!(s.step(NO_KEYS).is_ok());
    assert_eq!(s.reg_v[3], 156);
    assert!(s.step(NO_KEYS).is_ok());
    assert_eq!(s.reg_i, 0x300);
    assert!(s.step(NO_KEYS).is_ok());
    assert_eq!(&s.mem[0x300..0x303], &[1, 5, 6]);
}

#[test]
fn wait_key_blocks_without_input() {
    // F00A: wait for a key into reg[0]
    let mut s = load(&[0xF00A]);
    s.delay = 5;
    s.sound = 1;
    assert!(s.step(NO_KEYS).is_ok());
    // the program counter is back on the same instruction...
    assert_eq!(s.pc, 0x200);
    // ...while the timers still decremented, saturating
    assert_eq!(s.delay, 4);
    assert_eq!(s.sound, 0);
    // stays blocked for any number of ticks
    assert!(s.step(NO_KEYS).is_ok());
    assert_eq!(s.pc, 0x200);
    assert_eq!(s.delay, 3);
    assert_eq!(s.sound, 0);
}

#[test]
fn wait_key_stores_highest_pressed_key() {
    let mut s = load(&[0xF20A]);
    let mut keys = NO_KEYS;
    keys[3] = true;
    keys[9] = true;
    assert!(s.step(keys).is_ok());
    assert_eq!(s.reg_v[2], 9);
    assert_eq!(s.pc, 0x202);
}

#[test]
fn timers_saturate_at_zero() {
    let mut s = load(&[0x00E0, 0x00E0]);
    assert_eq!(s.delay, 0);
    assert_eq!(s.sound, 0);
    assert!(s.step(NO_KEYS).is_ok());
    assert_eq!(s.delay, 0);
    assert_eq!(s.sound, 0);
    assert!(s.step(NO_KEYS).is_ok());
    assert_eq!(s.delay, 0);
    assert_eq!(s.sound, 0);
}

#[test]
fn timer_set_and_read_back() {
    // 6005: reg[0] = 5; F015: delay = reg[0]; F107: reg[1] = delay
    let mut s = load(&[0x6005, 0xF015, 0xF107]);
    assert!(s.step(NO_KEYS).is_ok());
    assert!(s.step(NO_KEYS).is_ok());
    assert_eq!(s.delay, 5);
    assert!(s.step(NO_KEYS).is_ok());
    // the tick decrements the timer before the instruction reads it
    assert_eq!(s.delay, 4);
    assert_eq!(s.reg_v[1], 4);
}

#[test]
fn sound_timer_set_from_register() {
    let mut s = load(&[0x6207, 0xF218]);
    assert!(s.step(NO_KEYS).is_ok());
    assert!(s.step(NO_KEYS).is_ok());
    assert_eq!(s.sound, 7);
}

#[test]
fn boundary_sum_wraps_and_sets_flag() {
    // reg[0] = 250, reg[1] = 10, reg[0] += reg[1]
    let mut s = load(&[0x60FA, 0x610A, 0x8014]);
    assert!(s.step(NO_KEYS).is_ok());
    assert!(s.step(NO_KEYS).is_ok());
    assert!(s.step(NO_KEYS).is_ok());
    assert_eq!(s.reg_v[0], 4);
    assert_eq!(s.reg_v[0xF], 1);
}

#[test]
fn immediate_loads_then_add_without_overflow() {
    // reg[0] = 5, then reg[0] = 10, then reg[0] += reg[1] (reg[1] is 0)
    let mut s = load(&[0x6005, 0x600A, 0x8014]);
    assert!(s.step(NO_KEYS).is_ok());
    assert_eq!(s.reg_v[0], 5);
    assert!(s.step(NO_KEYS).is_ok());
    assert!(s.step(NO_KEYS).is_ok());
    assert_eq!(s.reg_v[0], 10);
    assert_eq!(s.reg_v[0xF], 0);
}

#[test]
fn add_immediate_wraps_without_flag() {
    let mut s = load(&[0x6002, 0x70FF]);
    assert!(s.step(NO_KEYS).is_ok());
    assert!(s.step(NO_KEYS).is_ok());
    assert_eq!(s.reg_v[0], 1);
    assert_eq!(s.reg_v[0xF], 0);
}

#[test]
fn skip_instructions() {
    // 3xkk taken: pc jumps over the next word
    let mut s = load(&[0x6007, 0x3007, 0x6101, 0x6202]);
    assert!(s.step(NO_KEYS).is_ok());
    assert!(s.step(NO_KEYS).is_ok());
    assert_eq!(s.pc, 0x206);
    assert!(s.step(NO_KEYS).is_ok());
    assert_eq!(s.reg_v[2], 2);
    assert_eq!(s.reg_v[1], 0);

    // 4xkk not taken when equal
    let mut s = load(&[0x6007, 0x4007, 0x6101]);
    assert!(s.step(NO_KEYS).is_ok());
    assert!(s.step(NO_KEYS).is_ok());
    assert_eq!(s.pc, 0x204);

    // 5xy0 taken when registers equal, 9xy0 taken when different
    let mut s = load(&[0x6303, 0x6403, 0x5340]);
    assert!(s.step(NO_KEYS).is_ok());
    assert!(s.step(NO_KEYS).is_ok());
    assert!(s.step(NO_KEYS).is_ok());
    assert_eq!(s.pc, 0x208);
    let mut s = load(&[0x6303, 0x6405, 0x9340]);
    assert!(s.step(NO_KEYS).is_ok());
    assert!(s.step(NO_KEYS).is_ok());
    assert!(s.step(NO_KEYS).is_ok());
    assert_eq!(s.pc, 0x208);
}

#[test]
fn skip_on_key_state() {
    // E09E skips when the key in reg[0] is pressed
    let mut s = load(&[0x6004, 0xE09E]);
    let mut keys = NO_KEYS;
    keys[4] = true;
    assert!(s.step(keys).is_ok());
    assert!(s.step(keys).is_ok());
    assert_eq!(s.pc, 0x206);

    // E0A1 skips when it is not pressed
    let mut s = load(&[0x6004, 0xE0A1]);
    assert!(s.step(NO_KEYS).is_ok());
    assert!(s.step(NO_KEYS).is_ok());
    assert_eq!(s.pc, 0x206);
    let mut s = load(&[0x6004, 0xE0A1]);
    assert!(s.step(keys).is_ok());
    assert!(s.step(keys).is_ok());
    assert_eq!(s.pc, 0x204);
}

#[test]
fn alu_bit_operations() {
    // OR, AND, XOR, assign
    let mut s = load(&[0x6A0F, 0x6B33, 0x8AB1]);
    for _ in 0..3 {
        assert!(s.step(NO_KEYS).is_ok());
    }
    assert_eq!(s.reg_v[0xA], 0x3F);

    let mut s = load(&[0x6A0F, 0x6B33, 0x8AB2]);
    for _ in 0..3 {
        assert!(s.step(NO_KEYS).is_ok());
    }
    assert_eq!(s.reg_v[0xA], 0x03);

    let mut s = load(&[0x6A0F, 0x6B33, 0x8AB3]);
    for _ in 0..3 {
        assert!(s.step(NO_KEYS).is_ok());
    }
    assert_eq!(s.reg_v[0xA], 0x3C);

    let mut s = load(&[0x6A0F, 0x6B33, 0x8AB0]);
    for _ in 0..3 {
        assert!(s.step(NO_KEYS).is_ok());
    }
    assert_eq!(s.reg_v[0xA], 0x33);
}

#[test]
fn shifts_report_shifted_out_bit() {
    // 8xy6: shift right, flag gets the old LSB
    let mut s = load(&[0x6005, 0x8006]);
    assert!(s.step(NO_KEYS).is_ok());
    assert!(s.step(NO_KEYS).is_ok());
    assert_eq!(s.reg_v[0], 2);
    assert_eq!(s.reg_v[0xF], 1);

    // 8xyE: shift left, flag gets the old MSB
    let mut s = load(&[0x6081, 0x800E]);
    assert!(s.step(NO_KEYS).is_ok());
    assert!(s.step(NO_KEYS).is_ok());
    assert_eq!(s.reg_v[0], 2);
    assert_eq!(s.reg_v[0xF], 1);
}

#[test]
fn call_and_return_roundtrip() {
    // 0x200: call 0x204; 0x202: halt marker; 0x204: return
    let mut s = load(&[0x2204, 0x6099, 0x00EE]);
    assert!(s.step(NO_KEYS).is_ok());
    assert_eq!(s.pc, 0x204);
    assert_eq!(s.sp, 1);
    assert_eq!(s.stack[0], 0x202);
    assert!(s.step(NO_KEYS).is_ok());
    assert_eq!(s.pc, 0x202);
    assert_eq!(s.sp, 0);
    assert!(s.step(NO_KEYS).is_ok());
    assert_eq!(s.reg_v[0], 0x99);
}

#[test]
fn jump_and_jump_plus() {
    let mut s = load(&[0x1208]);
    assert!(s.step(NO_KEYS).is_ok());
    assert_eq!(s.pc, 0x208);

    let mut s = load(&[0x6004, 0xB200]);
    assert!(s.step(NO_KEYS).is_ok());
    assert!(s.step(NO_KEYS).is_ok());
    assert_eq!(s.pc, 0x204);
}

#[test]
fn index_register_operations() {
    // Annn, Fx1E (with 16-bit wraparound), Fx29
    let mut s = load(&[0xA123]);
    assert!(s.step(NO_KEYS).is_ok());
    assert_eq!(s.reg_i, 0x123);

    let mut s = load(&[0x6002, 0xF01E]);
    s.reg_i = 0xFFFF;
    assert!(s.step(NO_KEYS).is_ok());
    assert!(s.step(NO_KEYS).is_ok());
    assert_eq!(s.reg_i, 1);

    let mut s = load(&[0x600A, 0xF029]);
    assert!(s.step(NO_KEYS).is_ok());
    assert!(s.step(NO_KEYS).is_ok());
    assert_eq!(s.reg_i, 50);
}

#[test]
fn register_block_roundtrip() {
    // store reg[0..=2] at 0x300, reload them into a zeroed file
    let mut s = load(&[0x6011, 0x6122, 0x6233, 0xA300, 0xF255]);
    for _ in 0..5 {
        assert!(s.step(NO_KEYS).is_ok());
    }
    assert_eq!(&s.mem[0x300..0x303], &[0x11, 0x22, 0x33]);
    // reg[3] was not copied
    assert_eq!(s.mem[0x303], 0);

    let mut s = load(&[0xA300, 0xF165]);
    s.mem[0x300] = 0xAA;
    s.mem[0x301] = 0xBB;
    s.mem[0x302] = 0xCC;
    assert!(s.step(NO_KEYS).is_ok());
    assert!(s.step(NO_KEYS).is_ok());
    assert_eq!(s.reg_v[0], 0xAA);
    assert_eq!(s.reg_v[1], 0xBB);
    // reg[2] is beyond x = 1 and stays zero
    assert_eq!(s.reg_v[2], 0);
}

#[test]
fn clear_display_unlights_everything() {
    let mut s = load(&[0xD011, 0x00E0]);
    s.mem[0x000] = 0xF0; // the font's glyph 0 row, used as sprite data
    s.reg_i = 0;
    assert!(s.step(NO_KEYS).is_ok());
    assert!(s.display.iter().any(|c| *c));
    assert!(s.step(NO_KEYS).is_ok());
    assert!(s.display.iter().all(|c| !c));
}

#[test]
fn random_masks_the_drawn_byte() {
    // Cx00 masks every drawn byte to zero
    let mut s = load(&[0xC700]);
    s.reg_v[7] = 0x55;
    assert!(s.step(NO_KEYS).is_ok());
    assert_eq!(s.reg_v[7], 0);

    // with a fixed drawn byte the masking is exact
    let mut s = load(&[0xC70F]);
    assert!(s.step_with_random(NO_KEYS, 0xAB).is_ok());
    assert_eq!(s.reg_v[7], 0x0B);
}

#[test]
fn unrecognized_opcode_fails_and_preserves_state() {
    let mut s = load(&[0xFFFF]);
    s.delay = 5;
    let before = s;
    assert_eq!(s.step(NO_KEYS), Err(StepError::UnrecognizedOpcode(0xFF, 0xFF)));
    assert_eq!(s.pc, before.pc);
    assert_eq!(s.delay, before.delay);
}

#[test]
fn return_with_empty_stack_underflows() {
    let mut s = load(&[0x00EE]);
    assert_eq!(s.step(NO_KEYS), Err(StepError::StackUnderflow));
    assert_eq!(s.pc, 0x200);
}

#[test]
fn seventeenth_nested_call_overflows() {
    // 0x200: call 0x200, forever
    let mut s = load(&[0x2200]);
    for depth in 1..=16 {
        assert!(s.step(NO_KEYS).is_ok());
        assert_eq!(s.sp, depth);
    }
    assert_eq!(s.step(NO_KEYS), Err(StepError::StackOverflow));
    assert_eq!(s.sp, 16);
    assert_eq!(s.pc, 0x200);
}

#[test]
fn index_out_of_range_accesses_fail() {
    // BCD store reaching past the end of memory
    let mut s = load(&[0xAFFF, 0xF033]);
    assert!(s.step(NO_KEYS).is_ok());
    assert_eq!(s.step(NO_KEYS), Err(StepError::OutOfRange));

    // sprite fetch reaching past the end of memory
    let mut s = load(&[0xAFFF, 0xD005]);
    assert!(s.step(NO_KEYS).is_ok());
    assert_eq!(s.step(NO_KEYS), Err(StepError::OutOfRange));

    // register block store reaching past the end of memory
    let mut s = load(&[0xAFFF, 0xF355]);
    assert!(s.step(NO_KEYS).is_ok());
    assert_eq!(s.step(NO_KEYS), Err(StepError::OutOfRange));

    // key test with a register value beyond the keypad
    let mut s = load(&[0x60FF, 0xE09E]);
    assert!(s.step(NO_KEYS).is_ok());
    assert_eq!(s.step(NO_KEYS), Err(StepError::OutOfRange));

    // fetch from the last byte of memory
    let mut s = load(&[0x1FFF]);
    assert!(s.step(NO_KEYS).is_ok());
    assert_eq!(s.pc, 0xFFF);
    assert_eq!(s.step(NO_KEYS), Err(StepError::OutOfRange));
}

#[test]
fn subtraction_opcodes_through_the_engine() {
    // 8xy5: reg[0] -= reg[1], flag = NOT borrow
    let mut s = load(&[0x6005, 0x610A, 0x8015]);
    for _ in 0..3 {
        assert!(s.step(NO_KEYS).is_ok());
    }
    assert_eq!(s.reg_v[0], 251);
    assert_eq!(s.reg_v[0xF], 0);

    // 8xy7: reg[0] = reg[1] - reg[0], stored in reg[0]
    let mut s = load(&[0x6005, 0x6114, 0x8017]);
    for _ in 0..3 {
        assert!(s.step(NO_KEYS).is_ok());
    }
    assert_eq!(s.reg_v[0], 15);
    assert_eq!(s.reg_v[1], 20);
    assert_eq!(s.reg_v[0xF], 1);
}

#[test]
fn sprite_wraps_at_bottom_edge() {
    // a two-row sprite drawn at y = 31 puts its second row on row 0
    let mut s = State::new(&[]);
    s.mem[0x300] = 0x80;
    s.mem[0x301] = 0x80;
    s.reg_i = 0x300;
    s.reg_v[0] = 2;
    s.reg_v[1] = 31;
    draw_sprite(&mut s, 0, 1, 2);
    assert!(s.display[2 + 31 * 64]);
    assert!(s.display[2]);
    assert_eq!(s.reg_v[0xF], 0);
}

#[test]
fn default_machine_is_font_loaded_and_empty() {
    let s = State::default();
    assert_eq!(&s.mem[0..5], &[0xF0, 0x90, 0x90, 0x90, 0xF0]);
    assert_eq!(s.mem[0x200], 0);
    assert_eq!(s.pc, 0x200);
    assert_eq!(s.sp, 0);
}

#[test]
fn step_forward_assumes_no_keys() {
    let mut s = load(&[0xF00A]);
    assert!(s.step_forward().is_ok());
    assert_eq!(s.pc, 0x200);
}

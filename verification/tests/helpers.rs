//! Tests of the bit- and nibble-level helpers.

use chip_again::decode::{addr, byte};
use chip_again::utils::{bcd, u8_to_bits};

#[test]
fn test_addr() {
    assert_eq!(0x0000, addr(0x0, 0x0, 0x0));
    assert_eq!(0x0123, addr(0x1, 0x2, 0x3));
    assert_eq!(0x0FFF, addr(0xF, 0xF, 0xF));
}

#[test]
fn test_byte() {
    assert_eq!(0x00, byte(0x0, 0x0));
    assert_eq!(0x12, byte(0x1, 0x2));
    assert_eq!(0xFF, byte(0xF, 0xF));
}

#[test]
fn test_to_bits() {
    assert_eq!([false; 8], u8_to_bits(0b00000000));
    assert_eq!(
        [false, false, true, true, false, true, false, true],
        u8_to_bits(0b00110101)
    );
}

#[test]
fn test_bcd() {
    assert_eq!([0, 0, 0], bcd(000));
    assert_eq!([1, 2, 3], bcd(123));
    assert_eq!([0, 2, 1], bcd(021));
}

#[test]
fn test_to_bits_all_ones() {
    assert_eq!([true; 8], u8_to_bits(0xFF));
    assert_eq!(
        [true, false, false, false, false, false, false, false],
        u8_to_bits(0x80)
    );
}

#[test]
fn test_bcd_boundaries() {
    assert_eq!([2, 5, 5], bcd(255));
    assert_eq!([1, 0, 0], bcd(100));
    assert_eq!([0, 0, 9], bcd(9));
}

//! Bit- and digit-level helpers shared by the instruction engine.

use vstd::prelude::*;

verus! {

/// Bit `i` of `b`, counted from the most significant bit down
/// (so `byte_bit(b, 0)` is the MSB and `byte_bit(b, 7)` is the LSB).
pub open spec fn byte_bit(b: u8, i: int) -> bool
    recommends
        0 <= i < 8,
{
    (b >> ((7 - i) as u8)) & 1 == 1
}

/// Converts a byte to an array of its binary digits, most significant first:
/// `0b00110010` maps to `[false, false, true, true, false, false, true, false]`.
pub fn u8_to_bits(x: u8) -> (r: [bool; 8])
    ensures
        forall|i: int| 0 <= i < 8 ==> r@[i] == byte_bit(x, i),
{
    [
        (x >> 7) & 1 == 1,
        (x >> 6) & 1 == 1,
        (x >> 5) & 1 == 1,
        (x >> 4) & 1 == 1,
        (x >> 3) & 1 == 1,
        (x >> 2) & 1 == 1,
        (x >> 1) & 1 == 1,
        (x >> 0) & 1 == 1,
    ]
}

/// Converts a byte to its binary-coded-decimal representation:
/// hundreds digit first, then tens, then ones, so `bcd(123)` is `[1, 2, 3]`.
pub fn bcd(x: u8) -> (r: [u8; 3])
    ensures
        r@[0] == x / 100,
        r@[1] == (x % 100) / 10,
        r@[2] == x % 10,
        r@[0] * 100 + r@[1] * 10 + r@[2] == x,
        r@[0] < 10 && r@[1] < 10 && r@[2] < 10,
{
    proof {
        assert(x / 100 * 100 + (x % 100) / 10 * 10 + x % 10 == x && x / 100 < 10 && (x % 100) / 10
            < 10 && x % 10 < 10) by (bit_vector);
    }
    [x / 100, (x % 100) / 10, x % 10]
}

} // verus!

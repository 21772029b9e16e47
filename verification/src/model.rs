//! The mathematical model of the CHIP-8 machine: an abstract state made of
//! sequences and scalars, and the spec-level building blocks (timer ticks,
//! display cell addressing, sprite patterns) that the contracts are written
//! over.

use crate::utils::byte_bit;
use vstd::prelude::*;

verus! {

/// Abstract machine state. This is the view of the executable `State`; every
/// contract of the instruction engine is stated as a relation between `Chip`
/// values.
#[verifier::ext_equal]
pub ghost struct Chip {
    /// The 4096 bytes of RAM.
    pub mem: Seq<u8>,
    /// The 16 general-purpose 8-bit registers.
    pub regs: Seq<u8>,
    /// The 16-bit address register.
    pub index: u16,
    /// The sound timer, decremented once per tick, saturating at zero.
    pub sound: u8,
    /// The delay timer, decremented once per tick, saturating at zero.
    pub delay: u8,
    /// The address of the next instruction to fetch.
    pub pc: u16,
    /// The 16 return-address slots of the call stack.
    pub stack: Seq<u16>,
    /// The number of occupied stack slots (index of the next free slot).
    pub sp: int,
    /// The 64 by 32 monochrome display, row-major.
    pub display: Seq<bool>,
}

impl Chip {
    /// Every component has its fixed hardware size and the stack pointer is
    /// within the 16 slots.
    pub open spec fn wf(self) -> bool {
        &&& self.mem.len() == 4096
        &&& self.regs.len() == 16
        &&& self.stack.len() == 16
        &&& 0 <= self.sp <= 16
        &&& self.display.len() == 2048
    }
}

/// One tick of a CHIP-8 timer: decrement, saturating at zero.
pub open spec fn sat_dec(t: u8) -> u8 {
    if t > 0 {
        (t - 1) as u8
    } else {
        0
    }
}

/// Row-major index of the display cell that the point `(x, y)` lands on;
/// coordinates wrap modulo the display width (64) and height (32).
pub open spec fn cell_of(x: int, y: int) -> int {
    (x % 64) + 64 * (y % 32)
}

/// Pixel `i` of row `j` of the sprite stored at `mem[base..base + rows]`,
/// drawn with its origin at `(ox, oy)`, is set and lands on display cell `c`.
pub open spec fn sprite_hit(
    mem: Seq<u8>,
    base: int,
    ox: int,
    oy: int,
    j: int,
    i: int,
    c: int,
) -> bool {
    0 <= i < 8 && byte_bit(mem[base + j], i) && cell_of(ox + i, oy + j) == c
}

/// The 2048-cell bitmap holding exactly the display cells that some set pixel
/// of the `n`-row sprite at `mem[base..base + n]` lands on when drawn with its
/// origin at `(ox, oy)`.
pub open spec fn sprite_pattern(mem: Seq<u8>, base: int, ox: int, oy: int, n: int) -> Seq<bool> {
    Seq::new(
        2048,
        |c: int|
            exists|j: int, i: int| 0 <= j < n && #[trigger] sprite_hit(mem, base, ox, oy, j, i, c),
    )
}

/// Pointwise exclusive-or of two bitmaps of equal length.
pub open spec fn seq_xor(a: Seq<bool>, b: Seq<bool>) -> Seq<bool> {
    Seq::new(a.len(), |i: int| a[i] != b[i])
}

/// Whether bitmaps `d` and `p` are both set at some cell below `n`.
pub open spec fn collides_below(d: Seq<bool>, p: Seq<bool>, n: int) -> bool {
    exists|c: int| #![trigger d[c], p[c]] 0 <= c < n && d[c] && p[c]
}

/// Whether the sprite pattern `p` touches any cell of the display `d` that is
/// already lit: the collision condition reported in register 0xF by a draw.
pub open spec fn collides(d: Seq<bool>, p: Seq<bool>) -> bool {
    collides_below(d, p, 2048)
}

/// The highest pressed key index below `n`, or -1 when no key below `n` is
/// pressed. This is the key that the blocking key wait stores.
pub open spec fn last_pressed_below(keys: Seq<bool>, n: int) -> int
    decreases n,
{
    if n <= 0 {
        -1
    } else if keys[n - 1] {
        n - 1
    } else {
        last_pressed_below(keys, n - 1)
    }
}

} // verus!

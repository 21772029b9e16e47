//! Machine-checked laws of the instruction engine that relate several
//! operations: the self-inverse sprite compositing, coordinate wrapping, the
//! blocking key wait, and timer saturation.

use crate::decode::Instruction;
use crate::model::{
    cell_of, collides, collides_below, last_pressed_below, sat_dec, seq_xor, sprite_hit,
    sprite_pattern, Chip,
};
use crate::step::{spec_apply, spec_step};
use crate::utils::byte_bit;
use vstd::prelude::*;

verus! {

/// Compositing the same pattern onto a display twice restores the display:
/// the exclusive-or is self-inverse. The second compositing collides exactly
/// when the pattern covers some cell that was unlit originally, because the
/// first compositing lit every such cell.
pub proof fn lemma_xor_twice_restores(d: Seq<bool>, p: Seq<bool>)
    requires
        d.len() == 2048,
        p.len() == 2048,
    ensures
        seq_xor(seq_xor(d, p), p) == d,
        collides(seq_xor(d, p), p) <==> exists|c: int|
            0 <= c < 2048 && #[trigger] p[c] && !d[c],
{
    assert(seq_xor(seq_xor(d, p), p) =~= d);
    if collides(seq_xor(d, p), p) {
        let c = choose|c: int|
            #![trigger seq_xor(d, p)[c], p[c]]
            0 <= c < 2048 && seq_xor(d, p)[c] && p[c];
        assert(p[c] && !d[c]);
    }
    if exists|c: int| 0 <= c < 2048 && #[trigger] p[c] && !d[c] {
        let c = choose|c: int| 0 <= c < 2048 && #[trigger] p[c] && !d[c];
        assert(seq_xor(d, p)[c] && p[c]);
        assert(collides_below(seq_xor(d, p), p, 2048));
    }
}

/// Drawing the identical sprite twice at the identical coordinates restores
/// the display bitmap to its pre-draw state, and the second draw's collision
/// flag is 0 exactly when every set sprite cell was already lit before the
/// first draw (the first draw lights every other one, so re-drawing erases
/// them and reports the erasure).
///
/// Registers `x` and `y` must not be the flag register 0xF, which the first
/// draw overwrites: the coordinates would change between the draws.
pub proof fn lemma_draw_twice_restores(t: Chip, x: u8, y: u8, n: u8, keys: Seq<bool>, r: u8)
    requires
        t.wf(),
        x < 15,
        y < 15,
        n < 16,
    ensures
        ({
            let p = sprite_pattern(
                t.mem,
                t.index as int,
                t.regs[x as int] as int,
                t.regs[y as int] as int,
                n as int,
            );
            let once = spec_apply(t, Instruction::Draw(x, y, n), keys, r);
            let twice = spec_apply(once, Instruction::Draw(x, y, n), keys, r);
            &&& twice.display == t.display
            &&& twice.regs == t.regs.update(
                0xF,
                if collides(seq_xor(t.display, p), p) {
                    1u8
                } else {
                    0u8
                },
            )
            &&& (collides(seq_xor(t.display, p), p) <==> exists|c: int|
                0 <= c < 2048 && #[trigger] p[c] && !t.display[c])
        }),
{
    let p = sprite_pattern(
        t.mem,
        t.index as int,
        t.regs[x as int] as int,
        t.regs[y as int] as int,
        n as int,
    );
    let once = spec_apply(t, Instruction::Draw(x, y, n), keys, r);
    let twice = spec_apply(once, Instruction::Draw(x, y, n), keys, r);
    assert(once.regs[x as int] == t.regs[x as int]);
    assert(once.regs[y as int] == t.regs[y as int]);
    lemma_xor_twice_restores(t.display, p);
    assert(twice.display =~= t.display);
    assert(twice.regs =~= t.regs.update(
        0xF,
        if collides(seq_xor(t.display, p), p) {
            1u8
        } else {
            0u8
        },
    ));
}

/// Sprite coordinates wrap at the display edges: pixel `i` of sprite row `j`,
/// drawn with the origin at the rightmost column (x = 63), lands in the cell
/// at x-coordinate `(63 + i) % 64` — column 63 for pixel 0 and columns 0
/// through 6 for pixels 1 through 7 — of display row `oy + j`.
pub proof fn lemma_sprite_wraps(mem: Seq<u8>, base: int, oy: int, n: int, j: int, i: int)
    requires
        0 <= j < n,
        n <= 15,
        0 <= i < 8,
        0 <= oy,
        oy + j < 32,
    ensures
        sprite_pattern(mem, base, 63, oy, n)[(63 + i) % 64 + 64 * (oy + j)] == byte_bit(
            mem[base + j],
            i,
        ),
{
    let cx = (63 + i) % 64;
    let c = cx + 64 * (oy + j);
    assert(0 <= cx < 64);
    assert(0 <= c < 2048);
    if byte_bit(mem[base + j], i) {
        assert((oy + j) % 32 == oy + j);
        assert(cell_of(63 + i, oy + j) == c);
        assert(sprite_hit(mem, base, 63, oy, j, i, c));
        assert(sprite_pattern(mem, base, 63, oy, n)[c]);
    }
    if sprite_pattern(mem, base, 63, oy, n)[c] {
        let (j2, i2): (int, int) = choose|j2: int, i2: int|
            0 <= j2 < n && #[trigger] sprite_hit(mem, base, 63, oy, j2, i2, c);
        assert(cell_of(63 + i2, oy + j2) == c);
        assert((63 + i2) % 64 < 64);
        assert((63 + i2) % 64 == c % 64);
        assert((oy + j2) % 32 == (c - c % 64) / 64);
        assert((oy + j) % 32 == oy + j);
        if oy + j2 < 32 {
            assert(oy + j2 == oy + j);
        } else {
            assert((oy + j2) % 32 == oy + j2 - 32);
            assert(j2 == j + 32);
            assert(false);
        }
        if i2 == 0 {
            assert((63 + i2) % 64 == 63);
        } else {
            assert((63 + i2) % 64 == i2 - 1);
        }
        if i == 0 {
            assert(cx == 63);
        } else {
            assert(cx == i - 1);
        }
        assert(i2 == i);
        assert(byte_bit(mem[base + j], i));
    }
}

/// When no key below `n` is pressed, the key search finds nothing.
pub proof fn lemma_no_key_pressed(keys: Seq<bool>, n: int)
    requires
        forall|k: int| 0 <= k < n ==> !keys[k],
    ensures
        last_pressed_below(keys, n) == -1,
    decreases n,
{
    if n > 0 {
        lemma_no_key_pressed(keys, n - 1);
    }
}

/// A blocking key wait (Fx0A) stepped with no key pressed leaves the program
/// counter exactly where it was before the step — the instruction will be
/// fetched again next tick — while both timers still decrement, saturating at
/// zero: the tick cadence is kept even while blocked.
pub proof fn lemma_wait_key_blocks(pre: Chip, keys: Seq<bool>, r: u8)
    requires
        pre.wf(),
        pre.pc + 1 < 4096,
        pre.mem[pre.pc as int] >> 4 == 0xF,
        pre.mem[pre.pc as int + 1] == 0x0A,
        forall|k: int| 0 <= k < 16 ==> !keys[k],
    ensures
        spec_step(pre, keys, r) matches Ok(c) && c.pc == pre.pc && c.delay == sat_dec(pre.delay)
            && c.sound == sat_dec(pre.sound),
{
    let b0 = pre.mem[pre.pc as int];
    assert(b0 != 0x00 && b0 >> 4 != 0x1 && b0 >> 4 != 0x2) by (bit_vector)
        requires
            b0 >> 4 == 0xF,
    ;
    lemma_no_key_pressed(keys, 16);
}

/// The timer decrement saturates: a step taken with the delay timer at zero
/// leaves it at zero — it never underflows. The one instruction that can make
/// it non-zero again, Fx15 (load the delay timer from a register), is
/// excluded by the premise on the fetched bytes.
pub proof fn lemma_delay_saturates(pre: Chip, keys: Seq<bool>, r: u8)
    requires
        pre.delay == 0,
        pre.pc + 1 < 4096 ==> !(pre.mem[pre.pc as int] >> 4 == 0xF && pre.mem[pre.pc as int + 1]
            == 0x15),
    ensures
        spec_step(pre, keys, r) matches Ok(c) ==> c.delay == 0,
{
}

} // verus!

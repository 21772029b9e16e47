//! The state transition of each CHIP-8 instruction that is more than a plain
//! field assignment. Each function's contract pins down the whole machine
//! state after the operation as a function of the state before it.
//!
//! The program counter these functions see has already been advanced past the
//! instruction by the fetch stage, so a "skip" adds another 2 and the blocking
//! key wait subtracts 2 to re-fetch itself.

use crate::model::{
    cell_of, collides, collides_below, last_pressed_below, seq_xor, sprite_hit, sprite_pattern,
    Chip,
};
use crate::state::{Input, State};
use crate::utils::{bcd, byte_bit, u8_to_bits};
use vstd::prelude::*;

verus! {

/// 00E0: clear the display; all 2048 cells become unlit.
pub fn clear_display(s: &mut State)
    requires
        old(s).wf(),
    ensures
        final(s).wf(),
        final(s)@ == (Chip { display: Seq::new(2048, |i: int| false), ..old(s)@ }),
{
    s.display = [false; 2048];
    proof {
        assert(s@.display =~= Seq::new(2048, |i: int| false));
    }
}

/// 00EE: return from a subroutine.
///
/// The stack pointer moves down one slot and the program counter is set to
/// the return address stored there. The address popped is already past the
/// call instruction, so the subroutine is not re-entered.
pub fn ret(s: &mut State)
    requires
        old(s).wf(),
        old(s).sp >= 1,
    ensures
        final(s).wf(),
        final(s)@ == (Chip {
            sp: old(s)@.sp - 1,
            pc: old(s)@.stack[old(s)@.sp - 1],
            ..old(s)@
        }),
{
    s.sp = s.sp - 1;
    s.pc = s.stack[s.sp];
}

/// 2nnn: call the subroutine at `nnn`.
///
/// The current program counter is pushed onto the stack, the stack pointer
/// moves up one slot, and execution jumps to `nnn`.
pub fn call(s: &mut State, nnn: u16)
    requires
        old(s).wf(),
        old(s).sp < 16,
    ensures
        final(s).wf(),
        final(s)@ == (Chip {
            stack: old(s)@.stack.update(old(s)@.sp, old(s)@.pc),
            sp: old(s)@.sp + 1,
            pc: nnn,
            ..old(s)@
        }),
{
    let sp = s.sp;
    s.stack[sp] = s.pc;
    s.pc = nnn;
    s.sp = sp + 1;
}

/// 3xkk: skip the next instruction if `reg[x] == kk`.
pub fn skip_if_equal(s: &mut State, x: u8, kk: u8)
    requires
        old(s).wf(),
        x < 16,
        old(s).pc + 2 <= u16::MAX,
    ensures
        final(s).wf(),
        final(s)@ == (if old(s)@.regs[x as int] == kk {
            Chip { pc: (old(s)@.pc + 2) as u16, ..old(s)@ }
        } else {
            old(s)@
        }),
{
    if s.reg_v[x as usize] == kk {
        s.pc = s.pc + 2;
    }
}

/// 4xkk: skip the next instruction if `reg[x] != kk`.
pub fn skip_if_not_equal(s: &mut State, x: u8, kk: u8)
    requires
        old(s).wf(),
        x < 16,
        old(s).pc + 2 <= u16::MAX,
    ensures
        final(s).wf(),
        final(s)@ == (if old(s)@.regs[x as int] != kk {
            Chip { pc: (old(s)@.pc + 2) as u16, ..old(s)@ }
        } else {
            old(s)@
        }),
{
    if s.reg_v[x as usize] != kk {
        s.pc = s.pc + 2;
    }
}

/// 5xy0: skip the next instruction if `reg[x] == reg[y]`.
pub fn skip_reg_equal(s: &mut State, x: u8, y: u8)
    requires
        old(s).wf(),
        x < 16,
        y < 16,
        old(s).pc + 2 <= u16::MAX,
    ensures
        final(s).wf(),
        final(s)@ == (if old(s)@.regs[x as int] == old(s)@.regs[y as int] {
            Chip { pc: (old(s)@.pc + 2) as u16, ..old(s)@ }
        } else {
            old(s)@
        }),
{
    if s.reg_v[x as usize] == s.reg_v[y as usize] {
        s.pc = s.pc + 2;
    }
}

/// 9xy0: skip the next instruction if `reg[x] != reg[y]`.
pub fn skip_reg_not_equal(s: &mut State, x: u8, y: u8)
    requires
        old(s).wf(),
        x < 16,
        y < 16,
        old(s).pc + 2 <= u16::MAX,
    ensures
        final(s).wf(),
        final(s)@ == (if old(s)@.regs[x as int] != old(s)@.regs[y as int] {
            Chip { pc: (old(s)@.pc + 2) as u16, ..old(s)@ }
        } else {
            old(s)@
        }),
{
    if s.reg_v[x as usize] != s.reg_v[y as usize] {
        s.pc = s.pc + 2;
    }
}

/// 8xy4: set `reg[x] = reg[x] + reg[y]`, wrapping to 8 bits; register 0xF is
/// set to 1 exactly when the unsigned sum exceeds 255 (the carry), else 0.
pub fn overflowing_add(s: &mut State, x: u8, y: u8)
    requires
        old(s).wf(),
        x < 16,
        y < 16,
    ensures
        final(s).wf(),
        final(s)@ == (Chip {
            regs: old(s)@.regs.update(
                x as int,
                ((old(s)@.regs[x as int] + old(s)@.regs[y as int]) % 256) as u8,
            ).update(
                0xF,
                if old(s)@.regs[x as int] + old(s)@.regs[y as int] > 255 {
                    1u8
                } else {
                    0u8
                },
            ),
            ..old(s)@
        }),
{
    let sum = s.reg_v[x as usize] as u16 + s.reg_v[y as usize] as u16;
    s.reg_v[x as usize] = (sum % 256) as u8;
    s.reg_v[0xF] = if sum > 255 {
        1
    } else {
        0
    };
}

/// 8xy5: set `reg[x] = reg[x] - reg[y]`, wrapping to 8 bits; register 0xF is
/// set to 1 exactly when `reg[x] >= reg[y]` before the operation (NOT borrow),
/// else 0.
pub fn subtract(s: &mut State, x: u8, y: u8)
    requires
        old(s).wf(),
        x < 16,
        y < 16,
    ensures
        final(s).wf(),
        final(s)@ == (Chip {
            regs: old(s)@.regs.update(
                x as int,
                ((old(s)@.regs[x as int] - old(s)@.regs[y as int]) % 256) as u8,
            ).update(
                0xF,
                if old(s)@.regs[x as int] >= old(s)@.regs[y as int] {
                    1u8
                } else {
                    0u8
                },
            ),
            ..old(s)@
        }),
{
    let rx = s.reg_v[x as usize];
    let ry = s.reg_v[y as usize];
    s.reg_v[x as usize] = if rx >= ry {
        rx - ry
    } else {
        (rx as u16 + 256 - ry as u16) as u8
    };
    s.reg_v[0xF] = if rx >= ry {
        1
    } else {
        0
    };
}

/// 8xy7: set `reg[x] = reg[y] - reg[x]`, wrapping to 8 bits; register 0xF is
/// set to 1 exactly when `reg[y] >= reg[x]` before the operation (NOT borrow
/// of that reversed subtraction), else 0.
pub fn subtract_reverse(s: &mut State, x: u8, y: u8)
    requires
        old(s).wf(),
        x < 16,
        y < 16,
    ensures
        final(s).wf(),
        final(s)@ == (Chip {
            regs: old(s)@.regs.update(
                x as int,
                ((old(s)@.regs[y as int] - old(s)@.regs[x as int]) % 256) as u8,
            ).update(
                0xF,
                if old(s)@.regs[y as int] >= old(s)@.regs[x as int] {
                    1u8
                } else {
                    0u8
                },
            ),
            ..old(s)@
        }),
{
    let rx = s.reg_v[x as usize];
    let ry = s.reg_v[y as usize];
    s.reg_v[x as usize] = if ry >= rx {
        ry - rx
    } else {
        (ry as u16 + 256 - rx as u16) as u8
    };
    s.reg_v[0xF] = if ry >= rx {
        1
    } else {
        0
    };
}

/// 8xy6: register 0xF receives the least-significant bit of `reg[x]` (the bit
/// shifted out), then `reg[x]` is shifted right by one. The flag is written
/// first, so with `x == 0xF` the shift reads the freshly written flag.
pub fn shift_right(s: &mut State, x: u8)
    requires
        old(s).wf(),
        x < 16,
    ensures
        final(s).wf(),
        final(s)@ == ({
            let r1 = old(s)@.regs.update(0xF, old(s)@.regs[x as int] & 1);
            Chip { regs: r1.update(x as int, r1[x as int] >> 1), ..old(s)@ }
        }),
{
    s.reg_v[0xF] = s.reg_v[x as usize] & 1;
    let cur = s.reg_v[x as usize];
    s.reg_v[x as usize] = cur >> 1;
}

/// 8xyE: register 0xF receives the most-significant bit of `reg[x]` (the bit
/// shifted out, as 0 or 1), then `reg[x]` is shifted left by one. The flag is
/// written first, so with `x == 0xF` the shift reads the freshly written flag.
pub fn shift_left(s: &mut State, x: u8)
    requires
        old(s).wf(),
        x < 16,
    ensures
        final(s).wf(),
        final(s)@ == ({
            let r1 = old(s)@.regs.update(
                0xF,
                if old(s)@.regs[x as int] & 0x80 != 0 {
                    1u8
                } else {
                    0u8
                },
            );
            Chip { regs: r1.update(x as int, (r1[x as int] * 2 % 256) as u8), ..old(s)@ }
        }),
{
    s.reg_v[0xF] = if s.reg_v[x as usize] & 0x80 != 0 {
        1
    } else {
        0
    };
    let cur = s.reg_v[x as usize];
    proof {
        assert(cur << 1 == cur * 2 % 256) by (bit_vector);
    }
    s.reg_v[x as usize] = cur << 1;
}

/// The cells hit by the sprite pixels strictly before row `j_lim`, plus those
/// hit by the pixels of row `j_lim` strictly before column `i_lim`: the part
/// of a sprite pattern that a partially run draw loop has visited.
spec fn sprite_prefix_cell(
    mem: Seq<u8>,
    base: int,
    ox: int,
    oy: int,
    j_lim: int,
    i_lim: int,
    c: int,
) -> bool {
    exists|j: int, i: int|
        0 <= j && (j < j_lim || (j == j_lim && i < i_lim)) && #[trigger] sprite_hit(
            mem,
            base,
            ox,
            oy,
            j,
            i,
            c,
        )
}

/// No pixel has been visited before row 0, column 0.
proof fn lemma_prefix_empty(mem: Seq<u8>, base: int, ox: int, oy: int, c: int)
    ensures
        !sprite_prefix_cell(mem, base, ox, oy, 0, 0, c),
{
    if sprite_prefix_cell(mem, base, ox, oy, 0, 0, c) {
        let (j, i): (int, int) = choose|j: int, i: int|
            0 <= j && (j < 0 || (j == 0 && i < 0)) && #[trigger] sprite_hit(
                mem,
                base,
                ox,
                oy,
                j,
                i,
                c,
            );
        assert(false);
    }
}

/// Visiting one more pixel adds exactly the cells that the pixel at row
/// `j_lim`, column `i_lim` hits.
proof fn lemma_prefix_step(
    mem: Seq<u8>,
    base: int,
    ox: int,
    oy: int,
    j_lim: int,
    i_lim: int,
    c: int,
)
    requires
        0 <= j_lim,
        0 <= i_lim,
    ensures
        sprite_prefix_cell(mem, base, ox, oy, j_lim, i_lim + 1, c) == (sprite_prefix_cell(
            mem,
            base,
            ox,
            oy,
            j_lim,
            i_lim,
            c,
        ) || sprite_hit(mem, base, ox, oy, j_lim, i_lim, c)),
{
    if sprite_prefix_cell(mem, base, ox, oy, j_lim, i_lim + 1, c) {
        let (j, i): (int, int) = choose|j: int, i: int|
            0 <= j && (j < j_lim || (j == j_lim && i < i_lim + 1)) && #[trigger] sprite_hit(
                mem,
                base,
                ox,
                oy,
                j,
                i,
                c,
            );
        if !(j == j_lim && i == i_lim) {
            assert(sprite_prefix_cell(mem, base, ox, oy, j_lim, i_lim, c));
        }
    }
}

/// After the last column of a row, the visited pixels are exactly those
/// before column 0 of the next row.
proof fn lemma_prefix_row(mem: Seq<u8>, base: int, ox: int, oy: int, j_lim: int, c: int)
    requires
        0 <= j_lim,
    ensures
        sprite_prefix_cell(mem, base, ox, oy, j_lim, 8, c) == sprite_prefix_cell(
            mem,
            base,
            ox,
            oy,
            j_lim + 1,
            0,
            c,
        ),
{
    if sprite_prefix_cell(mem, base, ox, oy, j_lim, 8, c) {
        let (j, i): (int, int) = choose|j: int, i: int|
            0 <= j && (j < j_lim || (j == j_lim && i < 8)) && #[trigger] sprite_hit(
                mem,
                base,
                ox,
                oy,
                j,
                i,
                c,
            );
        assert(sprite_prefix_cell(mem, base, ox, oy, j_lim + 1, 0, c));
    }
    if sprite_prefix_cell(mem, base, ox, oy, j_lim + 1, 0, c) {
        let (j, i): (int, int) = choose|j: int, i: int|
            0 <= j && (j < j_lim + 1 || (j == j_lim + 1 && i < 0)) && #[trigger] sprite_hit(
                mem,
                base,
                ox,
                oy,
                j,
                i,
                c,
            );
        assert(sprite_prefix_cell(mem, base, ox, oy, j_lim, 8, c));
    }
}

/// The pixels visited before row `n`, column 0 are exactly the cells of the
/// whole `n`-row sprite pattern.
proof fn lemma_prefix_complete(mem: Seq<u8>, base: int, ox: int, oy: int, n: int, c: int)
    requires
        0 <= n,
        0 <= c < 2048,
    ensures
        sprite_prefix_cell(mem, base, ox, oy, n, 0, c) == sprite_pattern(mem, base, ox, oy, n)[c],
{
    if sprite_prefix_cell(mem, base, ox, oy, n, 0, c) {
        let (j, i): (int, int) = choose|j: int, i: int|
            0 <= j && (j < n || (j == n && i < 0)) && #[trigger] sprite_hit(
                mem,
                base,
                ox,
                oy,
                j,
                i,
                c,
            );
        assert(sprite_pattern(mem, base, ox, oy, n)[c]);
    }
    if sprite_pattern(mem, base, ox, oy, n)[c] {
        let (j, i): (int, int) = choose|j: int, i: int|
            0 <= j < n && #[trigger] sprite_hit(mem, base, ox, oy, j, i, c);
        assert(sprite_prefix_cell(mem, base, ox, oy, n, 0, c));
    }
}

/// One more cell scanned either finds the first collision at that cell or
/// leaves the collision search unchanged.
proof fn lemma_collides_step(d: Seq<bool>, p: Seq<bool>, m: int)
    requires
        0 <= m,
    ensures
        collides_below(d, p, m + 1) == (collides_below(d, p, m) || (d[m] && p[m])),
{
    if collides_below(d, p, m + 1) && !(d[m] && p[m]) {
        let c = choose|c: int| #![trigger d[c], p[c]] 0 <= c < m + 1 && d[c] && p[c];
        assert(collides_below(d, p, m));
    }
}

/// Dxyn: draw the `n`-row sprite stored at the index register with its origin
/// at `(reg[x], reg[y])`.
///
/// Every set sprite pixel is composited onto the display by exclusive-or,
/// with coordinates wrapping modulo the display size. Register 0xF is set to
/// 1 exactly when some set pixel lands on a cell that was lit before the
/// draw (a collision), else 0.
pub fn draw_sprite(s: &mut State, x: u8, y: u8, n: u8)
    requires
        old(s).wf(),
        x < 16,
        y < 16,
        n < 16,
        old(s).reg_i + n <= 4096,
    ensures
        final(s).wf(),
        final(s)@ == ({
            let p = sprite_pattern(
                old(s)@.mem,
                old(s)@.index as int,
                old(s)@.regs[x as int] as int,
                old(s)@.regs[y as int] as int,
                n as int,
            );
            Chip {
                display: seq_xor(old(s)@.display, p),
                regs: old(s)@.regs.update(
                    0xF,
                    if collides(old(s)@.display, p) {
                        1u8
                    } else {
                        0u8
                    },
                ),
                ..old(s)@
            }
        }),
{
    let ox = s.reg_v[x as usize] as usize;
    let oy = s.reg_v[y as usize] as usize;
    let base = s.reg_i as usize;
    let ghost mem0 = s.mem@;

    // First pass: collect the cells that set sprite pixels land on.
    let mut pat: [bool; 2048] = [false; 2048];
    proof {
        assert forall|c: int| 0 <= c < 2048 implies !sprite_prefix_cell(
            mem0,
            base as int,
            ox as int,
            oy as int,
            0,
            0,
            c,
        ) by {
            lemma_prefix_empty(mem0, base as int, ox as int, oy as int, c);
        }
    }
    let mut dy: usize = 0;
    while dy < n as usize
        invariant
            dy <= n,
            n < 16,
            ox < 256,
            oy < 256,
            base + n <= 4096,
            s.mem@ == mem0,
            s.mem@.len() == 4096,
            forall|c: int|
                0 <= c < 2048 ==> (pat@[c] <==> sprite_prefix_cell(
                    mem0,
                    base as int,
                    ox as int,
                    oy as int,
                    dy as int,
                    0,
                    c,
                )),
        decreases n as usize - dy,
    {
        let bits = u8_to_bits(s.mem[base + dy]);
        let mut dx: usize = 0;
        while dx < 8
            invariant
                dx <= 8,
                dy < n,
                n < 16,
                ox < 256,
                oy < 256,
                base + n <= 4096,
                s.mem@ == mem0,
                s.mem@.len() == 4096,
                forall|i: int| 0 <= i < 8 ==> bits@[i] == byte_bit(mem0[base + dy], i),
                forall|c: int|
                    0 <= c < 2048 ==> (pat@[c] <==> sprite_prefix_cell(
                        mem0,
                        base as int,
                        ox as int,
                        oy as int,
                        dy as int,
                        dx as int,
                        c,
                    )),
            decreases 8 - dx,
        {
            let ghost pat_before = pat@;
            if bits[dx] {
                let cx = (ox + dx) % 64;
                let cy = (oy + dy) % 32;
                let cell = cx + 64 * cy;
                pat[cell] = true;
                proof {
                    assert(cell == cell_of(ox + dx, oy + dy));
                    assert(sprite_hit(
                        mem0,
                        base as int,
                        ox as int,
                        oy as int,
                        dy as int,
                        dx as int,
                        cell as int,
                    ));
                }
            }
            proof {
                assert forall|c: int| 0 <= c < 2048 implies (pat@[c] <==> sprite_prefix_cell(
                    mem0,
                    base as int,
                    ox as int,
                    oy as int,
                    dy as int,
                    dx as int + 1,
                    c,
                )) by {
                    lemma_prefix_step(
                        mem0,
                        base as int,
                        ox as int,
                        oy as int,
                        dy as int,
                        dx as int,
                        c,
                    );
                    if !byte_bit(mem0[base + dy], dx as int) {
                        assert(!sprite_hit(
                            mem0,
                            base as int,
                            ox as int,
                            oy as int,
                            dy as int,
                            dx as int,
                            c,
                        ));
                    } else {
                        let cell = cell_of(ox + dx, oy + dy);
                        if c != cell {
                            assert(!sprite_hit(
                                mem0,
                                base as int,
                                ox as int,
                                oy as int,
                                dy as int,
                                dx as int,
                                c,
                            ));
                            assert(pat@[c] == pat_before[c]);
                        }
                    }
                }
            }
            dx = dx + 1;
        }
        proof {
            assert forall|c: int| 0 <= c < 2048 implies (pat@[c] <==> sprite_prefix_cell(
                mem0,
                base as int,
                ox as int,
                oy as int,
                dy as int + 1,
                0,
                c,
            )) by {
                lemma_prefix_row(mem0, base as int, ox as int, oy as int, dy as int, c);
            }
        }
        dy = dy + 1;
    }
    let ghost p = sprite_pattern(mem0, base as int, ox as int, oy as int, n as int);
    proof {
        assert forall|c: int| 0 <= c < 2048 implies (pat@[c] <==> p[c]) by {
            lemma_prefix_complete(mem0, base as int, ox as int, oy as int, n as int, c);
        }
        assert(pat@ =~= p);
    }

    // Second pass: composite the pattern onto the display by exclusive-or,
    // flagging a collision when a set pattern cell was already lit.
    s.reg_v[0xF] = 0;
    let ghost s1 = *s;
    let ghost d0 = s.display@;
    let mut c: usize = 0;
    while c < 2048
        invariant
            c <= 2048,
            pat@ == p,
            s.mem == s1.mem,
            s.reg_i == s1.reg_i,
            s.sound == s1.sound,
            s.delay == s1.delay,
            s.pc == s1.pc,
            s.stack == s1.stack,
            s.sp == s1.sp,
            s.reg_v@.len() == 16,
            s.display@.len() == 2048,
            d0 == s1.display@,
            d0.len() == 2048,
            forall|k: int| 0 <= k < c ==> s.display@[k] == (d0[k] != p[k]),
            forall|k: int| c <= k < 2048 ==> s.display@[k] == d0[k],
            s.reg_v@ == (if collides_below(d0, p, c as int) {
                s1.reg_v@.update(0xF, 1u8)
            } else {
                s1.reg_v@
            }),
        decreases 2048 - c,
    {
        if pat[c] {
            if s.display[c] {
                s.reg_v[0xF] = 1;
            }
            let cur = s.display[c];
            s.display[c] = !cur;
        }
        proof {
            lemma_collides_step(d0, p, c as int);
            if collides_below(d0, p, c as int) {
                assert(s1.reg_v@.update(0xF, 1u8).update(0xF, 1u8) =~= s1.reg_v@.update(0xF, 1u8));
            }
        }
        c = c + 1;
    }
    proof {
        assert(s@.display =~= seq_xor(old(s)@.display, p));
        assert(s1.reg_v@ =~= old(s)@.regs.update(0xF, 0u8));
        assert(collides(old(s)@.display, p) == collides_below(d0, p, 2048));
        if collides(old(s)@.display, p) {
            assert(s@.regs =~= old(s)@.regs.update(0xF, 1u8));
        } else {
            assert(s@.regs =~= old(s)@.regs.update(0xF, 0u8));
        }
    }
}

/// Relies on `rand::random::<u8>()`: a byte drawn uniformly from a
/// thread-local generator. Nothing is assumed of the value.
#[verifier::external_body]
pub(crate) fn random_byte() -> u8 {
    rand::random()
}

/// The masking step of Cxkk: store the already-drawn byte `r`, masked with
/// `kk`, into `reg[x]`.
pub fn apply_random(s: &mut State, x: u8, kk: u8, r: u8)
    requires
        old(s).wf(),
        x < 16,
    ensures
        final(s).wf(),
        final(s)@ == (Chip { regs: old(s)@.regs.update(x as int, r & kk), ..old(s)@ }),
{
    s.reg_v[x as usize] = r & kk;
}

/// Cxkk: set `reg[x]` to a random byte masked with `kk`.
///
/// The drawn byte is not deterministic, so the contract promises only that
/// some byte `r` was drawn and `reg[x]` became `r & kk`, everything else
/// unchanged.
pub fn random(s: &mut State, x: u8, kk: u8)
    requires
        old(s).wf(),
        x < 16,
    ensures
        final(s).wf(),
        exists|r: u8|
            final(s)@ == (Chip {
                regs: #[trigger] old(s)@.regs.update(x as int, r & kk),
                ..old(s)@
            }),
{
    let r = random_byte();
    apply_random(s, x, kk, r);
}

/// Ex9E: skip the next instruction if the key with the value of `reg[x]` is
/// pressed.
pub fn skip_if_pressed(s: &mut State, inp: Input, x: u8)
    requires
        old(s).wf(),
        x < 16,
        old(s)@.regs[x as int] < 16,
        old(s).pc + 2 <= u16::MAX,
    ensures
        final(s).wf(),
        final(s)@ == (if inp@[old(s)@.regs[x as int] as int] {
            Chip { pc: (old(s)@.pc + 2) as u16, ..old(s)@ }
        } else {
            old(s)@
        }),
{
    let val = s.reg_v[x as usize];
    if inp[val as usize] {
        s.pc = s.pc + 2;
    }
}

/// ExA1: skip the next instruction if the key with the value of `reg[x]` is
/// not pressed.
pub fn skip_if_unpressed(s: &mut State, inp: Input, x: u8)
    requires
        old(s).wf(),
        x < 16,
        old(s)@.regs[x as int] < 16,
        old(s).pc + 2 <= u16::MAX,
    ensures
        final(s).wf(),
        final(s)@ == (if !inp@[old(s)@.regs[x as int] as int] {
            Chip { pc: (old(s)@.pc + 2) as u16, ..old(s)@ }
        } else {
            old(s)@
        }),
{
    let val = s.reg_v[x as usize];
    if !inp[val as usize] {
        s.pc = s.pc + 2;
    }
}

/// Fx0A: block until a key is pressed.
///
/// If any key is pressed, the highest pressed index is stored in `reg[x]` and
/// execution proceeds normally. If none is pressed, the program counter is
/// rewound by 2, undoing the fetch stage's advance, so the same instruction
/// is fetched again on the next step; the timers are not compensated, keeping
/// the fixed tick cadence even while blocked.
pub fn block_input(s: &mut State, inp: Input, x: u8)
    requires
        old(s).wf(),
        x < 16,
        old(s).pc >= 2,
    ensures
        final(s).wf(),
        final(s)@ == (if last_pressed_below(inp@, 16) >= 0 {
            Chip {
                regs: old(s)@.regs.update(x as int, last_pressed_below(inp@, 16) as u8),
                ..old(s)@
            }
        } else {
            Chip { pc: (old(s)@.pc - 2) as u16, ..old(s)@ }
        }),
{
    let mut found = false;
    let mut key: u8 = 0;
    let mut i: usize = 0;
    while i < 16
        invariant
            i <= 16,
            found == (last_pressed_below(inp@, i as int) >= 0),
            found ==> key == last_pressed_below(inp@, i as int),
        decreases 16 - i,
    {
        if inp[i] {
            found = true;
            key = i as u8;
        }
        i = i + 1;
    }
    if found {
        s.reg_v[x as usize] = key;
    } else {
        s.pc = s.pc - 2;
    }
}

/// Fx29: point the index register at the five-byte font glyph for the value
/// of `reg[x]`; glyph `g` starts at address `g * 5`.
pub fn sprite_location(s: &mut State, x: u8)
    requires
        old(s).wf(),
        x < 16,
    ensures
        final(s).wf(),
        final(s)@ == (Chip { index: (old(s)@.regs[x as int] * 5) as u16, ..old(s)@ }),
{
    s.reg_i = s.reg_v[x as usize] as u16 * 5;
}

/// Fx33: store the binary-coded-decimal digits of `reg[x]` at the index
/// register: hundreds at `mem[i]`, tens at `mem[i + 1]`, ones at `mem[i + 2]`.
pub fn store_bcd(s: &mut State, x: u8)
    requires
        old(s).wf(),
        x < 16,
        old(s).reg_i + 3 <= 4096,
    ensures
        final(s).wf(),
        final(s)@ == (Chip {
            mem: old(s)@.mem.update(old(s)@.index as int, old(s)@.regs[x as int] / 100).update(
                old(s)@.index + 1,
                (old(s)@.regs[x as int] % 100) / 10,
            ).update(old(s)@.index + 2, old(s)@.regs[x as int] % 10),
            ..old(s)@
        }),
{
    let i = s.reg_i as usize;
    let digits = bcd(s.reg_v[x as usize]);
    s.mem[i] = digits[0];
    s.mem[i + 1] = digits[1];
    s.mem[i + 2] = digits[2];
}

/// Fx55: copy registers 0 through `x`, inclusive, into memory starting at the
/// index register.
pub fn copy_registers(s: &mut State, x: u8)
    requires
        old(s).wf(),
        x < 16,
        old(s).reg_i + x + 1 <= 4096,
    ensures
        final(s).wf(),
        final(s)@ == (Chip {
            mem: Seq::new(
                4096,
                |k: int|
                    if old(s)@.index <= k <= old(s)@.index + x {
                        old(s)@.regs[k - old(s)@.index]
                    } else {
                        old(s)@.mem[k]
                    },
            ),
            ..old(s)@
        }),
{
    let base = s.reg_i as usize;
    let count = x as usize + 1;
    let ghost s0 = s;
    let mut j: usize = 0;
    while j < count
        invariant
            j <= count,
            count <= 16,
            base + count <= 4096,
            s.reg_v == s0.reg_v,
            s.reg_i == s0.reg_i,
            s.sound == s0.sound,
            s.delay == s0.delay,
            s.pc == s0.pc,
            s.stack == s0.stack,
            s.sp == s0.sp,
            s.display == s0.display,
            s.mem@.len() == 4096,
            forall|k: int| base <= k < base + j ==> s.mem@[k] == s0.reg_v@[k - base],
            forall|k: int| 0 <= k < 4096 && !(base <= k < base + j) ==> s.mem@[k] == s0.mem@[k],
        decreases count - j,
    {
        s.mem[base + j] = s.reg_v[j];
        j = j + 1;
    }
    proof {
        assert(s@.mem =~= Seq::new(
            4096,
            |k: int|
                if old(s)@.index <= k <= old(s)@.index + x {
                    old(s)@.regs[k - old(s)@.index]
                } else {
                    old(s)@.mem[k]
                },
        ));
    }
}

/// Fx65: load registers 0 through `x`, inclusive, from memory starting at the
/// index register.
pub fn load_registers(s: &mut State, x: u8)
    requires
        old(s).wf(),
        x < 16,
        old(s).reg_i + x + 1 <= 4096,
    ensures
        final(s).wf(),
        final(s)@ == (Chip {
            regs: Seq::new(
                16,
                |k: int|
                    if k <= x {
                        old(s)@.mem[old(s)@.index + k]
                    } else {
                        old(s)@.regs[k]
                    },
            ),
            ..old(s)@
        }),
{
    let base = s.reg_i as usize;
    let count = x as usize + 1;
    let ghost s0 = s;
    let mut j: usize = 0;
    while j < count
        invariant
            j <= count,
            count <= 16,
            base + count <= 4096,
            s.mem == s0.mem,
            s.reg_i == s0.reg_i,
            s.sound == s0.sound,
            s.delay == s0.delay,
            s.pc == s0.pc,
            s.stack == s0.stack,
            s.sp == s0.sp,
            s.display == s0.display,
            s.reg_v@.len() == 16,
            forall|k: int| 0 <= k < j ==> s.reg_v@[k] == s0.mem@[base + k],
            forall|k: int| j <= k < 16 ==> s.reg_v@[k] == s0.reg_v@[k],
        decreases count - j,
    {
        s.reg_v[j] = s.mem[base + j];
        j = j + 1;
    }
    proof {
        assert(s@.regs =~= Seq::new(
            16,
            |k: int|
                if k <= x {
                    old(s)@.mem[old(s)@.index + k]
                } else {
                    old(s)@.regs[k]
                },
        ));
    }
}

} // verus!

//! The fetch/decode/execute cycle.
//!
//! `spec_step` is the complete mathematical description of one tick of the
//! machine: fetch the two bytes at the program counter, advance the counter,
//! tick both timers, and apply the decoded instruction's transition, or
//! report the fatal condition met. A step that fails leaves the machine
//! exactly as it was: instruction semantics are all-or-nothing per step.

use crate::decode::{decode, inst_wf, lemma_decode_wf, spec_decode, Instruction};
use crate::error::StepError;
use crate::model::{
    collides, last_pressed_below, sat_dec, seq_xor, sprite_pattern, Chip,
};
use crate::opcodes::{
    apply_random, block_input, call, clear_display, copy_registers, draw_sprite, load_registers,
    overflowing_add, random_byte, ret, shift_left, shift_right, skip_if_equal, skip_if_not_equal,
    skip_if_pressed, skip_if_unpressed, skip_reg_equal, skip_reg_not_equal, sprite_location,
    store_bcd, subtract, subtract_reverse,
};
use crate::state::{Input, State};
use vstd::prelude::*;

verus! {

/// The state after applying instruction `inst` to `t`, where `t` already has
/// the program counter advanced past the instruction and the timers ticked,
/// `keys` is this tick's key snapshot and `r` the byte a random draw yields.
pub open spec fn spec_apply(t: Chip, inst: Instruction, keys: Seq<bool>, r: u8) -> Chip {
    match inst {
        Instruction::ClearScreen => Chip { display: Seq::new(2048, |i: int| false), ..t },
        Instruction::Return => Chip { sp: t.sp - 1, pc: t.stack[t.sp - 1], ..t },
        Instruction::Jump(nnn) => Chip { pc: nnn, ..t },
        Instruction::Call(nnn) => Chip {
            stack: t.stack.update(t.sp, t.pc),
            sp: t.sp + 1,
            pc: nnn,
            ..t
        },
        Instruction::SkipEqImm(x, kk) => if t.regs[x as int] == kk {
            Chip { pc: (t.pc + 2) as u16, ..t }
        } else {
            t
        },
        Instruction::SkipNeImm(x, kk) => if t.regs[x as int] != kk {
            Chip { pc: (t.pc + 2) as u16, ..t }
        } else {
            t
        },
        Instruction::SkipEqReg(x, y) => if t.regs[x as int] == t.regs[y as int] {
            Chip { pc: (t.pc + 2) as u16, ..t }
        } else {
            t
        },
        Instruction::LoadImm(x, kk) => Chip { regs: t.regs.update(x as int, kk), ..t },
        Instruction::AddImm(x, kk) => Chip {
            regs: t.regs.update(x as int, ((t.regs[x as int] + kk) % 256) as u8),
            ..t
        },
        Instruction::Assign(x, y) => Chip { regs: t.regs.update(x as int, t.regs[y as int]), ..t },
        Instruction::OrReg(x, y) => Chip {
            regs: t.regs.update(x as int, t.regs[x as int] | t.regs[y as int]),
            ..t
        },
        Instruction::AndReg(x, y) => Chip {
            regs: t.regs.update(x as int, t.regs[x as int] & t.regs[y as int]),
            ..t
        },
        Instruction::XorReg(x, y) => Chip {
            regs: t.regs.update(x as int, t.regs[x as int] ^ t.regs[y as int]),
            ..t
        },
        Instruction::AddReg(x, y) => Chip {
            regs: t.regs.update(
                x as int,
                ((t.regs[x as int] + t.regs[y as int]) % 256) as u8,
            ).update(
                0xF,
                if t.regs[x as int] + t.regs[y as int] > 255 {
                    1u8
                } else {
                    0u8
                },
            ),
            ..t
        },
        Instruction::SubReg(x, y) => Chip {
            regs: t.regs.update(
                x as int,
                ((t.regs[x as int] - t.regs[y as int]) % 256) as u8,
            ).update(
                0xF,
                if t.regs[x as int] >= t.regs[y as int] {
                    1u8
                } else {
                    0u8
                },
            ),
            ..t
        },
        Instruction::ShiftRight(x) => {
            let r1 = t.regs.update(0xF, t.regs[x as int] & 1);
            Chip { regs: r1.update(x as int, r1[x as int] >> 1), ..t }
        },
        Instruction::SubReverse(x, y) => Chip {
            regs: t.regs.update(
                x as int,
                ((t.regs[y as int] - t.regs[x as int]) % 256) as u8,
            ).update(
                0xF,
                if t.regs[y as int] >= t.regs[x as int] {
                    1u8
                } else {
                    0u8
                },
            ),
            ..t
        },
        Instruction::ShiftLeft(x) => {
            let r1 = t.regs.update(
                0xF,
                if t.regs[x as int] & 0x80 != 0 {
                    1u8
                } else {
                    0u8
                },
            );
            Chip { regs: r1.update(x as int, (r1[x as int] * 2 % 256) as u8), ..t }
        },
        Instruction::SkipNeReg(x, y) => if t.regs[x as int] != t.regs[y as int] {
            Chip { pc: (t.pc + 2) as u16, ..t }
        } else {
            t
        },
        Instruction::SetIndex(nnn) => Chip { index: nnn, ..t },
        Instruction::JumpPlus(nnn) => Chip { pc: ((nnn + t.regs[0]) % 0x10000) as u16, ..t },
        Instruction::Random(x, kk) => Chip { regs: t.regs.update(x as int, r & kk), ..t },
        Instruction::Draw(x, y, n) => {
            let p = sprite_pattern(
                t.mem,
                t.index as int,
                t.regs[x as int] as int,
                t.regs[y as int] as int,
                n as int,
            );
            Chip {
                display: seq_xor(t.display, p),
                regs: t.regs.update(
                    0xF,
                    if collides(t.display, p) {
                        1u8
                    } else {
                        0u8
                    },
                ),
                ..t
            }
        },
        Instruction::SkipPressed(x) => if keys[t.regs[x as int] as int] {
            Chip { pc: (t.pc + 2) as u16, ..t }
        } else {
            t
        },
        Instruction::SkipUnpressed(x) => if !keys[t.regs[x as int] as int] {
            Chip { pc: (t.pc + 2) as u16, ..t }
        } else {
            t
        },
        Instruction::ReadDelay(x) => Chip { regs: t.regs.update(x as int, t.delay), ..t },
        Instruction::WaitKey(x) => if last_pressed_below(keys, 16) >= 0 {
            Chip { regs: t.regs.update(x as int, last_pressed_below(keys, 16) as u8), ..t }
        } else {
            Chip { pc: (t.pc - 2) as u16, ..t }
        },
        Instruction::SetDelay(x) => Chip { delay: t.regs[x as int], ..t },
        Instruction::SetSound(x) => Chip { sound: t.regs[x as int], ..t },
        Instruction::AddIndex(x) => Chip {
            index: ((t.index + t.regs[x as int]) % 0x10000) as u16,
            ..t
        },
        Instruction::FontGlyph(x) => Chip { index: (t.regs[x as int] * 5) as u16, ..t },
        Instruction::StoreDigits(x) => Chip {
            mem: t.mem.update(t.index as int, t.regs[x as int] / 100).update(
                t.index + 1,
                (t.regs[x as int] % 100) / 10,
            ).update(t.index + 2, t.regs[x as int] % 10),
            ..t
        },
        Instruction::StoreRegs(x) => Chip {
            mem: Seq::new(
                4096,
                |k: int|
                    if t.index <= k <= t.index + x {
                        t.regs[k - t.index]
                    } else {
                        t.mem[k]
                    },
            ),
            ..t
        },
        Instruction::LoadRegs(x) => Chip {
            regs: Seq::new(
                16,
                |k: int|
                    if k <= x {
                        t.mem[t.index + k]
                    } else {
                        t.regs[k]
                    },
            ),
            ..t
        },
    }
}

/// The fatal condition instruction `inst` meets in state `t`, if any:
/// a return with an empty stack, a call with a full one, or a memory or
/// keypad access out of range.
pub open spec fn spec_inst_err(t: Chip, inst: Instruction) -> Option<StepError> {
    match inst {
        Instruction::Return => if t.sp < 1 {
            Some(StepError::StackUnderflow)
        } else {
            None
        },
        Instruction::Call(_) => if t.sp >= 16 {
            Some(StepError::StackOverflow)
        } else {
            None
        },
        Instruction::Draw(_, _, n) => if t.index + n > 4096 {
            Some(StepError::OutOfRange)
        } else {
            None
        },
        Instruction::SkipPressed(x) => if t.regs[x as int] >= 16 {
            Some(StepError::OutOfRange)
        } else {
            None
        },
        Instruction::SkipUnpressed(x) => if t.regs[x as int] >= 16 {
            Some(StepError::OutOfRange)
        } else {
            None
        },
        Instruction::StoreDigits(_) => if t.index + 3 > 4096 {
            Some(StepError::OutOfRange)
        } else {
            None
        },
        Instruction::StoreRegs(x) => if t.index + x + 1 > 4096 {
            Some(StepError::OutOfRange)
        } else {
            None
        },
        Instruction::LoadRegs(x) => if t.index + x + 1 > 4096 {
            Some(StepError::OutOfRange)
        } else {
            None
        },
        _ => None,
    }
}

/// One tick of the machine from state `pre`: what the machine becomes, or the
/// fatal condition that was met. `keys` is the tick's key snapshot and `r`
/// the byte a random draw yields. On an error nothing of `pre` changes.
pub open spec fn spec_step(pre: Chip, keys: Seq<bool>, r: u8) -> Result<Chip, StepError> {
    if pre.pc + 1 >= 4096 {
        Err(StepError::OutOfRange)
    } else {
        let b0 = pre.mem[pre.pc as int];
        let b1 = pre.mem[pre.pc as int + 1];
        match spec_decode(b0, b1) {
            None => Err(StepError::UnrecognizedOpcode(b0, b1)),
            Some(inst) => {
                let t = Chip {
                    pc: (pre.pc + 2) as u16,
                    delay: sat_dec(pre.delay),
                    sound: sat_dec(pre.sound),
                    ..pre
                };
                match spec_inst_err(t, inst) {
                    Some(e) => Err(e),
                    None => Ok(spec_apply(t, inst, keys, r)),
                }
            },
        }
    }
}

/// How one executed step relates the machine state before it (`pre`), the
/// state after it (`post`) and its result: on success `post` is the stepped
/// state, on an error the state is unchanged and the error is reported.
pub open spec fn step_matches(
    pre: Chip,
    post: Chip,
    keys: Seq<bool>,
    r: u8,
    res: Result<(), StepError>,
) -> bool {
    match spec_step(pre, keys, r) {
        Ok(c) => res is Ok && post == c,
        Err(e) => res == Err::<(), StepError>(e) && post == pre,
    }
}

/// The key snapshot in which no key is pressed.
pub open spec fn no_keys() -> Seq<bool> {
    Seq::new(16, |i: int| false)
}

/// The fatal conditions depend only on the stack pointer, index register and
/// registers, which the fetch stage does not touch.
proof fn lemma_inst_err_frame(a: Chip, b: Chip, inst: Instruction)
    requires
        a.sp == b.sp,
        a.index == b.index,
        a.regs == b.regs,
    ensures
        spec_inst_err(a, inst) == spec_inst_err(b, inst),
{
}

impl State {
    /// The fatal condition `inst` would meet in the current state, if any,
    /// checked before anything is mutated.
    fn check_inst(&self, inst: Instruction) -> (e: Option<StepError>)
        requires
            self.wf(),
            inst_wf(inst),
        ensures
            e == spec_inst_err(self@, inst),
    {
        match inst {
            Instruction::Return => if self.sp < 1 {
                Some(StepError::StackUnderflow)
            } else {
                None
            },
            Instruction::Call(_) => if self.sp >= 16 {
                Some(StepError::StackOverflow)
            } else {
                None
            },
            Instruction::Draw(_, _, n) => if self.reg_i as usize + n as usize > 4096 {
                Some(StepError::OutOfRange)
            } else {
                None
            },
            Instruction::SkipPressed(x) => if self.reg_v[x as usize] >= 16 {
                Some(StepError::OutOfRange)
            } else {
                None
            },
            Instruction::SkipUnpressed(x) => if self.reg_v[x as usize] >= 16 {
                Some(StepError::OutOfRange)
            } else {
                None
            },
            Instruction::StoreDigits(_) => if self.reg_i as usize + 3 > 4096 {
                Some(StepError::OutOfRange)
            } else {
                None
            },
            Instruction::StoreRegs(x) => if self.reg_i as usize + x as usize + 1 > 4096 {
                Some(StepError::OutOfRange)
            } else {
                None
            },
            Instruction::LoadRegs(x) => if self.reg_i as usize + x as usize + 1 > 4096 {
                Some(StepError::OutOfRange)
            } else {
                None
            },
            _ => None,
        }
    }

    /// Apply the transition of `inst` to a state whose program counter has
    /// already been advanced and whose timers have already been ticked.
    fn apply_inst(&mut self, inst: Instruction, input: Input, r: u8)
        requires
            old(self).wf(),
            inst_wf(inst),
            spec_inst_err(old(self)@, inst) is None,
            2 <= old(self).pc <= 4096,
        ensures
            final(self).wf(),
            final(self)@ == spec_apply(old(self)@, inst, input@, r),
    {
        match inst {
            Instruction::ClearScreen => clear_display(self),
            Instruction::Return => ret(self),
            Instruction::Jump(nnn) => {
                self.pc = nnn;
            },
            Instruction::Call(nnn) => call(self, nnn),
            Instruction::SkipEqImm(x, kk) => skip_if_equal(self, x, kk),
            Instruction::SkipNeImm(x, kk) => skip_if_not_equal(self, x, kk),
            Instruction::SkipEqReg(x, y) => skip_reg_equal(self, x, y),
            Instruction::LoadImm(x, kk) => {
                self.reg_v[x as usize] = kk;
            },
            Instruction::AddImm(x, kk) => {
                let sum = self.reg_v[x as usize] as u16 + kk as u16;
                self.reg_v[x as usize] = (sum % 256) as u8;
            },
            Instruction::Assign(x, y) => {
                self.reg_v[x as usize] = self.reg_v[y as usize];
            },
            Instruction::OrReg(x, y) => {
                self.reg_v[x as usize] = self.reg_v[x as usize] | self.reg_v[y as usize];
            },
            Instruction::AndReg(x, y) => {
                self.reg_v[x as usize] = self.reg_v[x as usize] & self.reg_v[y as usize];
            },
            Instruction::XorReg(x, y) => {
                self.reg_v[x as usize] = self.reg_v[x as usize] ^ self.reg_v[y as usize];
            },
            Instruction::AddReg(x, y) => overflowing_add(self, x, y),
            Instruction::SubReg(x, y) => subtract(self, x, y),
            Instruction::ShiftRight(x) => shift_right(self, x),
            Instruction::SubReverse(x, y) => subtract_reverse(self, x, y),
            Instruction::ShiftLeft(x) => shift_left(self, x),
            Instruction::SkipNeReg(x, y) => skip_reg_not_equal(self, x, y),
            Instruction::SetIndex(nnn) => {
                self.reg_i = nnn;
            },
            Instruction::JumpPlus(nnn) => {
                self.pc = nnn + self.reg_v[0] as u16;
            },
            Instruction::Random(x, kk) => apply_random(self, x, kk, r),
            Instruction::Draw(x, y, n) => draw_sprite(self, x, y, n),
            Instruction::SkipPressed(x) => skip_if_pressed(self, input, x),
            Instruction::SkipUnpressed(x) => skip_if_unpressed(self, input, x),
            Instruction::ReadDelay(x) => {
                self.reg_v[x as usize] = self.delay;
            },
            Instruction::WaitKey(x) => block_input(self, input, x),
            Instruction::SetDelay(x) => {
                self.delay = self.reg_v[x as usize];
            },
            Instruction::SetSound(x) => {
                self.sound = self.reg_v[x as usize];
            },
            Instruction::AddIndex(x) => {
                let sum = self.reg_i as u32 + self.reg_v[x as usize] as u32;
                self.reg_i = (sum % 0x10000) as u16;
            },
            Instruction::FontGlyph(x) => sprite_location(self, x),
            Instruction::StoreDigits(x) => store_bcd(self, x),
            Instruction::StoreRegs(x) => copy_registers(self, x),
            Instruction::LoadRegs(x) => load_registers(self, x),
        }
    }

    /// Execute exactly one instruction with the key snapshot `input`, using
    /// `r` as the byte a random draw yields.
    ///
    /// Returns `Ok` exactly when the step meets no fatal condition; on an
    /// error the machine state is left exactly as it was.
    pub fn step_with_random(&mut self, input: Input, r: u8) -> (res: Result<(), StepError>)
        requires
            old(self).wf(),
        ensures
            final(self).wf(),
            step_matches(old(self)@, final(self)@, input@, r, res),
    {
        let pc = self.pc as usize;
        if pc + 1 >= 4096 {
            return Err(StepError::OutOfRange);
        }
        let b0 = self.mem[pc];
        let b1 = self.mem[pc + 1];
        let inst = match decode(b0, b1) {
            None => {
                return Err(StepError::UnrecognizedOpcode(b0, b1));
            },
            Some(i) => i,
        };
        proof {
            lemma_decode_wf(b0, b1);
        }
        let ghost t = Chip {
            pc: (self.pc + 2) as u16,
            delay: sat_dec(self.delay),
            sound: sat_dec(self.sound),
            ..self@
        };
        proof {
            lemma_inst_err_frame(self@, t, inst);
        }
        match self.check_inst(inst) {
            Some(e) => {
                return Err(e);
            },
            None => {},
        }
        self.pc = self.pc + 2;
        if self.delay > 0 {
            self.delay = self.delay - 1;
        }
        if self.sound > 0 {
            self.sound = self.sound - 1;
        }
        proof {
            assert(self@ == t);
        }
        self.apply_inst(inst, input, r);
        Ok(())
    }

    /// Peek whether the next instruction to execute is a random draw (Cxkk),
    /// the one instruction that consumes a random byte.
    fn next_is_random(&self) -> bool
        requires
            self.wf(),
    {
        let pc = self.pc as usize;
        pc + 1 < 4096 && (self.mem[pc] >> 4) == 0xC
    }

    /// Step forward one instruction in the logical simulation, given the keys
    /// currently being pressed; to assume none are, see `State::step_forward`.
    ///
    /// One call is one simulated tick: both timers decrement (saturating at
    /// zero) and exactly one instruction executes. A random draw consumes one
    /// byte of the random source; the contract promises what holds whatever
    /// byte came back. Returns `Ok` exactly when no fatal condition is met;
    /// on an error the machine state is left exactly as it was.
    pub fn step(&mut self, input: Input) -> (res: Result<(), StepError>)
        requires
            old(self).wf(),
        ensures
            final(self).wf(),
            exists|r: u8| #[trigger] step_matches(old(self)@, final(self)@, input@, r, res),
    {
        let r = if self.next_is_random() {
            random_byte()
        } else {
            0
        };
        self.step_with_random(input, r)
    }

    /// Step forward one instruction with no key pressed.
    pub fn step_forward(&mut self) -> (res: Result<(), StepError>)
        requires
            old(self).wf(),
        ensures
            final(self).wf(),
            exists|r: u8| #[trigger] step_matches(old(self)@, final(self)@, no_keys(), r, res),
    {
        let keys: Input = [false; 16];
        proof {
            assert(keys@ =~= no_keys());
        }
        self.step(keys)
    }
}

} // verus!

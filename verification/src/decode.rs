//! Decoding two instruction bytes into an explicit instruction variant.
//!
//! Decode and execute are kept separate: `decode` turns bytes into an
//! `Instruction`, and the engine applies the matching state transition.

use vstd::prelude::*;

verus! {

/// Combine three nibbles into a 12-bit address, high nibble first.
pub open spec fn spec_addr(n1: u8, n2: u8, n3: u8) -> u16 {
    (((n1 as u16) << 8) | ((n2 as u16) << 4)) | (n3 as u16)
}

/// A 12-bit address built from three nibbles stays below 0x1000.
pub proof fn lemma_addr_bound(n1: u8, n2: u8, n3: u8)
    by (bit_vector)
    requires
        n1 < 16,
    ensures
        spec_addr(n1, n2, n3) < 0x1000,
{
}

/// Combine three nibbles into an address.
pub fn addr(n1: u8, n2: u8, n3: u8) -> (r: u16)
    ensures
        r == spec_addr(n1, n2, n3),
        n1 < 16 ==> r < 0x1000,
{
    proof {
        if n1 < 16 {
            lemma_addr_bound(n1, n2, n3);
        }
    }
    (((n1 as u16) << 8) | ((n2 as u16) << 4)) | (n3 as u16)
}

/// Combine two nibbles into a byte, high nibble first.
pub open spec fn spec_byte(k1: u8, k2: u8) -> u8 {
    (k1 << 4) | k2
}

/// Combine two nibbles into a byte.
pub fn byte(k1: u8, k2: u8) -> (r: u8)
    ensures
        r == spec_byte(k1, k2),
{
    (k1 << 4) | k2
}

/// One decoded CHIP-8 instruction. Register operands are nibbles (always
/// below 16), `nnn` operands are 12-bit addresses, `kk` operands are bytes.
#[derive(Clone, Copy, Debug, PartialEq, Eq, Structural)]
pub enum Instruction {
    /// 00E0: clear the display.
    ClearScreen,
    /// 00EE: return from a subroutine.
    Return,
    /// 1nnn: jump to `nnn`.
    Jump(u16),
    /// 2nnn: call the subroutine at `nnn`.
    Call(u16),
    /// 3xkk: skip the next instruction if `reg[x] == kk`.
    SkipEqImm(u8, u8),
    /// 4xkk: skip the next instruction if `reg[x] != kk`.
    SkipNeImm(u8, u8),
    /// 5xy0: skip the next instruction if `reg[x] == reg[y]`.
    SkipEqReg(u8, u8),
    /// 6xkk: load `kk` into `reg[x]`.
    LoadImm(u8, u8),
    /// 7xkk: add `kk` to `reg[x]`, wrapping, with no flag.
    AddImm(u8, u8),
    /// 8xy0: copy `reg[y]` into `reg[x]`.
    Assign(u8, u8),
    /// 8xy1: bitwise or of `reg[y]` into `reg[x]`.
    OrReg(u8, u8),
    /// 8xy2: bitwise and of `reg[y]` into `reg[x]`.
    AndReg(u8, u8),
    /// 8xy3: bitwise exclusive-or of `reg[y]` into `reg[x]`.
    XorReg(u8, u8),
    /// 8xy4: add `reg[y]` to `reg[x]`; register 0xF gets the carry.
    AddReg(u8, u8),
    /// 8xy5: subtract `reg[y]` from `reg[x]`; register 0xF gets NOT borrow.
    SubReg(u8, u8),
    /// 8xy6: shift `reg[x]` right by one; register 0xF gets the shifted-out bit.
    ShiftRight(u8),
    /// 8xy7: store `reg[y] - reg[x]` into `reg[x]`; register 0xF gets NOT borrow.
    SubReverse(u8, u8),
    /// 8xyE: shift `reg[x]` left by one; register 0xF gets the shifted-out bit.
    ShiftLeft(u8),
    /// 9xy0: skip the next instruction if `reg[x] != reg[y]`.
    SkipNeReg(u8, u8),
    /// Annn: load `nnn` into the index register.
    SetIndex(u16),
    /// Bnnn: jump to `nnn + reg[0]`.
    JumpPlus(u16),
    /// Cxkk: store a random byte masked with `kk` into `reg[x]`.
    Random(u8, u8),
    /// Dxyn: draw the `n`-row sprite at the index register at `(reg[x], reg[y])`.
    Draw(u8, u8, u8),
    /// Ex9E: skip the next instruction if key `reg[x]` is pressed.
    SkipPressed(u8),
    /// ExA1: skip the next instruction if key `reg[x]` is not pressed.
    SkipUnpressed(u8),
    /// Fx07: copy the delay timer into `reg[x]`.
    ReadDelay(u8),
    /// Fx0A: block until a key is pressed, storing its index in `reg[x]`.
    WaitKey(u8),
    /// Fx15: copy `reg[x]` into the delay timer.
    SetDelay(u8),
    /// Fx18: copy `reg[x]` into the sound timer.
    SetSound(u8),
    /// Fx1E: add `reg[x]` to the index register, wrapping, with no flag.
    AddIndex(u8),
    /// Fx29: point the index register at the font glyph for `reg[x]`.
    FontGlyph(u8),
    /// Fx33: store the three decimal digits of `reg[x]` at the index register.
    StoreDigits(u8),
    /// Fx55: copy registers 0 through `x` to memory at the index register.
    StoreRegs(u8),
    /// Fx65: load registers 0 through `x` from memory at the index register.
    LoadRegs(u8),
}

/// What the two bytes `b0 b1` decode to, or `None` when they match no
/// instruction.
pub open spec fn spec_decode(b0: u8, b1: u8) -> Option<Instruction> {
    let n0 = b0 >> 4;
    let x = b0 & 0x0F;
    let n2 = b1 >> 4;
    let n3 = b1 & 0x0F;
    let nnn = spec_addr(x, n2, n3);
    if b0 == 0x00 && b1 == 0xE0 {
        Some(Instruction::ClearScreen)
    } else if b0 == 0x00 && b1 == 0xEE {
        Some(Instruction::Return)
    } else if n0 == 0x1 {
        Some(Instruction::Jump(nnn))
    } else if n0 == 0x2 {
        Some(Instruction::Call(nnn))
    } else if n0 == 0x3 {
        Some(Instruction::SkipEqImm(x, b1))
    } else if n0 == 0x4 {
        Some(Instruction::SkipNeImm(x, b1))
    } else if n0 == 0x5 && n3 == 0x0 {
        Some(Instruction::SkipEqReg(x, n2))
    } else if n0 == 0x6 {
        Some(Instruction::LoadImm(x, b1))
    } else if n0 == 0x7 {
        Some(Instruction::AddImm(x, b1))
    } else if n0 == 0x8 && n3 == 0x0 {
        Some(Instruction::Assign(x, n2))
    } else if n0 == 0x8 && n3 == 0x1 {
        Some(Instruction::OrReg(x, n2))
    } else if n0 == 0x8 && n3 == 0x2 {
        Some(Instruction::AndReg(x, n2))
    } else if n0 == 0x8 && n3 == 0x3 {
        Some(Instruction::XorReg(x, n2))
    } else if n0 == 0x8 && n3 == 0x4 {
        Some(Instruction::AddReg(x, n2))
    } else if n0 == 0x8 && n3 == 0x5 {
        Some(Instruction::SubReg(x, n2))
    } else if n0 == 0x8 && n3 == 0x6 {
        Some(Instruction::ShiftRight(x))
    } else if n0 == 0x8 && n3 == 0x7 {
        Some(Instruction::SubReverse(x, n2))
    } else if n0 == 0x8 && n3 == 0xE {
        Some(Instruction::ShiftLeft(x))
    } else if n0 == 0x9 && n3 == 0x0 {
        Some(Instruction::SkipNeReg(x, n2))
    } else if n0 == 0xA {
        Some(Instruction::SetIndex(nnn))
    } else if n0 == 0xB {
        Some(Instruction::JumpPlus(nnn))
    } else if n0 == 0xC {
        Some(Instruction::Random(x, b1))
    } else if n0 == 0xD {
        Some(Instruction::Draw(x, n2, n3))
    } else if n0 == 0xE && b1 == 0x9E {
        Some(Instruction::SkipPressed(x))
    } else if n0 == 0xE && b1 == 0xA1 {
        Some(Instruction::SkipUnpressed(x))
    } else if n0 == 0xF && b1 == 0x07 {
        Some(Instruction::ReadDelay(x))
    } else if n0 == 0xF && b1 == 0x0A {
        Some(Instruction::WaitKey(x))
    } else if n0 == 0xF && b1 == 0x15 {
        Some(Instruction::SetDelay(x))
    } else if n0 == 0xF && b1 == 0x18 {
        Some(Instruction::SetSound(x))
    } else if n0 == 0xF && b1 == 0x1E {
        Some(Instruction::AddIndex(x))
    } else if n0 == 0xF && b1 == 0x29 {
        Some(Instruction::FontGlyph(x))
    } else if n0 == 0xF && b1 == 0x33 {
        Some(Instruction::StoreDigits(x))
    } else if n0 == 0xF && b1 == 0x55 {
        Some(Instruction::StoreRegs(x))
    } else if n0 == 0xF && b1 == 0x65 {
        Some(Instruction::LoadRegs(x))
    } else {
        None
    }
}

/// The operand ranges decoding guarantees: register operands `x` and `y` and
/// row counts `n` are nibbles, address operands are 12-bit values.
pub open spec fn inst_wf(inst: Instruction) -> bool {
    match inst {
        Instruction::ClearScreen => true,
        Instruction::Return => true,
        Instruction::Jump(nnn) => nnn < 0x1000,
        Instruction::Call(nnn) => nnn < 0x1000,
        Instruction::SkipEqImm(x, _) => x < 16,
        Instruction::SkipNeImm(x, _) => x < 16,
        Instruction::SkipEqReg(x, y) => x < 16 && y < 16,
        Instruction::LoadImm(x, _) => x < 16,
        Instruction::AddImm(x, _) => x < 16,
        Instruction::Assign(x, y) => x < 16 && y < 16,
        Instruction::OrReg(x, y) => x < 16 && y < 16,
        Instruction::AndReg(x, y) => x < 16 && y < 16,
        Instruction::XorReg(x, y) => x < 16 && y < 16,
        Instruction::AddReg(x, y) => x < 16 && y < 16,
        Instruction::SubReg(x, y) => x < 16 && y < 16,
        Instruction::ShiftRight(x) => x < 16,
        Instruction::SubReverse(x, y) => x < 16 && y < 16,
        Instruction::ShiftLeft(x) => x < 16,
        Instruction::SkipNeReg(x, y) => x < 16 && y < 16,
        Instruction::SetIndex(nnn) => nnn < 0x1000,
        Instruction::JumpPlus(nnn) => nnn < 0x1000,
        Instruction::Random(x, _) => x < 16,
        Instruction::Draw(x, y, n) => x < 16 && y < 16 && n < 16,
        Instruction::SkipPressed(x) => x < 16,
        Instruction::SkipUnpressed(x) => x < 16,
        Instruction::ReadDelay(x) => x < 16,
        Instruction::WaitKey(x) => x < 16,
        Instruction::SetDelay(x) => x < 16,
        Instruction::SetSound(x) => x < 16,
        Instruction::AddIndex(x) => x < 16,
        Instruction::FontGlyph(x) => x < 16,
        Instruction::StoreDigits(x) => x < 16,
        Instruction::StoreRegs(x) => x < 16,
        Instruction::LoadRegs(x) => x < 16,
    }
}

/// Whatever two bytes decode to satisfies the operand ranges.
pub proof fn lemma_decode_wf(b0: u8, b1: u8)
    ensures
        spec_decode(b0, b1) matches Some(inst) ==> inst_wf(inst),
{
    lemma_decode_operands(b0, b1);
}

/// Every register operand of a decoded instruction is a nibble, and every
/// address operand is a 12-bit value.
pub proof fn lemma_decode_operands(b0: u8, b1: u8)
    ensures
        b0 >> 4 < 16,
        b0 & 0x0F < 16,
        b1 >> 4 < 16,
        b1 & 0x0F < 16,
        spec_addr(b0 & 0x0F, b1 >> 4, b1 & 0x0F) < 0x1000,
{
    assert(b0 >> 4 < 16 && (b0 & 0x0F) < 16 && b1 >> 4 < 16 && (b1 & 0x0F) < 16) by (bit_vector);
    lemma_addr_bound(b0 & 0x0F, b1 >> 4, b1 & 0x0F);
}

/// Split two instruction bytes into nibbles and decode them.
pub fn decode(b0: u8, b1: u8) -> (r: Option<Instruction>)
    ensures
        r == spec_decode(b0, b1),
{
    let n0 = b0 >> 4;
    let x = b0 & 0x0F;
    let n2 = b1 >> 4;
    let n3 = b1 & 0x0F;
    let nnn = addr(x, n2, n3);
    if b0 == 0x00 && b1 == 0xE0 {
        Some(Instruction::ClearScreen)
    } else if b0 == 0x00 && b1 == 0xEE {
        Some(Instruction::Return)
    } else if n0 == 0x1 {
        Some(Instruction::Jump(nnn))
    } else if n0 == 0x2 {
        Some(Instruction::Call(nnn))
    } else if n0 == 0x3 {
        Some(Instruction::SkipEqImm(x, b1))
    } else if n0 == 0x4 {
        Some(Instruction::SkipNeImm(x, b1))
    } else if n0 == 0x5 && n3 == 0x0 {
        Some(Instruction::SkipEqReg(x, n2))
    } else if n0 == 0x6 {
        Some(Instruction::LoadImm(x, b1))
    } else if n0 == 0x7 {
        Some(Instruction::AddImm(x, b1))
    } else if n0 == 0x8 && n3 == 0x0 {
        Some(Instruction::Assign(x, n2))
    } else if n0 == 0x8 && n3 == 0x1 {
        Some(Instruction::OrReg(x, n2))
    } else if n0 == 0x8 && n3 == 0x2 {
        Some(Instruction::AndReg(x, n2))
    } else if n0 == 0x8 && n3 == 0x3 {
        Some(Instruction::XorReg(x, n2))
    } else if n0 == 0x8 && n3 == 0x4 {
        Some(Instruction::AddReg(x, n2))
    } else if n0 == 0x8 && n3 == 0x5 {
        Some(Instruction::SubReg(x, n2))
    } else if n0 == 0x8 && n3 == 0x6 {
        Some(Instruction::ShiftRight(x))
    } else if n0 == 0x8 && n3 == 0x7 {
        Some(Instruction::SubReverse(x, n2))
    } else if n0 == 0x8 && n3 == 0xE {
        Some(Instruction::ShiftLeft(x))
    } else if n0 == 0x9 && n3 == 0x0 {
        Some(Instruction::SkipNeReg(x, n2))
    } else if n0 == 0xA {
        Some(Instruction::SetIndex(nnn))
    } else if n0 == 0xB {
        Some(Instruction::JumpPlus(nnn))
    } else if n0 == 0xC {
        Some(Instruction::Random(x, b1))
    } else if n0 == 0xD {
        Some(Instruction::Draw(x, n2, n3))
    } else if n0 == 0xE && b1 == 0x9E {
        Some(Instruction::SkipPressed(x))
    } else if n0 == 0xE && b1 == 0xA1 {
        Some(Instruction::SkipUnpressed(x))
    } else if n0 == 0xF && b1 == 0x07 {
        Some(Instruction::ReadDelay(x))
    } else if n0 == 0xF && b1 == 0x0A {
        Some(Instruction::WaitKey(x))
    } else if n0 == 0xF && b1 == 0x15 {
        Some(Instruction::SetDelay(x))
    } else if n0 == 0xF && b1 == 0x18 {
        Some(Instruction::SetSound(x))
    } else if n0 == 0xF && b1 == 0x1E {
        Some(Instruction::AddIndex(x))
    } else if n0 == 0xF && b1 == 0x29 {
        Some(Instruction::FontGlyph(x))
    } else if n0 == 0xF && b1 == 0x33 {
        Some(Instruction::StoreDigits(x))
    } else if n0 == 0xF && b1 == 0x55 {
        Some(Instruction::StoreRegs(x))
    } else if n0 == 0xF && b1 == 0x65 {
        Some(Instruction::LoadRegs(x))
    } else {
        None
    }
}

} // verus!

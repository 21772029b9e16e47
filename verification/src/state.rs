//! The machine state of the interpreter and its lifecycle.

use crate::model::Chip;
use vstd::prelude::*;

verus! {

/// Width of the display, in cells.
pub const WIDTH: usize = 64;

/// Height of the display, in cells.
pub const HEIGHT: usize = 32;

/// A set of flags representing which keys are pressed. The CHIP-8 keypad is a
/// hexadecimal number pad: if the 1 and B keys are pressed, the flags at
/// indexes 0x1 and 0xB are set.
pub type Input = [bool; 16];

/// The state in memory of the emulator at any given time.
#[derive(Copy, Clone)]
pub struct State {
    /// The system's 4K of RAM.
    pub mem: [u8; 4096],
    /// The system's 16 general-purpose registers.
    pub reg_v: [u8; 16],
    /// The system's single 16-bit address register.
    pub reg_i: u16,
    /// The system's sound timer.
    ///
    /// This is decremented every tick, saturating at zero; while it is
    /// non-zero the system emits a beep.
    pub sound: u8,
    /// The system's delay timer.
    ///
    /// This is decremented every tick, saturating at zero.
    pub delay: u8,
    /// The address of the next instruction.
    pub pc: u16,
    /// The program's stack, holding the return addresses of active calls.
    pub stack: [u16; 16],
    /// Index of the next free slot in the stack.
    pub sp: usize,
    /// Current contents of the screen, row-major.
    pub display: [bool; 2048],
}

impl View for State {
    type V = Chip;

    open spec fn view(&self) -> Chip {
        Chip {
            mem: self.mem@,
            regs: self.reg_v@,
            index: self.reg_i,
            sound: self.sound,
            delay: self.delay,
            pc: self.pc,
            stack: self.stack@,
            sp: self.sp as int,
            display: self.display@,
        }
    }
}

/// The fixed font: 16 glyphs for the hexadecimal digits 0 through F, five
/// bytes per glyph, preloaded at the bottom of memory.
pub open spec fn font_seq() -> Seq<u8> {
    seq![
        0xF0u8, 0x90, 0x90, 0x90, 0xF0,  // 0
        0x20, 0x60, 0x20, 0x20, 0x70,  // 1
        0xF0, 0x10, 0xF0, 0x80, 0xF0,  // 2
        0xF0, 0x10, 0xF0, 0x10, 0xF0,  // 3
        0x90, 0x90, 0xF0, 0x10, 0x10,  // 4
        0xF0, 0x80, 0xF0, 0x10, 0xF0,  // 5
        0xF0, 0x80, 0xF0, 0x90, 0xF0,  // 6
        0xF0, 0x10, 0x20, 0x40, 0x40,  // 7
        0xF0, 0x90, 0xF0, 0x90, 0xF0,  // 8
        0xF0, 0x90, 0xF0, 0x10, 0xF0,  // 9
        0xF0, 0x90, 0xF0, 0x90, 0x90,  // A
        0xE0, 0x90, 0xE0, 0x90, 0xE0,  // B
        0xF0, 0x80, 0x80, 0x80, 0xF0,  // C
        0xE0, 0x90, 0x90, 0x90, 0xE0,  // D
        0xF0, 0x80, 0xF0, 0x80, 0xF0,  // E
        0xF0, 0x80, 0xF0, 0x80, 0x80,  // F
    ]
}

/// The font as bytes.
pub fn font_data() -> (r: [u8; 80])
    ensures
        r@ == font_seq(),
{
    let r: [u8; 80] = [
        0xF0u8, 0x90, 0x90, 0x90, 0xF0,  // 0
        0x20, 0x60, 0x20, 0x20, 0x70,  // 1
        0xF0, 0x10, 0xF0, 0x80, 0xF0,  // 2
        0xF0, 0x10, 0xF0, 0x10, 0xF0,  // 3
        0x90, 0x90, 0xF0, 0x10, 0x10,  // 4
        0xF0, 0x80, 0xF0, 0x10, 0xF0,  // 5
        0xF0, 0x80, 0xF0, 0x90, 0xF0,  // 6
        0xF0, 0x10, 0x20, 0x40, 0x40,  // 7
        0xF0, 0x90, 0xF0, 0x90, 0xF0,  // 8
        0xF0, 0x90, 0xF0, 0x10, 0xF0,  // 9
        0xF0, 0x90, 0xF0, 0x90, 0x90,  // A
        0xE0, 0x90, 0xE0, 0x90, 0xE0,  // B
        0xF0, 0x80, 0x80, 0x80, 0xF0,  // C
        0xE0, 0x90, 0x90, 0x90, 0xE0,  // D
        0xF0, 0x80, 0xF0, 0x80, 0xF0,  // E
        0xF0, 0x80, 0xF0, 0x80, 0x80,  // F
    ];
    proof {
        assert(r@ =~= font_seq());
    }
    r
}

/// The abstract state a fresh machine is created with: the font at the bottom
/// of memory, the program image at 0x200 (truncated to the writable region),
/// every register, timer and stack slot zeroed, the display cleared, and the
/// program counter at 0x200.
pub open spec fn spec_new(rom: Seq<u8>) -> Chip {
    Chip {
        mem: Seq::new(
            4096,
            |i: int|
                if i < 80 {
                    font_seq()[i]
                } else if 0x200 <= i && i - 0x200 < rom.len() {
                    rom[i - 0x200]
                } else {
                    0u8
                },
        ),
        regs: Seq::new(16, |i: int| 0u8),
        index: 0,
        sound: 0,
        delay: 0,
        pc: 0x200,
        stack: Seq::new(16, |i: int| 0u16),
        sp: 0,
        display: Seq::new(2048, |i: int| false),
    }
}

/// A machine with an empty program: the font is preloaded, everything else is
/// zeroed and the program counter starts at 0x200.
impl Default for State {
    fn default() -> (s: State)
        ensures
            s.wf(),
            s@ == spec_new(Seq::<u8>::empty()),
    {
        let rom: [u8; 0] = [];
        let s = State::new(rom.as_slice());
        proof {
            assert(rom@ =~= Seq::<u8>::empty());
        }
        s
    }
}

impl State {
    pub open spec fn wf(self) -> bool {
        self@.wf()
    }

    /// Create a new emulator with the given program ROM.
    ///
    /// The ROM is loaded into memory at address 0x200, which is where CHIP-8
    /// programs start, and any bytes beyond the writable region are silently
    /// discarded. The program counter is initialised to the same location.
    pub fn new(rom: &[u8]) -> (s: State)
        ensures
            s.wf(),
            s@ == spec_new(rom@),
    {
        let mut s = State {
            mem: [0u8; 4096],
            reg_v: [0u8; 16],
            reg_i: 0,
            sound: 0,
            delay: 0,
            pc: 0x200,
            stack: [0u16; 16],
            sp: 0,
            display: [false; 2048],
        };
        let ghost s0 = s;
        let font = font_data();
        let mut i: usize = 0;
        while i < 80
            invariant
                i <= 80,
                s.reg_v == s0.reg_v,
                s.reg_i == s0.reg_i,
                s.sound == s0.sound,
                s.delay == s0.delay,
                s.pc == s0.pc,
                s.stack == s0.stack,
                s.sp == s0.sp,
                s.display == s0.display,
                s.mem@.len() == 4096,
                forall|j: int| 0 <= j < i ==> s.mem@[j] == font_seq()[j],
                forall|j: int| i <= j < 4096 ==> s.mem@[j] == 0u8,
                font@ == font_seq(),
            decreases 80 - i,
        {
            s.mem[i] = font[i];
            i = i + 1;
        }
        let count = if rom.len() < 4096 - 0x200 {
            rom.len()
        } else {
            4096 - 0x200
        };
        let mut j: usize = 0;
        while j < count
            invariant
                j <= count,
                count <= rom@.len(),
                count <= 4096 - 0x200,
                s.reg_v == s0.reg_v,
                s.reg_i == s0.reg_i,
                s.sound == s0.sound,
                s.delay == s0.delay,
                s.pc == s0.pc,
                s.stack == s0.stack,
                s.sp == s0.sp,
                s.display == s0.display,
                s.mem@.len() == 4096,
                forall|k: int| 0 <= k < 80 ==> s.mem@[k] == font_seq()[k],
                forall|k: int| 0 <= k < j ==> s.mem@[0x200 + k] == rom@[k],
                forall|k: int| 80 <= k < 4096 && !(0x200 <= k < 0x200 + j) ==> s.mem@[k] == 0u8,
            decreases count - j,
        {
            s.mem[0x200 + j] = rom[j];
            j = j + 1;
        }
        proof {
            assert(s@.mem =~= spec_new(rom@).mem);
            assert(s@.regs =~= spec_new(rom@).regs);
            assert(s@.stack =~= spec_new(rom@).stack);
            assert(s@.display =~= spec_new(rom@).display);
            assert(s@ =~= spec_new(rom@));
        }
        s
    }
}

} // verus!

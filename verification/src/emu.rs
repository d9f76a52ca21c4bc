//! The interpreter core: the machine state (memory, registers, index
//! register, program counter, call stack, timers, keypad, framebuffer), the
//! instruction decoder, and the execute step, all specified against a
//! mathematical view of the machine.

use vstd::prelude::*;

verus! {

use crate::keypad::{lowest_pressed, KeyPad};
use crate::stack::Stack;
use crate::timer::{tick_spec, timer_wf, Timer, TimerView};
use crate::MainLoopHandler;

/// Width of the framebuffer in pixels.
pub const WIDTH: usize = 64;

/// Height of the framebuffer in pixels.
pub const HEIGHT: usize = 32;

/// Number of pixels in the framebuffer.
pub const GFX_SIZE: usize = 64 * 32;

/// Size of the flat address space in bytes.
pub const MEM_SIZE: usize = 4096;

/// Capacity bound of the call stack: its depth always stays below this.
pub const STACK_CAP: usize = 64;

/// Address at which the font glyphs are written at construction.
pub const FONT_OFFSET: usize = 0x50;

/// Address at which loaded programs start and the program counter begins.
pub const START_PC: u16 = 0x200;

/// The decay rate of the timers in decrements per second.
pub const TIMER_FREQ: u32 = 60;

/// The mathematical state of the machine: everything an instruction can read
/// or write.
#[verifier::ext_equal]
pub struct MachineView {
    /// The framebuffer, row-major: pixel (col, row) at index `row * 64 + col`,
    /// 0 dark and 1 lit.
    pub gfx: Seq<u8>,
    /// The 4096-byte address space.
    pub mem: Seq<u8>,
    /// The program counter.
    pub pc: u16,
    /// The index register I.
    pub idx: u16,
    /// The call stack of return addresses, topmost last.
    pub stack: Seq<u16>,
    /// The delay timer.
    pub delay: TimerView,
    /// The sound timer.
    pub sound: TimerView,
    /// The sixteen key slots, true when pressed.
    pub keys: Seq<bool>,
    /// The sixteen general-purpose registers V0..VF.
    pub regs: Seq<u8>,
}

/// Dimensions and invariants every reachable machine state satisfies.
pub open spec fn machine_wf(s: MachineView) -> bool {
    &&& s.gfx.len() == 2048
    &&& s.mem.len() == 4096
    &&& s.regs.len() == 16
    &&& s.keys.len() == 16
    &&& s.stack.len() < 64
    &&& timer_wf(s.delay)
    &&& timer_wf(s.sound)
}

/// The two fatal faults: the call stack leaving its allowed depth range.
#[derive(Clone, Copy, Debug, PartialEq, Eq, Structural)]
pub enum Fault {
    StackOverflow,
    StackUnderflow,
}

/// 8-bit wraparound of a value within one step of the range.
pub open spec fn wrap8(v: int) -> u8 {
    if v >= 256 {
        (v - 256) as u8
    } else if v < 0 {
        (v + 256) as u8
    } else {
        v as u8
    }
}

/// 16-bit wraparound of a value within one step of the range.
pub open spec fn wrap16(v: int) -> u16 {
    if v >= 0x10000 {
        (v - 0x10000) as u16
    } else if v < 0 {
        (v + 0x10000) as u16
    } else {
        v as u16
    }
}

/// A decoded instruction. Register indices are field nibbles, so always below
/// 16.
#[derive(Clone, Copy, Debug, PartialEq, Eq, Structural)]
pub enum Instr {
    /// 00E0: clear the framebuffer.
    Cls,
    /// 00EE: return from a subroutine.
    Ret,
    /// 1NNN: jump.
    Jump(u16),
    /// 2NNN: call a subroutine.
    Call(u16),
    /// 3XNN: skip next instruction if Vx == NN.
    SkipEqImm(u8, u8),
    /// 4XNN: skip next instruction if Vx != NN.
    SkipNeImm(u8, u8),
    /// 5XY0: skip next instruction if Vx == Vy.
    SkipEqReg(u8, u8),
    /// 9XY0: skip next instruction if Vx != Vy.
    SkipNeReg(u8, u8),
    /// 6XNN: Vx = NN.
    SetImm(u8, u8),
    /// 7XNN: Vx += NN, wrapping, flags untouched.
    AddImm(u8, u8),
    /// 8XY0: Vx = Vy.
    Copy(u8, u8),
    /// 8XY1: Vx |= Vy.
    Or(u8, u8),
    /// 8XY2: Vx &= Vy.
    And(u8, u8),
    /// 8XY3: Vx ^= Vy.
    Xor(u8, u8),
    /// 8XY4: Vx += Vy wrapping, VF = carry.
    AddReg(u8, u8),
    /// 8XY5: Vx -= Vy wrapping, VF = 1 iff no borrow.
    SubReg(u8, u8),
    /// 8XY7: Vx = Vy - Vx wrapping, VF = 1 iff no borrow.
    SubFrom(u8, u8),
    /// 8XY6: VF = old bit 0 of Vx, Vx >>= 1 (in-place variant).
    Shr(u8),
    /// 8XYE: VF = old bit 7 of Vx, Vx <<= 1 (in-place variant).
    Shl(u8),
    /// ANNN: I = NNN.
    SetIdx(u16),
    /// BNNN: jump to NNN + V0.
    JumpV0(u16),
    /// CXNN: Vx = random byte & NN.
    Rand(u8, u8),
    /// DXYN: draw the N-row sprite at memory I to (Vx mod 64, Vy mod 32).
    Draw(u8, u8, u8),
    /// EX9E: skip next instruction if key Vx is pressed.
    SkipKey(u8),
    /// EXA1: skip next instruction if key Vx is not pressed.
    SkipNoKey(u8),
    /// FX07: Vx = delay counter.
    GetDelay(u8),
    /// FX15: delay counter = Vx.
    SetDelay(u8),
    /// FX18: sound counter = Vx.
    SetSound(u8),
    /// FX1E: I += Vx wrapping, VF = 1 iff the unwrapped sum leaves 12 bits.
    AddIdx(u8),
    /// FX0A: wait for a key; rewind PC while none is pressed.
    WaitKey(u8),
    /// FX29: I = font address of digit Vx.
    FontChar(u8),
    /// FX33: three decimal digits of Vx into memory at I.
    Bcd(u8),
    /// FX55: V0..=Vx into memory at I.
    StoreRegs(u8),
    /// FX65: memory at I into V0..=Vx.
    LoadRegs(u8),
    /// Any unrecognized pattern: no operation.
    Nop,
}

/// Every register-index field of a decoded instruction is a nibble.
pub open spec fn instr_wf(i: Instr) -> bool {
    match i {
        Instr::Cls => true,
        Instr::Ret => true,
        Instr::Jump(nnn) => nnn < 0x1000,
        Instr::Call(nnn) => nnn < 0x1000,
        Instr::SkipEqImm(x, _) => x < 16,
        Instr::SkipNeImm(x, _) => x < 16,
        Instr::SkipEqReg(x, y) => x < 16 && y < 16,
        Instr::SkipNeReg(x, y) => x < 16 && y < 16,
        Instr::SetImm(x, _) => x < 16,
        Instr::AddImm(x, _) => x < 16,
        Instr::Copy(x, y) => x < 16 && y < 16,
        Instr::Or(x, y) => x < 16 && y < 16,
        Instr::And(x, y) => x < 16 && y < 16,
        Instr::Xor(x, y) => x < 16 && y < 16,
        Instr::AddReg(x, y) => x < 16 && y < 16,
        Instr::SubReg(x, y) => x < 16 && y < 16,
        Instr::SubFrom(x, y) => x < 16 && y < 16,
        Instr::Shr(x) => x < 16,
        Instr::Shl(x) => x < 16,
        Instr::SetIdx(nnn) => nnn < 0x1000,
        Instr::JumpV0(nnn) => nnn < 0x1000,
        Instr::Rand(x, _) => x < 16,
        Instr::Draw(x, y, n) => x < 16 && y < 16 && n < 16,
        Instr::SkipKey(x) => x < 16,
        Instr::SkipNoKey(x) => x < 16,
        Instr::GetDelay(x) => x < 16,
        Instr::SetDelay(x) => x < 16,
        Instr::SetSound(x) => x < 16,
        Instr::AddIdx(x) => x < 16,
        Instr::WaitKey(x) => x < 16,
        Instr::FontChar(x) => x < 16,
        Instr::Bcd(x) => x < 16,
        Instr::StoreRegs(x) => x < 16,
        Instr::LoadRegs(x) => x < 16,
        Instr::Nop => true,
    }
}

/// Decode a 16-bit instruction word into its operation; patterns outside the
/// table decode to `Nop`.
pub open spec fn decode_spec(ins: u16) -> Instr {
    let family = ins >> 12;
    let x = ((ins >> 8) & 0xF) as u8;
    let y = ((ins >> 4) & 0xF) as u8;
    let n = (ins & 0xF) as u8;
    let nn = (ins & 0xFF) as u8;
    let nnn = ins & 0xFFF;
    if family == 0x0 {
        if ins == 0x00E0 {
            Instr::Cls
        } else if ins == 0x00EE {
            Instr::Ret
        } else {
            Instr::Nop
        }
    } else if family == 0x1 {
        Instr::Jump(nnn)
    } else if family == 0x2 {
        Instr::Call(nnn)
    } else if family == 0x3 {
        Instr::SkipEqImm(x, nn)
    } else if family == 0x4 {
        Instr::SkipNeImm(x, nn)
    } else if family == 0x5 {
        if n == 0 {
            Instr::SkipEqReg(x, y)
        } else {
            Instr::Nop
        }
    } else if family == 0x6 {
        Instr::SetImm(x, nn)
    } else if family == 0x7 {
        Instr::AddImm(x, nn)
    } else if family == 0x8 {
        if n == 0x0 {
            Instr::Copy(x, y)
        } else if n == 0x1 {
            Instr::Or(x, y)
        } else if n == 0x2 {
            Instr::And(x, y)
        } else if n == 0x3 {
            Instr::Xor(x, y)
        } else if n == 0x4 {
            Instr::AddReg(x, y)
        } else if n == 0x5 {
            Instr::SubReg(x, y)
        } else if n == 0x7 {
            Instr::SubFrom(x, y)
        } else if n == 0x6 {
            Instr::Shr(x)
        } else if n == 0xE {
            Instr::Shl(x)
        } else {
            Instr::Nop
        }
    } else if family == 0x9 {
        if n == 0 {
            Instr::SkipNeReg(x, y)
        } else {
            Instr::Nop
        }
    } else if family == 0xA {
        Instr::SetIdx(nnn)
    } else if family == 0xB {
        Instr::JumpV0(nnn)
    } else if family == 0xC {
        Instr::Rand(x, nn)
    } else if family == 0xD {
        Instr::Draw(x, y, n)
    } else if family == 0xE {
        if nn == 0x9E {
            Instr::SkipKey(x)
        } else if nn == 0xA1 {
            Instr::SkipNoKey(x)
        } else {
            Instr::Nop
        }
    } else {
        // family == 0xF
        if nn == 0x07 {
            Instr::GetDelay(x)
        } else if nn == 0x15 {
            Instr::SetDelay(x)
        } else if nn == 0x18 {
            Instr::SetSound(x)
        } else if nn == 0x1E {
            Instr::AddIdx(x)
        } else if nn == 0x0A {
            Instr::WaitKey(x)
        } else if nn == 0x29 {
            Instr::FontChar(x)
        } else if nn == 0x33 {
            Instr::Bcd(x)
        } else if nn == 0x55 {
            Instr::StoreRegs(x)
        } else if nn == 0x65 {
            Instr::LoadRegs(x)
        } else {
            Instr::Nop
        }
    }
}

/// Decoded field nibbles and the address field are within their ranges.
proof fn lemma_decode_fields(ins: u16)
    by (bit_vector)
    ensures
        (ins >> 8) & 0xF < 16,
        (ins >> 4) & 0xF < 16,
        ins & 0xF < 16,
        ins & 0xFFF < 0x1000,
{
}

/// Decode a fetched instruction word.
pub fn decode(ins: u16) -> (r: Instr)
    ensures
        r == decode_spec(ins),
        instr_wf(r),
{
    proof {
        lemma_decode_fields(ins);
    }
    let family = ins >> 12;
    let x = ((ins >> 8) & 0xF) as u8;
    let y = ((ins >> 4) & 0xF) as u8;
    let n = (ins & 0xF) as u8;
    let nn = (ins & 0xFF) as u8;
    let nnn = ins & 0xFFF;
    if family == 0x0 {
        if ins == 0x00E0 {
            Instr::Cls
        } else if ins == 0x00EE {
            Instr::Ret
        } else {
            Instr::Nop
        }
    } else if family == 0x1 {
        Instr::Jump(nnn)
    } else if family == 0x2 {
        Instr::Call(nnn)
    } else if family == 0x3 {
        Instr::SkipEqImm(x, nn)
    } else if family == 0x4 {
        Instr::SkipNeImm(x, nn)
    } else if family == 0x5 {
        if n == 0 {
            Instr::SkipEqReg(x, y)
        } else {
            Instr::Nop
        }
    } else if family == 0x6 {
        Instr::SetImm(x, nn)
    } else if family == 0x7 {
        Instr::AddImm(x, nn)
    } else if family == 0x8 {
        if n == 0x0 {
            Instr::Copy(x, y)
        } else if n == 0x1 {
            Instr::Or(x, y)
        } else if n == 0x2 {
            Instr::And(x, y)
        } else if n == 0x3 {
            Instr::Xor(x, y)
        } else if n == 0x4 {
            Instr::AddReg(x, y)
        } else if n == 0x5 {
            Instr::SubReg(x, y)
        } else if n == 0x7 {
            Instr::SubFrom(x, y)
        } else if n == 0x6 {
            Instr::Shr(x)
        } else if n == 0xE {
            Instr::Shl(x)
        } else {
            Instr::Nop
        }
    } else if family == 0x9 {
        if n == 0 {
            Instr::SkipNeReg(x, y)
        } else {
            Instr::Nop
        }
    } else if family == 0xA {
        Instr::SetIdx(nnn)
    } else if family == 0xB {
        Instr::JumpV0(nnn)
    } else if family == 0xC {
        Instr::Rand(x, nn)
    } else if family == 0xD {
        Instr::Draw(x, y, n)
    } else if family == 0xE {
        if nn == 0x9E {
            Instr::SkipKey(x)
        } else if nn == 0xA1 {
            Instr::SkipNoKey(x)
        } else {
            Instr::Nop
        }
    } else {
        if nn == 0x07 {
            Instr::GetDelay(x)
        } else if nn == 0x15 {
            Instr::SetDelay(x)
        } else if nn == 0x18 {
            Instr::SetSound(x)
        } else if nn == 0x1E {
            Instr::AddIdx(x)
        } else if nn == 0x0A {
            Instr::WaitKey(x)
        } else if nn == 0x29 {
            Instr::FontChar(x)
        } else if nn == 0x33 {
            Instr::Bcd(x)
        } else if nn == 0x55 {
            Instr::StoreRegs(x)
        } else if nn == 0x65 {
            Instr::LoadRegs(x)
        } else {
            Instr::Nop
        }
    }
}

/// Row `r` (top first) of the glyph bitmap for hex digit `d`, MSB-first.
pub open spec fn glyph_row_spec(d: int, r: int) -> u8 {
    if d == 0 { if r == 0 { 0xF0 } else if r == 1 { 0x90 } else if r == 2 { 0x90 } else if r == 3 { 0x90 } else { 0xF0 } } else
    if d == 1 { if r == 0 { 0x20 } else if r == 1 { 0x60 } else if r == 2 { 0x20 } else if r == 3 { 0x20 } else { 0x70 } } else
    if d == 2 { if r == 0 { 0xF0 } else if r == 1 { 0x10 } else if r == 2 { 0xF0 } else if r == 3 { 0x80 } else { 0xF0 } } else
    if d == 3 { if r == 0 { 0xF0 } else if r == 1 { 0x10 } else if r == 2 { 0xF0 } else if r == 3 { 0x10 } else { 0xF0 } } else
    if d == 4 { if r == 0 { 0x90 } else if r == 1 { 0x90 } else if r == 2 { 0xF0 } else if r == 3 { 0x10 } else { 0x10 } } else
    if d == 5 { if r == 0 { 0xF0 } else if r == 1 { 0x80 } else if r == 2 { 0xF0 } else if r == 3 { 0x10 } else { 0xF0 } } else
    if d == 6 { if r == 0 { 0xF0 } else if r == 1 { 0x80 } else if r == 2 { 0xF0 } else if r == 3 { 0x90 } else { 0xF0 } } else
    if d == 7 { if r == 0 { 0xF0 } else if r == 1 { 0x10 } else if r == 2 { 0x20 } else if r == 3 { 0x40 } else { 0x40 } } else
    if d == 8 { if r == 0 { 0xF0 } else if r == 1 { 0x90 } else if r == 2 { 0xF0 } else if r == 3 { 0x90 } else { 0xF0 } } else
    if d == 9 { if r == 0 { 0xF0 } else if r == 1 { 0x90 } else if r == 2 { 0xF0 } else if r == 3 { 0x10 } else { 0xF0 } } else
    if d == 10 { if r == 0 { 0xF0 } else if r == 1 { 0x90 } else if r == 2 { 0xF0 } else if r == 3 { 0x90 } else { 0x90 } } else
    if d == 11 { if r == 0 { 0xE0 } else if r == 1 { 0x90 } else if r == 2 { 0xE0 } else if r == 3 { 0x90 } else { 0xE0 } } else
    if d == 12 { if r == 0 { 0xF0 } else if r == 1 { 0x80 } else if r == 2 { 0x80 } else if r == 3 { 0x80 } else { 0xF0 } } else
    if d == 13 { if r == 0 { 0xE0 } else if r == 1 { 0x90 } else if r == 2 { 0x90 } else if r == 3 { 0x90 } else { 0xE0 } } else
    if d == 14 { if r == 0 { 0xF0 } else if r == 1 { 0x80 } else if r == 2 { 0xF0 } else if r == 3 { 0x80 } else { 0xF0 } } else
    { if r == 0 { 0xF0 } else if r == 1 { 0x80 } else if r == 2 { 0xF0 } else if r == 3 { 0x80 } else { 0x80 } }
}

/// Row `r` (top first) of the glyph bitmap for hex digit `d`, MSB-first.
pub fn glyph_row(d: usize, r: usize) -> (b: u8)
    requires
        d < 16,
        r < 5,
    ensures
        b == glyph_row_spec(d as int, r as int),
{
    if d == 0 { if r == 0 { 0xF0 } else if r == 1 { 0x90 } else if r == 2 { 0x90 } else if r == 3 { 0x90 } else { 0xF0 } } else
    if d == 1 { if r == 0 { 0x20 } else if r == 1 { 0x60 } else if r == 2 { 0x20 } else if r == 3 { 0x20 } else { 0x70 } } else
    if d == 2 { if r == 0 { 0xF0 } else if r == 1 { 0x10 } else if r == 2 { 0xF0 } else if r == 3 { 0x80 } else { 0xF0 } } else
    if d == 3 { if r == 0 { 0xF0 } else if r == 1 { 0x10 } else if r == 2 { 0xF0 } else if r == 3 { 0x10 } else { 0xF0 } } else
    if d == 4 { if r == 0 { 0x90 } else if r == 1 { 0x90 } else if r == 2 { 0xF0 } else if r == 3 { 0x10 } else { 0x10 } } else
    if d == 5 { if r == 0 { 0xF0 } else if r == 1 { 0x80 } else if r == 2 { 0xF0 } else if r == 3 { 0x10 } else { 0xF0 } } else
    if d == 6 { if r == 0 { 0xF0 } else if r == 1 { 0x80 } else if r == 2 { 0xF0 } else if r == 3 { 0x90 } else { 0xF0 } } else
    if d == 7 { if r == 0 { 0xF0 } else if r == 1 { 0x10 } else if r == 2 { 0x20 } else if r == 3 { 0x40 } else { 0x40 } } else
    if d == 8 { if r == 0 { 0xF0 } else if r == 1 { 0x90 } else if r == 2 { 0xF0 } else if r == 3 { 0x90 } else { 0xF0 } } else
    if d == 9 { if r == 0 { 0xF0 } else if r == 1 { 0x90 } else if r == 2 { 0xF0 } else if r == 3 { 0x10 } else { 0xF0 } } else
    if d == 10 { if r == 0 { 0xF0 } else if r == 1 { 0x90 } else if r == 2 { 0xF0 } else if r == 3 { 0x90 } else { 0x90 } } else
    if d == 11 { if r == 0 { 0xE0 } else if r == 1 { 0x90 } else if r == 2 { 0xE0 } else if r == 3 { 0x90 } else { 0xE0 } } else
    if d == 12 { if r == 0 { 0xF0 } else if r == 1 { 0x80 } else if r == 2 { 0x80 } else if r == 3 { 0x80 } else { 0xF0 } } else
    if d == 13 { if r == 0 { 0xE0 } else if r == 1 { 0x90 } else if r == 2 { 0x90 } else if r == 3 { 0x90 } else { 0xE0 } } else
    if d == 14 { if r == 0 { 0xF0 } else if r == 1 { 0x80 } else if r == 2 { 0xF0 } else if r == 3 { 0x80 } else { 0xF0 } } else
    { if r == 0 { 0xF0 } else if r == 1 { 0x80 } else if r == 2 { 0xF0 } else if r == 3 { 0x80 } else { 0x80 } }
}

/// The whole 80-byte font table: glyph `d` occupies bytes `5 * d .. 5 * d + 5`.
pub open spec fn fontset() -> Seq<u8> {
    Seq::new(80, |k: int| glyph_row_spec(k / 5, k % 5))
}

/// Memory at construction: the font table at the font offset, zero elsewhere.
pub open spec fn init_mem() -> Seq<u8> {
    Seq::new(4096, |a: int| if 0x50 <= a < 0xA0 {
        glyph_row_spec((a - 0x50) / 5, (a - 0x50) % 5)
    } else {
        0u8
    })
}

/// The machine as constructed for a given cycle rate: font loaded, program
/// counter at the program start, everything else zeroed.
pub open spec fn init_view(hz: u32) -> MachineView {
    MachineView {
        gfx: Seq::new(2048, |i: int| 0u8),
        mem: init_mem(),
        pc: 0x200,
        idx: 0,
        stack: Seq::empty(),
        delay: TimerView { counter: 0, period: hz / 60, acc: 0 },
        sound: TimerView { counter: 0, period: hz / 60, acc: 0 },
        keys: Seq::new(16, |i: int| false),
        regs: Seq::new(16, |i: int| 0u8),
    }
}

/// The state with the program counter advanced past one instruction.
pub open spec fn skip2(s: MachineView) -> MachineView {
    MachineView { pc: wrap16(s.pc + 2), ..s }
}

/// The state with register `x` overwritten by `v`.
pub open spec fn with_reg(s: MachineView, x: int, v: u8) -> MachineView {
    MachineView { regs: s.regs.update(x, v), ..s }
}

/// The sprite byte for row `row` of a sprite based at address `base`; a row
/// outside memory reads as an empty row.
pub open spec fn sprite_byte(mem: Seq<u8>, base: int, row: int) -> u8 {
    if 0 <= base + row < 4096 {
        mem[base + row]
    } else {
        0u8
    }
}

/// Bit `col` (MSB first) of sprite row `row`.
pub open spec fn sprite_bit(mem: Seq<u8>, base: int, row: int, col: int) -> u8 {
    (sprite_byte(mem, base, row) >> ((7 - col) as u8)) & 1
}

/// Whether framebuffer index `i` lies in the drawn region: within the sprite
/// columns, and within the first `rows` full sprite rows or among the first
/// `cols` columns of row `rows`, with a set sprite bit. Pixels that would
/// fall off the right or bottom edge have no index below 2048, so clipping is
/// inherent.
pub open spec fn draw_flips(
    mem: Seq<u8>,
    base: int,
    sx: int,
    sy: int,
    rows: int,
    cols: int,
    i: int,
) -> bool {
    let dr = i / 64 - sy;
    let dc = i % 64 - sx;
    &&& 0 <= dr
    &&& 0 <= dc < 8
    &&& dr < rows || (dr == rows && dc < cols)
    &&& sprite_bit(mem, base, dr, dc) == 1
}

/// The framebuffer after XOR-drawing the first `rows` full sprite rows and
/// `cols` further pixels of row `rows`.
pub open spec fn draw_part(
    g: Seq<u8>,
    mem: Seq<u8>,
    base: int,
    sx: int,
    sy: int,
    rows: int,
    cols: int,
) -> Seq<u8> {
    Seq::new(2048, |i: int| if draw_flips(mem, base, sx, sy, rows, cols, i) {
        g[i] ^ 1
    } else {
        g[i]
    })
}

/// Whether XOR-drawing that region hits an already lit pixel.
pub open spec fn draw_hit_part(
    g: Seq<u8>,
    mem: Seq<u8>,
    base: int,
    sx: int,
    sy: int,
    rows: int,
    cols: int,
) -> bool {
    exists|i: int| 0 <= i < 2048 && #[trigger] draw_flips(mem, base, sx, sy, rows, cols, i)
        && g[i] != 0
}

/// The framebuffer after drawing a whole `n`-row sprite from `base` at
/// `(sx, sy)`.
pub open spec fn draw_gfx(g: Seq<u8>, mem: Seq<u8>, base: int, sx: int, sy: int, n: int) -> Seq<
    u8,
> {
    draw_part(g, mem, base, sx, sy, n, 0)
}

/// Whether drawing that whole sprite hits an already lit pixel.
pub open spec fn draw_hit(g: Seq<u8>, mem: Seq<u8>, base: int, sx: int, sy: int, n: int) -> bool {
    draw_hit_part(g, mem, base, sx, sy, n, 0)
}

/// Memory after copying `count` registers to consecutive addresses from
/// `base`; addresses beyond the address space are skipped.
pub open spec fn store_regs_mem(mem: Seq<u8>, regs: Seq<u8>, base: int, count: int) -> Seq<u8> {
    Seq::new(4096, |a: int| if base <= a < base + count {
        regs[a - base]
    } else {
        mem[a]
    })
}

/// Registers after loading `count` of them from consecutive addresses from
/// `base`; a register whose address lies beyond the address space keeps its
/// value.
pub open spec fn load_regs_regs(regs: Seq<u8>, mem: Seq<u8>, base: int, count: int) -> Seq<u8> {
    Seq::new(16, |j: int| if j < count && 0 <= base + j < 4096 {
        mem[base + j]
    } else {
        regs[j]
    })
}

/// Memory after writing the three decimal digits of `v` at `base`; digits
/// whose address lies beyond the address space are dropped.
pub open spec fn bcd_mem(mem: Seq<u8>, base: int, v: u8) -> Seq<u8> {
    let m1 = if 0 <= base < 4096 {
        mem.update(base, (v / 100) as u8)
    } else {
        mem
    };
    let m2 = if 0 <= base + 1 < 4096 {
        m1.update(base + 1, ((v / 10) % 10) as u8)
    } else {
        m1
    };
    if 0 <= base + 2 < 4096 {
        m2.update(base + 2, (v % 10) as u8)
    } else {
        m2
    }
}

/// The fatal fault an instruction raises in state `s`, if any: only calls and
/// returns can fault, by leaving the stack-depth range.
pub open spec fn exec_fault(s: MachineView, i: Instr) -> Option<Fault> {
    match i {
        Instr::Ret => if s.stack.len() == 0 {
            Some(Fault::StackUnderflow)
        } else {
            None
        },
        Instr::Call(_) => if s.stack.len() + 1 >= 64 {
            Some(Fault::StackOverflow)
        } else {
            None
        },
        _ => None,
    }
}

/// The machine state after executing one decoded instruction that does not
/// fault. `rnd` is the byte the random source supplied; only `Rand` reads it.
pub open spec fn exec_spec(s: MachineView, i: Instr, rnd: u8) -> MachineView {
    match i {
        Instr::Cls => MachineView { gfx: Seq::new(2048, |j: int| 0u8), ..s },
        Instr::Ret => MachineView { pc: s.stack.last(), stack: s.stack.drop_last(), ..s },
        Instr::Jump(nnn) => MachineView { pc: nnn, ..s },
        Instr::Call(nnn) => MachineView { pc: nnn, stack: s.stack.push(s.pc), ..s },
        Instr::SkipEqImm(x, nn) => if s.regs[x as int] == nn {
            skip2(s)
        } else {
            s
        },
        Instr::SkipNeImm(x, nn) => if s.regs[x as int] != nn {
            skip2(s)
        } else {
            s
        },
        Instr::SkipEqReg(x, y) => if s.regs[x as int] == s.regs[y as int] {
            skip2(s)
        } else {
            s
        },
        Instr::SkipNeReg(x, y) => if s.regs[x as int] != s.regs[y as int] {
            skip2(s)
        } else {
            s
        },
        Instr::SetImm(x, nn) => with_reg(s, x as int, nn),
        Instr::AddImm(x, nn) => with_reg(s, x as int, wrap8(s.regs[x as int] + nn)),
        Instr::Copy(x, y) => with_reg(s, x as int, s.regs[y as int]),
        Instr::Or(x, y) => with_reg(s, x as int, s.regs[x as int] | s.regs[y as int]),
        Instr::And(x, y) => with_reg(s, x as int, s.regs[x as int] & s.regs[y as int]),
        Instr::Xor(x, y) => with_reg(s, x as int, s.regs[x as int] ^ s.regs[y as int]),
        Instr::AddReg(x, y) => {
            let sum = s.regs[x as int] + s.regs[y as int];
            MachineView {
                regs: s.regs.update(x as int, wrap8(sum)).update(
                    15,
                    if sum > 255 {
                        1u8
                    } else {
                        0u8
                    },
                ),
                ..s
            }
        },
        Instr::SubReg(x, y) => {
            let vx = s.regs[x as int];
            let vy = s.regs[y as int];
            MachineView {
                regs: s.regs.update(x as int, wrap8(vx - vy)).update(
                    15,
                    if vx >= vy {
                        1u8
                    } else {
                        0u8
                    },
                ),
                ..s
            }
        },
        Instr::SubFrom(x, y) => {
            let vx = s.regs[x as int];
            let vy = s.regs[y as int];
            MachineView {
                regs: s.regs.update(x as int, wrap8(vy - vx)).update(
                    15,
                    if vy >= vx {
                        1u8
                    } else {
                        0u8
                    },
                ),
                ..s
            }
        },
        Instr::Shr(x) => {
            let vx = s.regs[x as int];
            MachineView {
                regs: s.regs.update(x as int, (vx / 2) as u8).update(15, (vx % 2) as u8),
                ..s
            }
        },
        Instr::Shl(x) => {
            let vx = s.regs[x as int];
            MachineView {
                regs: s.regs.update(x as int, wrap8(2 * vx)).update(15, (vx / 128) as u8),
                ..s
            }
        },
        Instr::SetIdx(nnn) => MachineView { idx: nnn, ..s },
        Instr::JumpV0(nnn) => MachineView { pc: wrap16(nnn + s.regs[0]), ..s },
        Instr::Rand(x, nn) => with_reg(s, x as int, rnd & nn),
        Instr::Draw(x, y, n) => {
            let sx = s.regs[x as int] % 64;
            let sy = s.regs[y as int] % 32;
            MachineView {
                gfx: draw_gfx(s.gfx, s.mem, s.idx as int, sx as int, sy as int, n as int),
                regs: s.regs.update(
                    15,
                    if draw_hit(s.gfx, s.mem, s.idx as int, sx as int, sy as int, n as int) {
                        1u8
                    } else {
                        0u8
                    },
                ),
                ..s
            }
        },
        Instr::SkipKey(x) => if s.keys[(s.regs[x as int] % 16) as int] {
            skip2(s)
        } else {
            s
        },
        Instr::SkipNoKey(x) => if !s.keys[(s.regs[x as int] % 16) as int] {
            skip2(s)
        } else {
            s
        },
        Instr::GetDelay(x) => with_reg(s, x as int, s.delay.counter),
        Instr::SetDelay(x) => MachineView {
            delay: TimerView {
                counter: s.regs[x as int],
                period: s.delay.period,
                acc: s.delay.acc,
            },
            ..s
        },
        Instr::SetSound(x) => MachineView {
            sound: TimerView {
                counter: s.regs[x as int],
                period: s.sound.period,
                acc: s.sound.acc,
            },
            ..s
        },
        Instr::AddIdx(x) => {
            let sum = s.idx + s.regs[x as int];
            MachineView {
                idx: wrap16(sum),
                regs: s.regs.update(
                    15,
                    if sum > 0xFFF {
                        1u8
                    } else {
                        0u8
                    },
                ),
                ..s
            }
        },
        Instr::WaitKey(x) => match lowest_pressed(s.keys) {
            Some(k) => with_reg(s, x as int, k),
            None => MachineView { pc: wrap16(s.pc - 2), ..s },
        },
        Instr::FontChar(x) => MachineView { idx: (0x50 + s.regs[x as int] * 5) as u16, ..s },
        Instr::Bcd(x) => MachineView { mem: bcd_mem(s.mem, s.idx as int, s.regs[x as int]), ..s },
        Instr::StoreRegs(x) => MachineView {
            mem: store_regs_mem(s.mem, s.regs, s.idx as int, x + 1),
            ..s
        },
        Instr::LoadRegs(x) => MachineView {
            regs: load_regs_regs(s.regs, s.mem, s.idx as int, x + 1),
            ..s
        },
        Instr::Nop => s,
    }
}

/// The byte at address `a`, an address beyond the space reading as zero.
pub open spec fn byte_at(s: MachineView, a: int) -> u8 {
    if 0 <= a < 4096 {
        s.mem[a]
    } else {
        0u8
    }
}

/// The big-endian instruction word at the program counter.
pub open spec fn fetch_ins_spec(s: MachineView) -> u16 {
    ((byte_at(s, s.pc as int) as u16) << 8) | (byte_at(s, s.pc + 1) as u16)
}

/// The state after a fetch: the program counter has moved past the word.
pub open spec fn fetch_next_spec(s: MachineView) -> MachineView {
    MachineView { pc: wrap16(s.pc + 2), ..s }
}

/// The state after both timers took their per-cycle tick.
pub open spec fn tick_timers(s: MachineView) -> MachineView {
    MachineView { delay: tick_spec(s.delay), sound: tick_spec(s.sound), ..s }
}

/// The fault one whole cycle (tick, fetch, execute) raises from `s`, if any.
pub open spec fn cycle_fault(s: MachineView) -> Option<Fault> {
    exec_fault(fetch_next_spec(tick_timers(s)), decode_spec(fetch_ins_spec(s)))
}

/// The state one whole non-faulting cycle (tick, fetch, execute) reaches from
/// `s`, before the host rewrites the keypad.
pub open spec fn cycle_spec(s: MachineView, rnd: u8) -> MachineView {
    exec_spec(fetch_next_spec(tick_timers(s)), decode_spec(fetch_ins_spec(s)), rnd)
}

/// The state `s` with its keypad replaced by `keys`.
pub open spec fn with_keys(s: MachineView, keys: Seq<bool>) -> MachineView {
    MachineView { keys: keys, ..s }
}

/// A vector of `n` zero bytes.
fn zero_vec(n: usize) -> (r: Vec<u8>)
    ensures
        r@ == Seq::new(n as nat, |i: int| 0u8),
{
    let mut v: Vec<u8> = Vec::new();
    let mut i: usize = 0;
    while i < n
        invariant
            v@.len() == i,
            i <= n,
            forall|j: int| 0 <= j < i ==> v@[j] == 0u8,
        decreases n - i,
    {
        v.push(0);
        i = i + 1;
    }
    proof {
        assert(v@ =~= Seq::new(n as nat, |i: int| 0u8));
    }
    v
}

/// The virtual machine: the whole state of one interpreter instance plus the
/// host capabilities it drives once per cycle.
pub struct Emu<H> {
    gfx: Vec<u8>,
    memory: Vec<u8>,
    pc: u16,
    idx_reg: u16,
    stack: Stack<u16, 64>,
    delay_timer: Timer,
    sound_timer: Timer,
    keypad: KeyPad,
    regs: Vec<u8>,
    hz: u32,
    main_loop_handler: H,
}

impl<H> View for Emu<H> {
    type V = MachineView;

    closed spec fn view(&self) -> MachineView {
        MachineView {
            gfx: self.gfx@,
            mem: self.memory@,
            pc: self.pc,
            idx: self.idx_reg,
            stack: self.stack@,
            delay: self.delay_timer@,
            sound: self.sound_timer@,
            keys: self.keypad@,
            regs: self.regs@,
        }
    }
}

impl<H> Emu<H> {
    /// The machine's state is well formed.
    pub open spec fn wf(&self) -> bool {
        machine_wf(self@)
    }

    /// The configured instruction rate in cycles per second.
    pub closed spec fn hz_spec(&self) -> u32 {
        self.hz
    }
}

impl<H: MainLoopHandler> Emu<H> {
    /// A fresh machine at `hz` cycles per second: font loaded, program
    /// counter at the program start, everything else zeroed.
    pub fn new(hz: u32, main_loop_handler: H) -> (r: Self)
        ensures
            r@ == init_view(hz),
            r.wf(),
            r.hz_spec() == hz,
    {
        let mut memory = zero_vec(MEM_SIZE);
        let mut k: usize = 0;
        while k < 80
            invariant
                memory@.len() == 4096,
                k <= 80,
                forall|a: int| 0 <= a < 4096 ==> memory@[a] == (if 0x50 <= a < 0x50 + k {
                    glyph_row_spec((a - 0x50) / 5, (a - 0x50) % 5)
                } else {
                    0u8
                }),
            decreases 80 - k,
        {
            memory.set(FONT_OFFSET + k, glyph_row(k / 5, k % 5));
            k = k + 1;
        }
        proof {
            assert(memory@ =~= init_mem());
        }
        let r = Emu {
            gfx: zero_vec(GFX_SIZE),
            memory,
            pc: START_PC,
            idx_reg: 0,
            stack: Stack::new(),
            delay_timer: Timer::new(hz / TIMER_FREQ),
            sound_timer: Timer::new(hz / TIMER_FREQ),
            keypad: KeyPad::default(),
            regs: zero_vec(16),
            hz,
            main_loop_handler,
        };
        proof {
            assert(r@ =~= init_view(hz));
        }
        r
    }

    /// Change the instruction rate; both timers restart zeroed with the
    /// period the new rate implies.
    pub fn set_hz(&mut self, hz: u32)
        ensures
            final(self)@ == (MachineView {
                delay: TimerView { counter: 0, period: hz / 60, acc: 0 },
                sound: TimerView { counter: 0, period: hz / 60, acc: 0 },
                ..old(self)@
            }),
            old(self).wf() ==> final(self).wf(),
            final(self).hz_spec() == hz,
    {
        self.hz = hz;
        self.delay_timer = Timer::new(hz / TIMER_FREQ);
        self.sound_timer = Timer::new(hz / TIMER_FREQ);
        proof {
            assert(self@ =~= (MachineView {
                delay: TimerView { counter: 0, period: hz / 60, acc: 0 },
                sound: TimerView { counter: 0, period: hz / 60, acc: 0 },
                ..old(self)@
            }));
        }
    }

    /// Copy a program into memory starting at the current program counter.
    /// The caller is responsible for a ROM that fits the address space.
    pub fn load_rom(&mut self, rom: &[u8])
        requires
            old(self).wf(),
            old(self)@.pc + rom@.len() <= 4096,
        ensures
            final(self)@ == (MachineView {
                mem: Seq::new(4096, |a: int| if old(self)@.pc <= a < old(self)@.pc + rom@.len() {
                    rom@[a - old(self)@.pc]
                } else {
                    old(self)@.mem[a]
                }),
                ..old(self)@
            }),
            final(self).wf(),
            final(self).hz_spec() == old(self).hz_spec(),
    {
        let pc = self.pc as usize;
        let mut j: usize = 0;
        while j < rom.len()
            invariant
                self.memory@.len() == 4096,
                pc == old(self)@.pc,
                pc + rom@.len() <= 4096,
                j <= rom@.len(),
                forall|a: int| 0 <= a < 4096 ==> self.memory@[a] == (if pc <= a < pc + j {
                    rom@[a - pc]
                } else {
                    old(self)@.mem[a]
                }),
                self.gfx == old(self).gfx,
                self.pc == old(self).pc,
                self.idx_reg == old(self).idx_reg,
                self.stack == old(self).stack,
                self.delay_timer == old(self).delay_timer,
                self.sound_timer == old(self).sound_timer,
                self.keypad == old(self).keypad,
                self.regs == old(self).regs,
                self.hz == old(self).hz,
            decreases rom@.len() - j,
        {
            self.memory.set(pc + j, rom[j]);
            j = j + 1;
        }
        proof {
            assert(self@.mem =~= Seq::new(4096, |a: int| if old(self)@.pc <= a < old(self)@.pc
                + rom@.len() {
                rom@[a - old(self)@.pc]
            } else {
                old(self)@.mem[a]
            }));
            assert(self@ =~= (MachineView {
                mem: Seq::new(4096, |a: int| if old(self)@.pc <= a < old(self)@.pc + rom@.len() {
                    rom@[a - old(self)@.pc]
                } else {
                    old(self)@.mem[a]
                }),
                ..old(self)@
            }));
        }
    }

    /// Read the big-endian instruction word at the program counter and move
    /// the program counter past it.
    pub fn fetch(&mut self) -> (r: u16)
        requires
            old(self).wf(),
        ensures
            r == fetch_ins_spec(old(self)@),
            final(self)@ == fetch_next_spec(old(self)@),
            final(self).wf(),
            final(self).hz_spec() == old(self).hz_spec(),
    {
        let pc = self.pc as usize;
        let hi = if pc < MEM_SIZE {
            self.memory[pc]
        } else {
            0
        };
        let lo = if pc + 1 < MEM_SIZE {
            self.memory[pc + 1]
        } else {
            0
        };
        self.pc = self.pc.wrapping_add(2);
        proof {
            assert(self@ =~= fetch_next_spec(old(self)@));
        }
        ((hi as u16) << 8) | (lo as u16)
    }

    /// The configured instruction rate.
    pub fn hz(&self) -> (r: u32)
        ensures
            r == self.hz_spec(),
    {
        self.hz
    }

    /// The program counter.
    pub fn pc(&self) -> (r: u16)
        ensures
            r == self@.pc,
    {
        self.pc
    }

    /// The index register.
    pub fn index_reg(&self) -> (r: u16)
        ensures
            r == self@.idx,
    {
        self.idx_reg
    }

    /// Register `x`.
    pub fn reg(&self, x: u8) -> (r: u8)
        requires
            self.wf(),
            x < 16,
        ensures
            r == self@.regs[x as int],
    {
        self.regs[x as usize]
    }

    /// The delay timer's counter.
    pub fn delay_value(&self) -> (r: u8)
        ensures
            r == self@.delay.counter,
    {
        self.delay_timer.counter()
    }

    /// The sound timer's counter.
    pub fn sound_value(&self) -> (r: u8)
        ensures
            r == self@.sound.counter,
    {
        self.sound_timer.counter()
    }

    /// The call stack's depth.
    pub fn stack_depth(&self) -> (r: usize)
        ensures
            r == self@.stack.len(),
    {
        self.stack.len()
    }

    /// The framebuffer pixel at column `col` of row `row`: 0 dark, 1 lit.
    pub fn pixel(&self, col: usize, row: usize) -> (r: u8)
        requires
            self.wf(),
            col < 64,
            row < 32,
        ensures
            r == self@.gfx[row * 64 + col],
    {
        self.gfx[row * 64 + col]
    }

    /// The byte at address `a`.
    pub fn memory_byte(&self, a: usize) -> (r: u8)
        requires
            self.wf(),
            a < 4096,
        ensures
            r == self@.mem[a as int],
    {
        self.memory[a]
    }

    /// Mark the key with this code as pressed, as a host does between cycles.
    pub fn press_key(&mut self, key: crate::keypad::Key)
        ensures
            final(self)@ == with_keys(old(self)@, old(self)@.keys.update(key.addr_spec(), true)),
            old(self).wf() ==> final(self).wf(),
            final(self).hz_spec() == old(self).hz_spec(),
    {
        self.keypad.press_key(key);
        proof {
            crate::keypad::lemma_keypad_view_len(&self.keypad);
            assert(self@ =~= with_keys(old(self)@, old(self)@.keys.update(key.addr_spec(), true)));
        }
    }

    /// Mark the key with this code as released, as a host does between
    /// cycles.
    pub fn release_key(&mut self, key: crate::keypad::Key)
        ensures
            final(self)@ == with_keys(old(self)@, old(self)@.keys.update(key.addr_spec(), false)),
            old(self).wf() ==> final(self).wf(),
            final(self).hz_spec() == old(self).hz_spec(),
    {
        self.keypad.release_key(key);
        proof {
            crate::keypad::lemma_keypad_view_len(&self.keypad);
            assert(self@ =~= with_keys(old(self)@, old(self)@.keys.update(key.addr_spec(), false)));
        }
    }
}

/// The row and column a framebuffer index decomposes into.
proof fn lemma_index_coords(i: int)
    requires
        0 <= i < 2048,
    ensures
        i == 64 * (i / 64) + i % 64,
        0 <= i % 64 < 64,
        0 <= i / 64 < 32,
{
    vstd::arithmetic::div_mod::lemma_fundamental_div_mod(i, 64);
    vstd::arithmetic::div_mod::lemma_mod_division_less_than_divisor(i, 64);
}

/// The framebuffer index of the pixel at column `c` of row `r`, and its
/// decomposition back into the coordinates.
proof fn lemma_pos_coords(r: int, c: int)
    requires
        0 <= r < 32,
        0 <= c < 64,
    ensures
        0 <= 64 * r + c < 2048,
        (64 * r + c) / 64 == r,
        (64 * r + c) % 64 == c,
{
    vstd::arithmetic::div_mod::lemma_fundamental_div_mod_converse_div(64 * r + c, 64, r, c);
    vstd::arithmetic::div_mod::lemma_fundamental_div_mod_converse_mod(64 * r + c, 64, r, c);
}

impl<H: MainLoopHandler> Emu<H> {
    /// Copy registers V0..=Vx to consecutive memory addresses from I,
    /// dropping writes past the end of the address space.
    fn op_store_regs(&mut self, x: u8)
        requires
            old(self).wf(),
            x < 16,
        ensures
            final(self)@ == (MachineView {
                mem: store_regs_mem(old(self)@.mem, old(self)@.regs, old(self)@.idx as int, x + 1),
                ..old(self)@
            }),
            final(self).wf(),
            final(self).hz_spec() == old(self).hz_spec(),
    {
        let base = self.idx_reg as usize;
        let count = x as usize + 1;
        proof {
            assert(self.memory@ =~= store_regs_mem(
                old(self)@.mem,
                old(self)@.regs,
                base as int,
                0,
            ));
        }
        let mut j: usize = 0;
        while j < count
            invariant
                old(self).wf(),
                base == old(self)@.idx,
                count == x + 1,
                x < 16,
                j <= count,
                self@ == (MachineView { mem: self.memory@, ..old(self)@ }),
                self.memory@.len() == 4096,
                self.memory@ == store_regs_mem(old(self)@.mem, old(self)@.regs, base as int, j as int),
                self.hz == old(self).hz,
            decreases count - j,
        {
            if base + j < MEM_SIZE {
                self.memory.set(base + j, self.regs[j]);
            }
            proof {
                assert(self.memory@ =~= store_regs_mem(
                    old(self)@.mem,
                    old(self)@.regs,
                    base as int,
                    j + 1,
                ));
            }
            j = j + 1;
        }
        proof {
            assert(self@ =~= (MachineView {
                mem: store_regs_mem(old(self)@.mem, old(self)@.regs, old(self)@.idx as int, x + 1),
                ..old(self)@
            }));
        }
    }

    /// Load registers V0..=Vx from consecutive memory addresses from I; a
    /// register whose address lies past the end of the address space keeps
    /// its value.
    fn op_load_regs(&mut self, x: u8)
        requires
            old(self).wf(),
            x < 16,
        ensures
            final(self)@ == (MachineView {
                regs: load_regs_regs(old(self)@.regs, old(self)@.mem, old(self)@.idx as int, x + 1),
                ..old(self)@
            }),
            final(self).wf(),
            final(self).hz_spec() == old(self).hz_spec(),
    {
        let base = self.idx_reg as usize;
        let count = x as usize + 1;
        proof {
            assert(self.regs@ =~= load_regs_regs(
                old(self)@.regs,
                old(self)@.mem,
                base as int,
                0,
            ));
        }
        let mut j: usize = 0;
        while j < count
            invariant
                old(self).wf(),
                base == old(self)@.idx,
                count == x + 1,
                x < 16,
                j <= count,
                self@ == (MachineView { regs: self.regs@, ..old(self)@ }),
                self.regs@.len() == 16,
                self.regs@ == load_regs_regs(old(self)@.regs, old(self)@.mem, base as int, j as int),
                self.hz == old(self).hz,
            decreases count - j,
        {
            if base + j < MEM_SIZE {
                let b = self.memory[base + j];
                self.regs.set(j, b);
            }
            proof {
                assert(self.regs@ =~= load_regs_regs(
                    old(self)@.regs,
                    old(self)@.mem,
                    base as int,
                    j + 1,
                ));
            }
            j = j + 1;
        }
        proof {
            assert(self@ =~= (MachineView {
                regs: load_regs_regs(old(self)@.regs, old(self)@.mem, old(self)@.idx as int, x + 1),
                ..old(self)@
            }));
        }
    }

    /// XOR-draw the `n`-row sprite at memory I to `(Vx mod 64, Vy mod 32)`,
    /// clipping at the screen edges; VF reports whether a lit pixel was hit.
    fn op_draw(&mut self, x: u8, y: u8, n: u8)
        requires
            old(self).wf(),
            x < 16,
            y < 16,
            n < 16,
        ensures
            final(self)@ == exec_spec(old(self)@, Instr::Draw(x, y, n), 0),
            final(self).wf(),
            final(self).hz_spec() == old(self).hz_spec(),
    {
        let sx = (self.regs[x as usize] % 64) as usize;
        let sy = (self.regs[y as usize] % 32) as usize;
        let rows = n as usize;
        let base = self.idx_reg as usize;
        let ghost g0 = old(self)@.gfx;
        let ghost m0 = old(self)@.mem;
        self.regs.set(15, 0);
        proof {
            assert(self.gfx@ =~= draw_part(g0, m0, base as int, sx as int, sy as int, 0, 0));
            assert forall|i: int| !draw_flips(m0, base as int, sx as int, sy as int, 0, 0, i) by {}
            assert(!draw_hit_part(g0, m0, base as int, sx as int, sy as int, 0, 0));
        }
        let mut ry: usize = 0;
        while ry < rows && sy + ry < HEIGHT
            invariant
                old(self).wf(),
                x < 16,
                y < 16,
                n < 16,
                rows == n,
                sx < 64,
                sy < 32,
                sx == old(self)@.regs[x as int] % 64,
                sy == old(self)@.regs[y as int] % 32,
                base == old(self)@.idx,
                ry <= rows,
                g0 == old(self)@.gfx,
                m0 == old(self)@.mem,
                self@ == (MachineView { gfx: self.gfx@, regs: self.regs@, ..old(self)@ }),
                self.gfx@.len() == 2048,
                self.regs@.len() == 16,
                self.gfx@ == draw_part(g0, m0, base as int, sx as int, sy as int, ry as int, 0),
                self.regs@ == old(self)@.regs.update(
                    15,
                    if draw_hit_part(g0, m0, base as int, sx as int, sy as int, ry as int, 0) {
                        1u8
                    } else {
                        0u8
                    },
                ),
                self.hz == old(self).hz,
            decreases rows - ry,
        {
            let sprite = if base + ry < MEM_SIZE {
                self.memory[base + ry]
            } else {
                0
            };
            proof {
                assert(sprite == sprite_byte(m0, base as int, ry as int));
            }
            let mut cx: usize = 0;
            while cx < 8 && sx + cx < WIDTH
                invariant
                    old(self).wf(),
                    x < 16,
                    y < 16,
                    n < 16,
                    rows == n,
                    sx < 64,
                    sy < 32,
                    sx == old(self)@.regs[x as int] % 64,
                    sy == old(self)@.regs[y as int] % 32,
                    base == old(self)@.idx,
                    ry < rows,
                    sy + ry < 32,
                    cx <= 8,
                    g0 == old(self)@.gfx,
                    m0 == old(self)@.mem,
                    sprite == sprite_byte(m0, base as int, ry as int),
                    self@ == (MachineView { gfx: self.gfx@, regs: self.regs@, ..old(self)@ }),
                    self.gfx@.len() == 2048,
                    self.regs@.len() == 16,
                    self.gfx@ == draw_part(g0, m0, base as int, sx as int, sy as int, ry as int, cx as int),
                    self.regs@ == old(self)@.regs.update(
                        15,
                        if draw_hit_part(
                            g0,
                            m0,
                            base as int,
                            sx as int,
                            sy as int,
                            ry as int,
                            cx as int,
                        ) {
                            1u8
                        } else {
                            0u8
                        },
                    ),
                    self.hz == old(self).hz,
                decreases 8 - cx,
            {
                let sh = (7 - cx) as u8;
                let bit = (sprite >> sh) & 1;
                proof {
                    assert(((sprite >> sh) & 1) < 2) by (bit_vector);
                    assert(bit == sprite_bit(m0, base as int, ry as int, cx as int));
                }
                let ghost rows_i = ry as int;
                let ghost cols_i = cx as int;
                let ghost bi = base as int;
                let ghost sxi = sx as int;
                let ghost syi = sy as int;
                if bit != 0 {
                    let pos = WIDTH * (sy + ry) + (sx + cx);
                    proof {
                        lemma_pos_coords((sy + ry) as int, (sx + cx) as int);
                    }
                    let cur = self.gfx[pos];
                    proof {
                        assert(!draw_flips(m0, bi, sxi, syi, rows_i, cols_i, pos as int));
                        assert(cur == g0[pos as int]);
                    }
                    if cur != 0 {
                        self.regs.set(15, 1);
                    }
                    self.gfx.set(pos, cur ^ 1);
                    proof {
                        assert forall|i: int| 0 <= i < 2048 implies self.gfx@[i] == draw_part(
                            g0,
                            m0,
                            bi,
                            sxi,
                            syi,
                            rows_i,
                            cols_i + 1,
                        )[i] by {
                            lemma_index_coords(i);
                            if i == pos {
                                assert(draw_flips(m0, bi, sxi, syi, rows_i, cols_i + 1, i));
                            } else {
                                assert(draw_flips(m0, bi, sxi, syi, rows_i, cols_i + 1, i)
                                    == draw_flips(m0, bi, sxi, syi, rows_i, cols_i, i));
                            }
                        }
                        assert(self.gfx@ =~= draw_part(g0, m0, bi, sxi, syi, rows_i, cols_i + 1));
                        // the collision flag after taking this pixel in
                        if cur != 0 {
                            assert(draw_flips(m0, bi, sxi, syi, rows_i, cols_i + 1, pos as int));
                            assert(draw_hit_part(g0, m0, bi, sxi, syi, rows_i, cols_i + 1));
                            assert(self.regs@ =~= old(self)@.regs.update(15, 1u8));
                        } else {
                            assert(draw_hit_part(g0, m0, bi, sxi, syi, rows_i, cols_i + 1)
                                == draw_hit_part(g0, m0, bi, sxi, syi, rows_i, cols_i)) by {
                                if draw_hit_part(g0, m0, bi, sxi, syi, rows_i, cols_i + 1) {
                                    let w = choose|w: int| 0 <= w < 2048 && #[trigger] draw_flips(
                                        m0,
                                        bi,
                                        sxi,
                                        syi,
                                        rows_i,
                                        cols_i + 1,
                                        w,
                                    ) && g0[w] != 0;
                                    lemma_index_coords(w);
                                    if w == pos {
                                        assert(false);
                                    } else {
                                        assert(draw_flips(m0, bi, sxi, syi, rows_i, cols_i, w));
                                        assert(draw_hit_part(g0, m0, bi, sxi, syi, rows_i, cols_i));
                                    }
                                }
                                if draw_hit_part(g0, m0, bi, sxi, syi, rows_i, cols_i) {
                                    // region growth keeps every witness
                                    let w = choose|w: int| 0 <= w < 2048 && #[trigger] draw_flips(
                                        m0,
                                        bi,
                                        sxi,
                                        syi,
                                        rows_i,
                                        cols_i,
                                        w,
                                    ) && g0[w] != 0;
                                    assert(draw_flips(m0, bi, sxi, syi, rows_i, cols_i + 1, w));
                                    assert(draw_hit_part(
                                        g0,
                                        m0,
                                        bi,
                                        sxi,
                                        syi,
                                        rows_i,
                                        cols_i + 1,
                                    ));
                                }
                            }
                        }
                    }
                } else {
                    proof {
                        assert forall|i: int| 0 <= i < 2048 implies self.gfx@[i] == draw_part(
                            g0,
                            m0,
                            bi,
                            sxi,
                            syi,
                            rows_i,
                            cols_i + 1,
                        )[i] by {
                            assert(draw_flips(m0, bi, sxi, syi, rows_i, cols_i + 1, i)
                                == draw_flips(m0, bi, sxi, syi, rows_i, cols_i, i));
                        }
                        assert(self.gfx@ =~= draw_part(g0, m0, bi, sxi, syi, rows_i, cols_i + 1));
                        assert(draw_hit_part(g0, m0, bi, sxi, syi, rows_i, cols_i + 1)
                            == draw_hit_part(g0, m0, bi, sxi, syi, rows_i, cols_i)) by {
                            if draw_hit_part(g0, m0, bi, sxi, syi, rows_i, cols_i + 1) {
                                let w = choose|w: int| 0 <= w < 2048 && #[trigger] draw_flips(
                                    m0,
                                    bi,
                                    sxi,
                                    syi,
                                    rows_i,
                                    cols_i + 1,
                                    w,
                                ) && g0[w] != 0;
                                assert(draw_flips(m0, bi, sxi, syi, rows_i, cols_i, w));
                                assert(draw_hit_part(g0, m0, bi, sxi, syi, rows_i, cols_i));
                            }
                            if draw_hit_part(g0, m0, bi, sxi, syi, rows_i, cols_i) {
                                let w = choose|w: int| 0 <= w < 2048 && #[trigger] draw_flips(
                                    m0,
                                    bi,
                                    sxi,
                                    syi,
                                    rows_i,
                                    cols_i,
                                    w,
                                ) && g0[w] != 0;
                                assert(draw_flips(m0, bi, sxi, syi, rows_i, cols_i + 1, w));
                                assert(draw_hit_part(g0, m0, bi, sxi, syi, rows_i, cols_i + 1));
                            }
                        }
                    }
                }
                cx = cx + 1;
            }
            // the finished row covers the same pixels as starting the next row
            proof {
                let ghost rows_i = ry as int;
                let ghost cxf = cx as int;
                let ghost bi = base as int;
                let ghost sxi = sx as int;
                let ghost syi = sy as int;
                assert forall|i: int| 0 <= i < 2048 implies draw_flips(
                    m0,
                    bi,
                    sxi,
                    syi,
                    rows_i,
                    cxf,
                    i,
                ) == draw_flips(m0, bi, sxi, syi, rows_i + 1, 0, i) by {
                    lemma_index_coords(i);
                }
                assert(self.gfx@ =~= draw_part(g0, m0, bi, sxi, syi, rows_i + 1, 0));
                assert(draw_hit_part(g0, m0, bi, sxi, syi, rows_i, cxf) == draw_hit_part(
                    g0,
                    m0,
                    bi,
                    sxi,
                    syi,
                    rows_i + 1,
                    0,
                )) by {
                    if draw_hit_part(g0, m0, bi, sxi, syi, rows_i, cxf) {
                        let w = choose|w: int| 0 <= w < 2048 && #[trigger] draw_flips(
                            m0,
                            bi,
                            sxi,
                            syi,
                            rows_i,
                            cxf,
                            w,
                        ) && g0[w] != 0;
                        lemma_index_coords(w);
                        assert(draw_flips(m0, bi, sxi, syi, rows_i + 1, 0, w));
                        assert(draw_hit_part(g0, m0, bi, sxi, syi, rows_i + 1, 0));
                    }
                    if draw_hit_part(g0, m0, bi, sxi, syi, rows_i + 1, 0) {
                        let w = choose|w: int| 0 <= w < 2048 && #[trigger] draw_flips(
                            m0,
                            bi,
                            sxi,
                            syi,
                            rows_i + 1,
                            0,
                            w,
                        ) && g0[w] != 0;
                        lemma_index_coords(w);
                        assert(draw_flips(m0, bi, sxi, syi, rows_i, cxf, w));
                        assert(draw_hit_part(g0, m0, bi, sxi, syi, rows_i, cxf));
                    }
                }
            }
            ry = ry + 1;
        }
        // rows past the screen bottom, or past the sprite height, draw nothing
        proof {
            let ghost ryf = ry as int;
            let ghost bi = base as int;
            let ghost sxi = sx as int;
            let ghost syi = sy as int;
            assert forall|i: int| 0 <= i < 2048 implies draw_flips(m0, bi, sxi, syi, ryf, 0, i)
                == draw_flips(m0, bi, sxi, syi, n as int, 0, i) by {
                lemma_index_coords(i);
            }
            assert(self.gfx@ =~= draw_part(g0, m0, bi, sxi, syi, n as int, 0));
            assert(draw_hit_part(g0, m0, bi, sxi, syi, ryf, 0) == draw_hit_part(
                g0,
                m0,
                bi,
                sxi,
                syi,
                n as int,
                0,
            )) by {
                if draw_hit_part(g0, m0, bi, sxi, syi, ryf, 0) {
                    let w = choose|w: int| 0 <= w < 2048 && #[trigger] draw_flips(
                        m0,
                        bi,
                        sxi,
                        syi,
                        ryf,
                        0,
                        w,
                    ) && g0[w] != 0;
                    lemma_index_coords(w);
                    assert(draw_flips(m0, bi, sxi, syi, n as int, 0, w));
                    assert(draw_hit_part(g0, m0, bi, sxi, syi, n as int, 0));
                }
                if draw_hit_part(g0, m0, bi, sxi, syi, n as int, 0) {
                    let w = choose|w: int| 0 <= w < 2048 && #[trigger] draw_flips(
                        m0,
                        bi,
                        sxi,
                        syi,
                        n as int,
                        0,
                        w,
                    ) && g0[w] != 0;
                    lemma_index_coords(w);
                    assert(draw_flips(m0, bi, sxi, syi, ryf, 0, w));
                    assert(draw_hit_part(g0, m0, bi, sxi, syi, ryf, 0));
                }
            }
            assert(self@ =~= exec_spec(old(self)@, Instr::Draw(x, y, n), 0));
        }
    }
}

/// Relies on rand::random: one byte from the thread-local uniform generator.
/// Nothing is promised of the value; callers state what holds for every byte.
#[verifier::external_body]
fn random_byte() -> u8 {
    rand::random::<u8>()
}

impl<H: MainLoopHandler> Emu<H> {
    /// Execute one already-fetched instruction word: decode it and apply its
    /// effect to the machine. A call or return that would leave the stack's
    /// depth range reports the fault and changes nothing; any other word
    /// executes, unrecognized patterns as a no-op.
    pub fn exec(&mut self, ins: u16) -> (r: Result<(), Fault>)
        requires
            old(self).wf(),
        ensures
            final(self).wf(),
            final(self).hz_spec() == old(self).hz_spec(),
            (match exec_fault(old(self)@, decode_spec(ins)) {
                Some(f) => r == Err::<(), Fault>(f) && final(self)@ == old(self)@,
                None => r == Ok::<(), Fault>(()) && (match decode_spec(ins) {
                    Instr::Rand(_, _) => exists|b: u8|
                        final(self)@ == exec_spec(old(self)@, decode_spec(ins), b),
                    _ => final(self)@ == exec_spec(old(self)@, decode_spec(ins), 0),
                }),
            }),
    {
        let instr = decode(ins);
        match instr {
            Instr::Cls => {
                self.gfx = zero_vec(GFX_SIZE);
                proof {
                    assert(self@ =~= exec_spec(old(self)@, instr, 0));
                }
                Ok(())
            },
            Instr::Ret => {
                if self.stack.len() == 0 {
                    Err(Fault::StackUnderflow)
                } else {
                    self.pc = self.stack.pop();
                    proof {
                        assert(self@ =~= exec_spec(old(self)@, instr, 0));
                    }
                    Ok(())
                }
            },
            Instr::Jump(nnn) => {
                self.pc = nnn;
                proof {
                    assert(self@ =~= exec_spec(old(self)@, instr, 0));
                }
                Ok(())
            },
            Instr::Call(nnn) => {
                if self.stack.len() + 1 >= STACK_CAP {
                    Err(Fault::StackOverflow)
                } else {
                    self.stack.push(self.pc);
                    self.pc = nnn;
                    proof {
                        assert(self@ =~= exec_spec(old(self)@, instr, 0));
                    }
                    Ok(())
                }
            },
            Instr::SkipEqImm(x, nn) => {
                if self.regs[x as usize] == nn {
                    self.pc = self.pc.wrapping_add(2);
                }
                proof {
                    assert(self@ =~= exec_spec(old(self)@, instr, 0));
                }
                Ok(())
            },
            Instr::SkipNeImm(x, nn) => {
                if self.regs[x as usize] != nn {
                    self.pc = self.pc.wrapping_add(2);
                }
                proof {
                    assert(self@ =~= exec_spec(old(self)@, instr, 0));
                }
                Ok(())
            },
            Instr::SkipEqReg(x, y) => {
                if self.regs[x as usize] == self.regs[y as usize] {
                    self.pc = self.pc.wrapping_add(2);
                }
                proof {
                    assert(self@ =~= exec_spec(old(self)@, instr, 0));
                }
                Ok(())
            },
            Instr::SkipNeReg(x, y) => {
                if self.regs[x as usize] != self.regs[y as usize] {
                    self.pc = self.pc.wrapping_add(2);
                }
                proof {
                    assert(self@ =~= exec_spec(old(self)@, instr, 0));
                }
                Ok(())
            },
            Instr::SetImm(x, nn) => {
                self.regs.set(x as usize, nn);
                proof {
                    assert(self@ =~= exec_spec(old(self)@, instr, 0));
                }
                Ok(())
            },
            Instr::AddImm(x, nn) => {
                let vx = self.regs[x as usize];
                self.regs.set(x as usize, vx.wrapping_add(nn));
                proof {
                    assert(self@ =~= exec_spec(old(self)@, instr, 0));
                }
                Ok(())
            },
            Instr::Copy(x, y) => {
                let vy = self.regs[y as usize];
                self.regs.set(x as usize, vy);
                proof {
                    assert(self@ =~= exec_spec(old(self)@, instr, 0));
                }
                Ok(())
            },
            Instr::Or(x, y) => {
                let v = self.regs[x as usize] | self.regs[y as usize];
                self.regs.set(x as usize, v);
                proof {
                    assert(self@ =~= exec_spec(old(self)@, instr, 0));
                }
                Ok(())
            },
            Instr::And(x, y) => {
                let v = self.regs[x as usize] & self.regs[y as usize];
                self.regs.set(x as usize, v);
                proof {
                    assert(self@ =~= exec_spec(old(self)@, instr, 0));
                }
                Ok(())
            },
            Instr::Xor(x, y) => {
                let v = self.regs[x as usize] ^ self.regs[y as usize];
                self.regs.set(x as usize, v);
                proof {
                    assert(self@ =~= exec_spec(old(self)@, instr, 0));
                }
                Ok(())
            },
            Instr::AddReg(x, y) => {
                let sum = self.regs[x as usize] as u16 + self.regs[y as usize] as u16;
                self.regs.set(
                    x as usize,
                    if sum > 255 {
                        (sum - 256) as u8
                    } else {
                        sum as u8
                    },
                );
                self.regs.set(
                    15,
                    if sum > 255 {
                        1
                    } else {
                        0
                    },
                );
                proof {
                    assert(self@ =~= exec_spec(old(self)@, instr, 0));
                }
                Ok(())
            },
            Instr::SubReg(x, y) => {
                let vx = self.regs[x as usize];
                let vy = self.regs[y as usize];
                self.regs.set(
                    x as usize,
                    if vx >= vy {
                        vx - vy
                    } else {
                        (256 + vx as u16 - vy as u16) as u8
                    },
                );
                self.regs.set(
                    15,
                    if vx >= vy {
                        1
                    } else {
                        0
                    },
                );
                proof {
                    assert(self@ =~= exec_spec(old(self)@, instr, 0));
                }
                Ok(())
            },
            Instr::SubFrom(x, y) => {
                let vx = self.regs[x as usize];
                let vy = self.regs[y as usize];
                self.regs.set(
                    x as usize,
                    if vy >= vx {
                        vy - vx
                    } else {
                        (256 + vy as u16 - vx as u16) as u8
                    },
                );
                self.regs.set(
                    15,
                    if vy >= vx {
                        1
                    } else {
                        0
                    },
                );
                proof {
                    assert(self@ =~= exec_spec(old(self)@, instr, 0));
                }
                Ok(())
            },
            Instr::Shr(x) => {
                let vx = self.regs[x as usize];
                self.regs.set(x as usize, vx >> 1u8);
                self.regs.set(15, vx & 1);
                proof {
                    assert(vx >> 1u8 == vx / 2 && (vx & 1) == vx % 2) by (bit_vector);
                    assert(self@ =~= exec_spec(old(self)@, instr, 0));
                }
                Ok(())
            },
            Instr::Shl(x) => {
                let vx = self.regs[x as usize];
                self.regs.set(x as usize, vx << 1u8);
                self.regs.set(15, vx >> 7u8);
                proof {
                    assert(vx << 1u8 == wrap8(2 * vx) && vx >> 7u8 == vx / 128) by (bit_vector);
                    assert(self@ =~= exec_spec(old(self)@, instr, 0));
                }
                Ok(())
            },
            Instr::SetIdx(nnn) => {
                self.idx_reg = nnn;
                proof {
                    assert(self@ =~= exec_spec(old(self)@, instr, 0));
                }
                Ok(())
            },
            Instr::JumpV0(nnn) => {
                self.pc = nnn + self.regs[0] as u16;
                proof {
                    assert(self@ =~= exec_spec(old(self)@, instr, 0));
                }
                Ok(())
            },
            Instr::Rand(x, nn) => {
                let b = random_byte();
                self.regs.set(x as usize, b & nn);
                proof {
                    assert(self@ =~= exec_spec(old(self)@, instr, b));
                }
                Ok(())
            },
            Instr::Draw(x, y, n) => {
                self.op_draw(x, y, n);
                Ok(())
            },
            Instr::SkipKey(x) => {
                let vx = self.regs[x as usize];
                let key = vx & 0xF;
                proof {
                    assert(vx & 0xF == vx % 16 && vx % 16 < 16) by (bit_vector);
                }
                if self.keypad.is_pressed(key) {
                    self.pc = self.pc.wrapping_add(2);
                }
                proof {
                    assert(self@ =~= exec_spec(old(self)@, instr, 0));
                }
                Ok(())
            },
            Instr::SkipNoKey(x) => {
                let vx = self.regs[x as usize];
                let key = vx & 0xF;
                proof {
                    assert(vx & 0xF == vx % 16 && vx % 16 < 16) by (bit_vector);
                }
                if !self.keypad.is_pressed(key) {
                    self.pc = self.pc.wrapping_add(2);
                }
                proof {
                    assert(self@ =~= exec_spec(old(self)@, instr, 0));
                }
                Ok(())
            },
            Instr::GetDelay(x) => {
                let v = self.delay_timer.counter();
                self.regs.set(x as usize, v);
                proof {
                    assert(self@ =~= exec_spec(old(self)@, instr, 0));
                }
                Ok(())
            },
            Instr::SetDelay(x) => {
                let vx = self.regs[x as usize];
                self.delay_timer.set_timer(vx);
                proof {
                    assert(self@ =~= exec_spec(old(self)@, instr, 0));
                }
                Ok(())
            },
            Instr::SetSound(x) => {
                let vx = self.regs[x as usize];
                self.sound_timer.set_timer(vx);
                proof {
                    assert(self@ =~= exec_spec(old(self)@, instr, 0));
                }
                Ok(())
            },
            Instr::AddIdx(x) => {
                let vx = self.regs[x as usize];
                let sum = self.idx_reg as u32 + vx as u32;
                self.regs.set(
                    15,
                    if sum > 0xFFF {
                        1
                    } else {
                        0
                    },
                );
                self.idx_reg = if sum > 0xFFFF {
                    (sum - 0x10000) as u16
                } else {
                    sum as u16
                };
                proof {
                    assert(self@ =~= exec_spec(old(self)@, instr, 0));
                }
                Ok(())
            },
            Instr::WaitKey(x) => {
                match self.keypad.get_pressed() {
                    Some(k) => {
                        self.regs.set(x as usize, k);
                    },
                    None => {
                        self.pc = self.pc.wrapping_sub(2);
                    },
                }
                proof {
                    assert(self@ =~= exec_spec(old(self)@, instr, 0));
                }
                Ok(())
            },
            Instr::FontChar(x) => {
                let vx = self.regs[x as usize];
                self.idx_reg = 0x50 + (vx as u16) * 5;
                proof {
                    assert(self@ =~= exec_spec(old(self)@, instr, 0));
                }
                Ok(())
            },
            Instr::Bcd(x) => {
                let num = self.regs[x as usize];
                let base = self.idx_reg as usize;
                if base < MEM_SIZE {
                    self.memory.set(base, num / 100);
                }
                if base + 1 < MEM_SIZE {
                    self.memory.set(base + 1, (num / 10) % 10);
                }
                if base + 2 < MEM_SIZE {
                    self.memory.set(base + 2, num % 10);
                }
                proof {
                    assert(self@ =~= exec_spec(old(self)@, instr, 0));
                }
                Ok(())
            },
            Instr::StoreRegs(x) => {
                self.op_store_regs(x);
                Ok(())
            },
            Instr::LoadRegs(x) => {
                self.op_load_regs(x);
                Ok(())
            },
            Instr::Nop => {
                Ok(())
            },
        }
    }
}

impl<H: MainLoopHandler> Emu<H> {
    /// Run one whole cycle: tick both timers, fetch and execute one
    /// instruction, then hand the framebuffer, the keypad and the tone state
    /// to the host. The keypad afterwards is whatever the host left in it; a
    /// fatal fault stops the cycle before the host callbacks run.
    pub fn cycle(&mut self) -> (r: Result<(), Fault>)
        requires
            old(self).wf(),
        ensures
            final(self).wf(),
            final(self).hz_spec() == old(self).hz_spec(),
            (match cycle_fault(old(self)@) {
                Some(f) => r == Err::<(), Fault>(f) && final(self)@ == fetch_next_spec(
                    tick_timers(old(self)@),
                ),
                None => r == Ok::<(), Fault>(()) && exists|b: u8|
                    final(self)@ == with_keys(cycle_spec(old(self)@, b), final(self)@.keys),
            }),
    {
        self.delay_timer.time();
        self.sound_timer.time();
        proof {
            assert(self@ =~= tick_timers(old(self)@));
        }
        let ghost s1 = self@;
        let ins = self.fetch();
        let ghost s2 = self@;
        proof {
            assert(ins == fetch_ins_spec(old(self)@));
        }
        let res = self.exec(ins);
        if let Err(f) = res {
            return Err(f);
        }
        let ghost s3 = self@;
        let ghost b: u8 = if decode_spec(ins) matches Instr::Rand(_, _) {
            choose|b: u8| s3 == exec_spec(s2, decode_spec(ins), b)
        } else {
            0u8
        };
        proof {
            assert(s3 == exec_spec(s2, decode_spec(ins), b));
            assert(s3 == cycle_spec(old(self)@, b));
        }
        self.main_loop_handler.render(&self.gfx);
        self.main_loop_handler.handle_key(&mut self.keypad);
        let snd = self.sound_timer.counter();
        self.main_loop_handler.beep(snd > 0);
        proof {
            crate::keypad::lemma_keypad_view_len(&self.keypad);
            assert(self@ =~= with_keys(cycle_spec(old(self)@, b), self@.keys));
        }
        Ok(())
    }

    /// Ask the host whether the run should stop after this cycle.
    pub fn wants_quit(&self) -> bool {
        self.main_loop_handler.quit()
    }
}

} // verus!

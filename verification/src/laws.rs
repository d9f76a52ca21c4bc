//! Laws of the instruction semantics, proved for every machine state over the
//! same spec functions the executable contracts use.

use vstd::prelude::*;

verus! {

use crate::emu::{
    cycle_fault, cycle_spec, decode_spec, draw_flips, draw_gfx, draw_hit, exec_fault, exec_spec,
    fetch_ins_spec, glyph_row_spec, init_view, machine_wf, wrap8, wrap16, Instr, MachineView,
};
use crate::keypad::lowest_pressed;
use crate::timer::{tick_n_spec, TimerView};

/// Setting a register from an immediate stores exactly that immediate, for
/// every state, register and value.
pub proof fn lemma_set_imm_stores(s: MachineView, x: u8, nn: u8)
    requires
        machine_wf(s),
        x < 16,
    ensures
        exec_fault(s, Instr::SetImm(x, nn)) is None,
        exec_spec(s, Instr::SetImm(x, nn), 0).regs[x as int] == nn,
{
}

/// Immediate addition wraps around at 256 and never faults or saturates: Vx
/// becomes the sum modulo 256, so a register at 0xFF stepped by 1 reads 0.
pub proof fn lemma_add_imm_wraps(s: MachineView, x: u8, nn: u8)
    requires
        machine_wf(s),
        x < 16,
    ensures
        exec_fault(s, Instr::AddImm(x, nn)) is None,
        exec_spec(s, Instr::AddImm(x, nn), 0).regs[x as int] == wrap8(s.regs[x as int] + nn),
{
}

/// Register addition leaves the wrapped sum in Vx and the carry bit in VF.
pub proof fn lemma_add_reg_carry(s: MachineView, x: u8, y: u8)
    requires
        machine_wf(s),
        x < 15,
        y < 16,
    ensures
        exec_spec(s, Instr::AddReg(x, y), 0).regs[x as int] == wrap8(
            s.regs[x as int] + s.regs[y as int],
        ),
        exec_spec(s, Instr::AddReg(x, y), 0).regs[15] == (if s.regs[x as int] + s.regs[y as int]
            > 255 {
            1u8
        } else {
            0u8
        }),
{
}

/// Register subtraction leaves the wrapped difference in Vx and the borrow
/// convention in VF: 1 exactly when no borrow occurred, 0 on a borrow.
pub proof fn lemma_sub_reg_borrow(s: MachineView, x: u8, y: u8)
    requires
        machine_wf(s),
        x < 15,
        y < 16,
    ensures
        exec_spec(s, Instr::SubReg(x, y), 0).regs[x as int] == wrap8(
            s.regs[x as int] - s.regs[y as int],
        ),
        exec_spec(s, Instr::SubReg(x, y), 0).regs[15] == (if s.regs[x as int] >= s.regs[y as int] {
            1u8
        } else {
            0u8
        }),
{
}

/// XOR-drawing the same sprite at the same spot twice restores the
/// framebuffer exactly.
pub proof fn lemma_draw_self_inverse(
    g: Seq<u8>,
    mem: Seq<u8>,
    base: int,
    sx: int,
    sy: int,
    n: int,
)
    requires
        g.len() == 2048,
    ensures
        draw_gfx(draw_gfx(g, mem, base, sx, sy, n), mem, base, sx, sy, n) == g,
{
    let g1 = draw_gfx(g, mem, base, sx, sy, n);
    assert forall|i: int| 0 <= i < 2048 implies draw_gfx(g1, mem, base, sx, sy, n)[i] == g[i] by {
        if draw_flips(mem, base, sx, sy, n, 0, i) {
            let a = g[i];
            assert(((a ^ 1) ^ 1) == a) by (bit_vector);
        }
    }
    assert(draw_gfx(g1, mem, base, sx, sy, n) =~= g);
}

/// At machine level: executing the same draw twice restores the framebuffer,
/// as long as neither coordinate register is the flag register VF, which the
/// first draw overwrites.
pub proof fn lemma_draw_twice_restores(s: MachineView, x: u8, y: u8, n: u8)
    requires
        machine_wf(s),
        x < 15,
        y < 15,
        n < 16,
    ensures
        exec_spec(exec_spec(s, Instr::Draw(x, y, n), 0), Instr::Draw(x, y, n), 0).gfx == s.gfx,
{
    let sx = s.regs[x as int] % 64;
    let sy = s.regs[y as int] % 32;
    lemma_draw_self_inverse(s.gfx, s.mem, s.idx as int, sx as int, sy as int, n as int);
}

/// Drawing into an all-dark framebuffer reports no collision.
pub proof fn lemma_draw_clear_no_hit(g: Seq<u8>, mem: Seq<u8>, base: int, sx: int, sy: int, n: int)
    requires
        g.len() == 2048,
        forall|i: int| 0 <= i < 2048 ==> g[i] == 0,
    ensures
        !draw_hit(g, mem, base, sx, sy, n),
{
    if draw_hit(g, mem, base, sx, sy, n) {
        let w = choose|w: int|
            0 <= w < 2048 && #[trigger] draw_flips(mem, base, sx, sy, n, 0, w) && g[w] != 0;
        assert(g[w] == 0);
    }
}

/// Drawing a set sprite bit onto an already lit pixel reports a collision.
pub proof fn lemma_draw_overlap_hits(
    g: Seq<u8>,
    mem: Seq<u8>,
    base: int,
    sx: int,
    sy: int,
    n: int,
    i: int,
)
    requires
        0 <= i < 2048,
        draw_flips(mem, base, sx, sy, n, 0, i),
        g[i] != 0,
    ensures
        draw_hit(g, mem, base, sx, sy, n),
{
}

/// At machine level: a draw into an all-dark framebuffer leaves VF at 0.
pub proof fn lemma_draw_clear_flag(s: MachineView, x: u8, y: u8, n: u8)
    requires
        machine_wf(s),
        x < 16,
        y < 16,
        n < 16,
        forall|i: int| 0 <= i < 2048 ==> s.gfx[i] == 0,
    ensures
        exec_spec(s, Instr::Draw(x, y, n), 0).regs[15] == 0,
{
    let sx = s.regs[x as int] % 64;
    let sy = s.regs[y as int] % 32;
    lemma_draw_clear_no_hit(s.gfx, s.mem, s.idx as int, sx as int, sy as int, n as int);
}

/// A call followed at once by a return neither faults (given room for one
/// more frame) nor disturbs the machine: the program counter comes back to
/// the instruction after the call site and the stack is as before.
pub proof fn lemma_call_ret_round_trip(s: MachineView, nnn: u16)
    requires
        machine_wf(s),
        s.stack.len() + 1 < 64,
    ensures
        exec_fault(s, Instr::Call(nnn)) is None,
        ({
            let s1 = exec_spec(s, Instr::Call(nnn), 0);
            &&& s1.pc == nnn
            &&& exec_fault(s1, Instr::Ret) is None
            &&& exec_spec(s1, Instr::Ret, 0).pc == s.pc
            &&& exec_spec(s1, Instr::Ret, 0).stack == s.stack
        }),
{
    assert(s.stack.push(s.pc).drop_last() =~= s.stack);
}

/// The accumulator of a fresh unit counter grows by one per tick until the
/// period fills.
proof fn lemma_timer_acc(p: u32, k: nat)
    requires
        p > 0,
        k < p,
    ensures
        tick_n_spec(TimerView { counter: 1, period: p, acc: 0 }, k) == (TimerView {
            counter: 1,
            period: p,
            acc: k as u32,
        }),
    decreases k,
{
    if k > 0 {
        lemma_timer_acc(p, (k - 1) as nat);
    }
}

/// A timer with period `p` and counter 1 still reads 1 after any fewer than
/// `p` ticks and reads exactly 0 after the `p`-th tick; an 8-bit counter
/// never goes below zero.
pub proof fn lemma_timer_decay(p: u32, k: nat)
    requires
        p > 0,
    ensures
        k < p ==> tick_n_spec(TimerView { counter: 1, period: p, acc: 0 }, k).counter == 1,
        tick_n_spec(TimerView { counter: 1, period: p, acc: 0 }, p as nat).counter == 0,
        tick_n_spec(TimerView { counter: 1, period: p, acc: 0 }, p as nat).acc == 0,
{
    if k < p {
        lemma_timer_acc(p, k);
    }
    lemma_timer_acc(p, (p - 1) as nat);
}

/// While no key is pressed, a wait-for-key instruction holds the program
/// counter in place across a whole cycle and leaves the registers alone, so
/// the same instruction is fetched again next cycle.
pub proof fn lemma_wait_key_blocks(s: MachineView, x: u8, b: u8)
    requires
        machine_wf(s),
        x < 16,
        decode_spec(fetch_ins_spec(s)) == Instr::WaitKey(x),
        lowest_pressed(s.keys) is None,
    ensures
        cycle_fault(s) is None,
        cycle_spec(s, b).pc == s.pc,
        cycle_spec(s, b).regs == s.regs,
{
    assert(wrap16(wrap16(s.pc + 2) - 2) == s.pc);
}

/// Once a key is pressed, the wait resolves in one cycle: Vx receives the
/// lowest pressed key code and the program counter moves on normally.
pub proof fn lemma_wait_key_resolves(s: MachineView, x: u8, b: u8, k: u8)
    requires
        machine_wf(s),
        x < 16,
        decode_spec(fetch_ins_spec(s)) == Instr::WaitKey(x),
        lowest_pressed(s.keys) == Some(k),
    ensures
        cycle_fault(s) is None,
        cycle_spec(s, b).regs[x as int] == k,
        cycle_spec(s, b).pc == wrap16(s.pc + 2),
{
}

/// The font instruction addresses glyphs five bytes apart from the font
/// base: I becomes 0x50 + 5 * Vx.
pub proof fn lemma_font_char_addr(s: MachineView, x: u8, d: u8)
    requires
        machine_wf(s),
        x < 16,
        s.regs[x as int] == d,
    ensures
        exec_fault(s, Instr::FontChar(x)) is None,
        exec_spec(s, Instr::FontChar(x), 0).idx == 0x50 + 5 * d,
{
}

/// A fresh machine holds the canonical glyph bitmaps: row `r` of digit `d`
/// lies at address 0x50 + 5 * d + r.
pub proof fn lemma_initial_font(hz: u32, d: int, r: int)
    requires
        0 <= d < 16,
        0 <= r < 5,
    ensures
        init_view(hz).mem[0x50 + 5 * d + r] == glyph_row_spec(d, r),
{
    vstd::arithmetic::div_mod::lemma_fundamental_div_mod_converse_div(5 * d + r, 5, d, r);
    vstd::arithmetic::div_mod::lemma_fundamental_div_mod_converse_mod(5 * d + r, 5, d, r);
}

} // verus!

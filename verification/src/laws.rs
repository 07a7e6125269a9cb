use vstd::prelude::*;
use vstd::arithmetic::div_mod::lemma_mod_multiples_vanish;
use crate::MEM_SIZE;
use crate::decode::{Instr, decode_spec};
use crate::semantics::{
    Fault, bit_at, col_off, draw_collision, draw_pix, flat_rel, lemma_wrap_coords, pix_index,
    row_off, step_rel,
};
use crate::state::{State, loaded_mem};

verus! {

/// Law: adding register Vy into Vx wraps modulo 256 and sets VF to 1
/// exactly when the true sum exceeds 255. Stated for any target
/// register other than VF itself, which the flag write overwrites.
pub proof fn lemma_add_carry(pre: State, post: State, x: u8, y: u8, r: Result<(), Fault>)
    requires
        pre.wf(),
        x < 16,
        y < 16,
        x != 15,
        flat_rel(pre, post, Instr::Add(x, y), r),
    ensures
        r == Ok::<(), Fault>(()),
        post.regs[x as int] == (pre.regs[x as int] + pre.regs[y as int]) % 256,
        post.regs[15] == (if pre.regs[x as int] + pre.regs[y as int] > 255 { 1u8 } else { 0u8 }),
        post.pc == pre.pc + 2,
{
}

/// Law: subtracting register Vy from Vx wraps modulo 256 (no fault on
/// underflow) and clears VF exactly when Vy > Vx. Stated for any
/// target register other than VF itself, which the flag write
/// overwrites.
pub proof fn lemma_sub_borrow(pre: State, post: State, x: u8, y: u8, r: Result<(), Fault>)
    requires
        pre.wf(),
        x < 16,
        y < 16,
        x != 15,
        flat_rel(pre, post, Instr::Sub(x, y), r),
    ensures
        r == Ok::<(), Fault>(()),
        post.regs[x as int] == (pre.regs[x as int] - pre.regs[y as int]) % 256,
        post.regs[15] == (if pre.regs[y as int] > pre.regs[x as int] { 0u8 } else { 1u8 }),
        post.pc == pre.pc + 2,
{
    let a = pre.regs[x as int] as int;
    let b = pre.regs[y as int] as int;
    lemma_mod_multiples_vanish(1, a - b, 256);
    assert(256 * 1 + (a - b) == a + 256 - b);
}

/// Law: a conditional skip on an immediate advances pc by 4 when its
/// condition holds and by 2 otherwise, and changes nothing else.
pub proof fn lemma_skip_imm(pre: State, post: State, x: u8, kk: u8, eq: bool, r: Result<(), Fault>)
    requires
        pre.wf(),
        x < 16,
        flat_rel(pre, post, if eq { Instr::SkipEqImm(x, kk) } else { Instr::SkipNeImm(x, kk) }, r),
    ensures
        r == Ok::<(), Fault>(()),
        (if eq == (pre.regs[x as int] == kk) { post.pc == pre.pc + 4 } else { post.pc == pre.pc + 2 }),
        post == (State { pc: post.pc, ..pre }),
{
}

/// Law: drawing a sprite on a cleared screen reproduces exactly the
/// sprite's bit pattern (XOR with zero), pixel for pixel, and reports
/// no collision.
pub proof fn lemma_draw_on_clear(pre: State, post: State, rx: u8, ry: u8, n: u8, r: Result<(), Fault>)
    requires
        pre.wf(),
        rx < 16,
        ry < 16,
        n < 16,
        n > 0 ==> pre.index + n <= MEM_SIZE,
        forall|p: int| 0 <= p < 2048 ==> pre.screen[p] == 0,
        flat_rel(pre, post, Instr::Draw(rx, ry, n), r),
    ensures
        r == Ok::<(), Fault>(()),
        post.regs[15] == 0,
        forall|row: int, b: int| 0 <= row < n && 0 <= b < 8
            ==> post.screen[pix_index(pre.regs[rx as int], pre.regs[ry as int], row, b)]
                == bit_at(pre.mem[pre.index + row], (7 - b) as u8),
{
    let x0 = pre.regs[rx as int];
    let y0 = pre.regs[ry as int];
    assert(!draw_collision(pre, x0, y0, n)) by {
        if draw_collision(pre, x0, y0, n) {
            let p = choose|p: int|
                0 <= p < pre.screen.len() && pre.screen[p] == 1
                && #[trigger] draw_pix(pre, x0, y0, n, p) == 0;
        }
    }
    assert forall|row: int, b: int| 0 <= row < n && 0 <= b < 8 implies
        post.screen[pix_index(x0, y0, row, b)]
            == bit_at(pre.mem[pre.index + row], (7 - b) as u8) by {
        lemma_wrap_coords(x0, y0, row, b);
        let q = pix_index(x0, y0, row, b);
        let bv = bit_at(pre.mem[pre.index + row], (7 - b) as u8);
        assert(post.screen[q] == (pre.screen[q] ^ bv) as u8);
        assert((0u8 ^ bv) == bv) by (bit_vector);
    }
}

/// Law: drawing the same nonblank sprite twice at the same position
/// restores a cleared screen to all zero (XOR drawing is
/// self-erasing) and the second draw reports a collision in VF.
/// Stated for position registers other than VF, which the first
/// draw's flag write overwrites.
pub proof fn lemma_draw_twice_erases(
    s0: State,
    s1: State,
    s2: State,
    rx: u8,
    ry: u8,
    n: u8,
    r1: Result<(), Fault>,
    r2: Result<(), Fault>,
)
    requires
        s0.wf(),
        s1.wf(),
        rx < 16,
        ry < 16,
        rx != 15,
        ry != 15,
        n < 16,
        n > 0 ==> s0.index + n <= MEM_SIZE,
        forall|p: int| 0 <= p < 2048 ==> s0.screen[p] == 0,
        exists|row: int, b: int|
            0 <= row < n && 0 <= b < 8
            && #[trigger] bit_at(s0.mem[s0.index + row], (7 - b) as u8) == 1,
        flat_rel(s0, s1, Instr::Draw(rx, ry, n), r1),
        flat_rel(s1, s2, Instr::Draw(rx, ry, n), r2),
    ensures
        r1 == Ok::<(), Fault>(()),
        r2 == Ok::<(), Fault>(()),
        forall|p: int| 0 <= p < 2048 ==> s2.screen[p] == 0,
        s2.regs[15] == 1,
{
    let x0 = s0.regs[rx as int];
    let y0 = s0.regs[ry as int];
    assert(s1.regs[rx as int] == x0 && s1.regs[ry as int] == y0);
    assert(s1.mem == s0.mem && s1.index == s0.index);
    assert forall|p: int| 0 <= p < 2048 implies s2.screen[p] == 0 by {
        let a = s0.screen[p];
        let b1 = s1.screen[p];
        assert(b1 == draw_pix(s0, x0, y0, n, p));
        assert(s2.screen[p] == draw_pix(s1, x0, y0, n, p));
        if draw_pix(s0, x0, y0, n, p) == s0.screen[p] {
            assert(s2.screen[p] == s1.screen[p]);
        } else {
            let ro = row_off(y0, p);
            let bv = bit_at(s0.mem[s0.index + ro], (7 - col_off(x0, p)) as u8);
            assert(b1 == (a ^ bv) as u8);
            assert(s2.screen[p] == (b1 ^ bv) as u8);
            assert(((a ^ bv) ^ bv) == a) by (bit_vector);
        }
    }
    let (row, b): (int, int) = choose|row: int, b: int|
        0 <= row < n && 0 <= b < 8
        && #[trigger] bit_at(s0.mem[s0.index + row], (7 - b) as u8) == 1;
    lemma_wrap_coords(x0, y0, row, b);
    let q = pix_index(x0, y0, row, b);
    let bv = bit_at(s0.mem[s0.index + row], (7 - b) as u8);
    assert(s1.screen[q] == (s0.screen[q] ^ bv) as u8);
    assert((0u8 ^ 1u8) == 1u8) by (bit_vector);
    assert((1u8 ^ 1u8) == 0u8) by (bit_vector);
    assert(draw_pix(s1, x0, y0, n, q) == (s1.screen[q] ^ bv) as u8);
    assert(draw_collision(s1, x0, y0, n));
}

/// Law: a call's push-and-jump followed by a return puts pc at the
/// instruction immediately after the call and restores the call stack,
/// whatever depth the stack already has (so in particular at any
/// nesting depth), touching nothing else.
pub proof fn lemma_call_then_ret(
    s0: State,
    s1: State,
    s2: State,
    a: u16,
    r1: Result<(), Fault>,
    r2: Result<(), Fault>,
)
    requires
        s0.wf(),
        flat_rel(s0, s1, Instr::Call(a), r1),
        flat_rel(s1, s2, Instr::Ret, r2),
    ensures
        r1 == Ok::<(), Fault>(()),
        r2 == Ok::<(), Fault>(()),
        s2.pc == s0.pc + 2,
        s2 == (State { pc: s0.pc + 2, ..s0 }),
{
    assert(s1.stack.len() == s0.stack.len() + 1);
    assert(s1.stack.last() == s0.pc as usize);
    assert(s2.stack =~= s0.stack);
    assert(s2 =~= (State { pc: s0.pc + 2, ..s0 }));
}

/// Law: an instruction word that matches no supported pattern halts
/// the step with that word as the diagnostic and leaves the whole
/// machine state exactly as it was.
pub proof fn lemma_unknown_opcode_halts(pre: State, post: State, op: u16, r: Result<(), Fault>)
    requires
        decode_spec(op) is None,
        step_rel(pre, post, op, r),
    ensures
        r == Err::<(), Fault>(Fault::UnknownOpcode(op)),
        post == pre,
{
}

/// Law: loading a ROM image, however long, never writes outside the
/// ROM window: memory keeps its size and every byte below 0x200 is
/// untouched.
pub proof fn lemma_load_stays_in_bounds(mem: Seq<u8>, rom: Seq<u8>)
    requires
        mem.len() == MEM_SIZE,
    ensures
        loaded_mem(mem, rom).len() == MEM_SIZE,
        forall|j: int| 0 <= j < 0x200 ==> loaded_mem(mem, rom)[j] == mem[j],
{
}

} // verus!

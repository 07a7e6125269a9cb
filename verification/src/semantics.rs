use vstd::prelude::*;
use vstd::arithmetic::div_mod::{
    lemma_fundamental_div_mod, lemma_fundamental_div_mod_converse, lemma_mod_bound,
    lemma_mod_multiples_vanish, lemma_small_mod,
};
use crate::MEM_SIZE;
use crate::decode::{Instr, decode_spec};
use crate::state::{State, word_at};

verus! {

/// The conditions under which a run stops. All of them are final:
/// nothing recovers from a fault.
#[derive(Clone, Copy, PartialEq, Eq, Structural, Debug)]
pub enum Fault {
    /// The instruction word matches none of the supported patterns.
    UnknownOpcode(u16),
    /// A return was executed with an empty call stack.
    EmptyStack,
    /// The program counter does not point at two readable bytes.
    PcOutOfRange,
    /// An instruction would read or write memory past its end.
    MemOutOfRange,
    /// A key-test instruction named a key index above 15.
    KeyOutOfRange,
    /// A glyph lookup named a digit above 15.
    DigitOutOfRange,
}

/// Bit `k` (0 = least significant) of a sprite row, as a 0/1 pixel.
pub open spec fn bit_at(line: u8, k: u8) -> u8 {
    (line >> k) & 1
}

/// Framebuffer index of the pixel a sprite row/column pair lands on:
/// both coordinates wrap around their axis.
pub open spec fn pix_index(x0: u8, y0: u8, row: int, b: int) -> int {
    ((y0 + row) % 32) * 64 + (x0 + b) % 64
}

/// Sprite row this pixel receives, if any: the unique row offset in
/// [0, 32) that wraps onto the pixel's screen row.
pub open spec fn row_off(y0: u8, p: int) -> int {
    (p / 64 - (y0 as int) % 32 + 32) % 32
}

/// Sprite column this pixel receives, if any: the unique column offset
/// in [0, 64) that wraps onto the pixel's screen column.
pub open spec fn col_off(x0: u8, p: int) -> int {
    (p % 64 - (x0 as int) % 64 + 64) % 64
}

/// Value of pixel `p` after the draw has covered the first `rows` full
/// sprite rows plus the first `bcols` columns of row `rows`: a pixel
/// the sprite reaches is XORed with its sprite bit, all others keep
/// their value. Columns count from the sprite's left, which holds the
/// most significant bit of its row byte.
pub open spec fn draw_pix_upto(pre: State, x0: u8, y0: u8, rows: int, bcols: int, p: int) -> u8 {
    let ro = row_off(y0, p);
    let co = col_off(x0, p);
    if co < 8 && (ro < rows || (ro == rows && co < bcols)) {
        pre.screen[p] ^ bit_at(pre.mem[pre.index + ro], (7 - co) as u8)
    } else {
        pre.screen[p]
    }
}

/// Value of pixel `p` after an n-row sprite draw.
pub open spec fn draw_pix(pre: State, x0: u8, y0: u8, n: u8, p: int) -> u8 {
    draw_pix_upto(pre, x0, y0, n as int, 0, p)
}

/// Whether the draw turns some set pixel unset: that is what the
/// collision flag reports.
pub open spec fn draw_collision(pre: State, x0: u8, y0: u8, n: u8) -> bool {
    exists|p: int|
        0 <= p < pre.screen.len() && pre.screen[p] == 1 && #[trigger] draw_pix(pre, x0, y0, n, p) == 0
}

/// Index of the first pressed key at or after `k`, if any.
pub open spec fn first_key_from(keys: Seq<u8>, k: int) -> Option<int>
    decreases 16 - k,
{
    if k < 0 || k >= 16 {
        None
    } else if keys[k] == 1 {
        Some(k)
    } else {
        first_key_from(keys, k + 1)
    }
}

/// The pixel a sprite row/column pair lands on is inside the
/// framebuffer, and it reads back exactly that row and column offset:
/// wrapping is a bijection between sprite cells and the pixels they
/// touch.
pub proof fn lemma_wrap_coords(x0: u8, y0: u8, row: int, b: int)
    requires
        0 <= row < 32,
        0 <= b < 64,
    ensures
        0 <= pix_index(x0, y0, row, b) < 2048,
        row_off(y0, pix_index(x0, y0, row, b)) == row,
        col_off(x0, pix_index(x0, y0, row, b)) == b,
{
    let yb = (y0 as int) % 32;
    let xb = (x0 as int) % 64;
    let sy = (y0 + row) % 32;
    let sx = (x0 + b) % 64;
    lemma_mod_bound(y0 as int, 32);
    lemma_mod_bound(x0 as int, 64);
    lemma_mod_bound(y0 + row, 32);
    lemma_mod_bound(x0 + b, 64);
    let p = sy * 64 + sx;
    lemma_fundamental_div_mod_converse(p, 64, sy, sx);
    lemma_fundamental_div_mod(y0 + row, 32);
    lemma_fundamental_div_mod(y0 as int, 32);
    let t = (y0 as int) / 32 - (y0 + row) / 32 + 1;
    assert(sy - yb + 32 == 32 * t + row);
    lemma_mod_multiples_vanish(t, row, 32);
    lemma_small_mod(row as nat, 32);
    assert(row_off(y0, p) == row);
    lemma_fundamental_div_mod(x0 + b, 64);
    lemma_fundamental_div_mod(x0 as int, 64);
    let u = (x0 as int) / 64 - (x0 + b) / 64 + 1;
    assert(sx - xb + 64 == 64 * u + b);
    lemma_mod_multiples_vanish(u, b, 64);
    lemma_small_mod(b as nat, 64);
    assert(col_off(x0, p) == b);
}

/// Conversely, every pixel is the landing spot of its own row and
/// column offsets: no two distinct sprite cells share a pixel.
pub proof fn lemma_coord_unique(x0: u8, y0: u8, p: int)
    requires
        0 <= p < 2048,
    ensures
        0 <= row_off(y0, p) < 32,
        0 <= col_off(x0, p) < 64,
        pix_index(x0, y0, row_off(y0, p), col_off(x0, p)) == p,
{
    let sy = p / 64;
    let sx = p % 64;
    lemma_fundamental_div_mod(p, 64);
    lemma_mod_bound(p, 64);
    assert(0 <= sy < 32);
    let yb = (y0 as int) % 32;
    let xb = (x0 as int) % 64;
    lemma_mod_bound(y0 as int, 32);
    lemma_mod_bound(x0 as int, 64);
    let ro = (sy - yb + 32) % 32;
    let co = (sx - xb + 64) % 64;
    lemma_mod_bound(sy - yb + 32, 32);
    lemma_mod_bound(sx - xb + 64, 64);
    lemma_fundamental_div_mod(sy - yb + 32, 32);
    lemma_fundamental_div_mod(y0 as int, 32);
    let m = (y0 as int) / 32 + 1 - (sy - yb + 32) / 32;
    assert(y0 + ro == 32 * m + sy);
    lemma_mod_multiples_vanish(m, sy, 32);
    lemma_small_mod(sy as nat, 32);
    assert((y0 + ro) % 32 == sy);
    lemma_fundamental_div_mod(sx - xb + 64, 64);
    lemma_fundamental_div_mod(x0 as int, 64);
    let w = (x0 as int) / 64 + 1 - (sx - xb + 64) / 64;
    assert(x0 + co == 64 * w + sx);
    lemma_mod_multiples_vanish(w, sx, 64);
    lemma_small_mod(sx as nat, 64);
    assert((x0 + co) % 64 == sx);
}

/// One draw step: XORing the sprite bit for cell (row, b) into the
/// pixel it lands on advances the partial-draw picture by one column,
/// and a set pixel goes unset in the new picture exactly when it did
/// before or does so at this cell.
#[verifier::rlimit(100)]
pub proof fn lemma_draw_advance(pre: State, x0: u8, y0: u8, n: u8, row: int, b: int, scr: Seq<u8>)
    requires
        pre.wf(),
        n < 16,
        0 <= row < n,
        0 <= b < 8,
        pre.index + n <= MEM_SIZE,
        scr.len() == 2048,
        forall|p: int| 0 <= p < 2048 ==> scr[p] == draw_pix_upto(pre, x0, y0, row, b, p),
    ensures
        ({
            let q = pix_index(x0, y0, row, b);
            let bitv = bit_at(pre.mem[pre.index + row], (7 - b) as u8);
            let scr2 = scr.update(q, (scr[q] ^ bitv) as u8);
            &&& 0 <= q < 2048
            &&& scr[q] == pre.screen[q]
            &&& (forall|p: int| 0 <= p < 2048 ==> scr2[p] == draw_pix_upto(pre, x0, y0, row, b + 1, p))
            &&& ((exists|p: int|
                    0 <= p < 2048 && pre.screen[p] == 1
                    && #[trigger] draw_pix_upto(pre, x0, y0, row, b + 1, p) == 0)
                <==> ((exists|p: int|
                        0 <= p < 2048 && pre.screen[p] == 1
                        && #[trigger] draw_pix_upto(pre, x0, y0, row, b, p) == 0)
                    || (pre.screen[q] == 1 && (pre.screen[q] ^ bitv) == 0)))
        }),
{
    let q = pix_index(x0, y0, row, b);
    lemma_wrap_coords(x0, y0, row, b);
    let bitv = bit_at(pre.mem[pre.index + row], (7 - b) as u8);
    let scr2 = scr.update(q, (scr[q] ^ bitv) as u8);
    assert(draw_pix_upto(pre, x0, y0, row, b, q) == pre.screen[q]);
    assert forall|p: int| 0 <= p < 2048 implies
        scr2[p] == draw_pix_upto(pre, x0, y0, row, b + 1, p) by {
        lemma_coord_unique(x0, y0, p);
        if p == q {
            assert(scr2[p] == (pre.screen[q] ^ bitv) as u8);
            assert(draw_pix_upto(pre, x0, y0, row, b + 1, q)
                == (pre.screen[q] ^ bitv) as u8);
        } else {
            assert(!(row_off(y0, p) == row && col_off(x0, p) == b));
        }
    }
    if exists|p: int|
        0 <= p < 2048 && pre.screen[p] == 1
        && #[trigger] draw_pix_upto(pre, x0, y0, row, b + 1, p) == 0 {
        let p = choose|p: int|
            0 <= p < 2048 && pre.screen[p] == 1
            && #[trigger] draw_pix_upto(pre, x0, y0, row, b + 1, p) == 0;
        if p == q {
            assert(pre.screen[q] == 1 && (pre.screen[q] ^ bitv) == 0);
        } else {
            assert(draw_pix_upto(pre, x0, y0, row, b, p)
                == draw_pix_upto(pre, x0, y0, row, b + 1, p));
        }
    }
    if exists|p: int|
        0 <= p < 2048 && pre.screen[p] == 1
        && #[trigger] draw_pix_upto(pre, x0, y0, row, b, p) == 0 {
        let p = choose|p: int|
            0 <= p < 2048 && pre.screen[p] == 1
            && #[trigger] draw_pix_upto(pre, x0, y0, row, b, p) == 0;
        assert(p != q);
        assert(draw_pix_upto(pre, x0, y0, row, b + 1, p) == 0);
    }
    if pre.screen[q] == 1 && (pre.screen[q] ^ bitv) == 0 {
        assert(draw_pix_upto(pre, x0, y0, row, b + 1, q) == (pre.screen[q] ^ bitv) as u8);
    }
}

/// Finishing the eighth column of a row is the same picture as
/// starting the next row.
pub proof fn lemma_draw_row_boundary(pre: State, x0: u8, y0: u8, row: int)
    ensures
        forall|p: int| #![trigger draw_pix_upto(pre, x0, y0, row, 8, p)]
            draw_pix_upto(pre, x0, y0, row, 8, p) == draw_pix_upto(pre, x0, y0, row + 1, 0, p),
{
}

/// The state right after a call's push-and-jump, before the
/// instruction at the target runs.
pub open spec fn call_setup(s: State, a: u16) -> State {
    State { pc: a as int, stack: s.stack.push(s.pc as usize), ..s }
}

/// The fault a single (non-nesting) instruction raises, if any. A
/// faulting instruction changes nothing.
pub open spec fn flat_fault(s: State, ins: Instr) -> Option<Fault> {
    match ins {
        Instr::Ret => if s.stack.len() == 0 {
            Some(Fault::EmptyStack)
        } else {
            None
        },
        Instr::Draw(_x, _y, n) => if n > 0 && s.index + n > MEM_SIZE {
            Some(Fault::MemOutOfRange)
        } else {
            None
        },
        Instr::SkipKey(x) => if s.regs[x as int] >= 16 {
            Some(Fault::KeyOutOfRange)
        } else {
            None
        },
        Instr::SkipNoKey(x) => if s.regs[x as int] >= 16 {
            Some(Fault::KeyOutOfRange)
        } else {
            None
        },
        Instr::Glyph(x) => if s.regs[x as int] >= 16 {
            Some(Fault::DigitOutOfRange)
        } else {
            None
        },
        Instr::Bcd(_x) => if s.index + 3 > MEM_SIZE {
            Some(Fault::MemOutOfRange)
        } else {
            None
        },
        Instr::Load(x) => if s.index + x + 1 > MEM_SIZE {
            Some(Fault::MemOutOfRange)
        } else {
            None
        },
        _ => None,
    }
}

/// Effect of a single instruction that raises no fault. The call
/// variant covers only its push-and-jump here; the nesting it causes
/// is part of `step_rel`. Only the random-byte instruction leaves the
/// result underdetermined: it holds for some byte.
pub open spec fn flat_post(pre: State, post: State, ins: Instr) -> bool {
    match ins {
        Instr::Cls => post == State {
            screen: Seq::new(pre.screen.len(), |p: int| 0u8),
            pc: pre.pc + 2,
            ..pre
        },
        Instr::Ret => post == State {
            pc: pre.stack.last() + 2,
            stack: pre.stack.drop_last(),
            ..pre
        },
        Instr::Jump(a) => post == State { pc: a as int, ..pre },
        Instr::Call(a) => post == call_setup(pre, a),
        Instr::SkipEqImm(x, kk) => post == State {
            pc: pre.pc + (if pre.regs[x as int] == kk { 4int } else { 2int }),
            ..pre
        },
        Instr::SkipNeImm(x, kk) => post == State {
            pc: pre.pc + (if pre.regs[x as int] != kk { 4int } else { 2int }),
            ..pre
        },
        Instr::SetImm(x, kk) => post == State {
            regs: pre.regs.update(x as int, kk),
            pc: pre.pc + 2,
            ..pre
        },
        Instr::AddImm(x, kk) => post == State {
            regs: pre.regs.update(x as int, ((pre.regs[x as int] + kk) % 256) as u8),
            pc: pre.pc + 2,
            ..pre
        },
        Instr::Copy(x, y) => post == State {
            regs: pre.regs.update(x as int, pre.regs[y as int]),
            pc: pre.pc + 2,
            ..pre
        },
        Instr::Or(x, y) => post == State {
            regs: pre.regs.update(x as int, pre.regs[x as int] | pre.regs[y as int]),
            pc: pre.pc + 2,
            ..pre
        },
        Instr::And(x, y) => post == State {
            regs: pre.regs.update(x as int, pre.regs[x as int] & pre.regs[y as int]),
            pc: pre.pc + 2,
            ..pre
        },
        Instr::Xor(x, y) => post == State {
            regs: pre.regs.update(x as int, pre.regs[x as int] ^ pre.regs[y as int]),
            pc: pre.pc + 2,
            ..pre
        },
        Instr::Add(x, y) => post == State {
            regs: pre.regs
                .update(x as int, ((pre.regs[x as int] + pre.regs[y as int]) % 256) as u8)
                .update(15, if pre.regs[x as int] + pre.regs[y as int] > 255 { 1u8 } else { 0u8 }),
            pc: pre.pc + 2,
            ..pre
        },
        Instr::Sub(x, y) => post == State {
            regs: pre.regs
                .update(x as int, ((pre.regs[x as int] + 256 - pre.regs[y as int]) % 256) as u8)
                .update(15, if pre.regs[y as int] > pre.regs[x as int] { 0u8 } else { 1u8 }),
            pc: pre.pc + 2,
            ..pre
        },
        Instr::Shr(x) => {
            let r1 = pre.regs.update(15, pre.regs[x as int] & 1);
            post == State {
                regs: r1.update(x as int, r1[x as int] >> 1u8),
                pc: pre.pc + 2,
                ..pre
            }
        },
        Instr::SetIndex(a) => post == State { index: a as int, pc: pre.pc + 2, ..pre },
        Instr::Rand(x, kk) => exists|rb: u8| post == State {
            regs: pre.regs.update(x as int, #[trigger] (rb & kk)),
            pc: pre.pc + 2,
            ..pre
        },
        Instr::Draw(x, y, n) => {
            let x0 = pre.regs[x as int];
            let y0 = pre.regs[y as int];
            post == State {
                screen: Seq::new(pre.screen.len(), |p: int| draw_pix(pre, x0, y0, n, p)),
                regs: pre.regs.update(15, if draw_collision(pre, x0, y0, n) { 1u8 } else { 0u8 }),
                pc: pre.pc + 2,
                ..pre
            }
        },
        Instr::SkipKey(x) => post == State {
            pc: pre.pc + (if pre.keys[pre.regs[x as int] as int] == 1 { 4int } else { 2int }),
            ..pre
        },
        Instr::SkipNoKey(x) => post == State {
            pc: pre.pc + (if pre.keys[pre.regs[x as int] as int] == 0 { 4int } else { 2int }),
            ..pre
        },
        Instr::GetDelay(x) => post == State {
            regs: pre.regs.update(x as int, pre.delay),
            pc: pre.pc + 2,
            ..pre
        },
        Instr::WaitKey(x) => match first_key_from(pre.keys, 0) {
            Some(k) => post == State {
                regs: pre.regs.update(x as int, k as u8),
                pc: pre.pc + 2,
                ..pre
            },
            None => post == pre,
        },
        Instr::SetDelay(x) => post == State {
            delay: pre.regs[x as int],
            pc: pre.pc + 2,
            ..pre
        },
        Instr::SetSound(x) => post == State {
            sound: pre.regs[x as int],
            pc: pre.pc + 2,
            ..pre
        },
        Instr::AddIndex(x) => post == State {
            index: (pre.index + pre.regs[x as int]) % 0x10000,
            pc: pre.pc + 2,
            ..pre
        },
        Instr::Glyph(x) => post == State {
            index: pre.regs[x as int] * 5,
            pc: pre.pc + 2,
            ..pre
        },
        Instr::Bcd(x) => {
            let v = pre.regs[x as int];
            post == State {
                mem: pre.mem
                    .update(pre.index, (v / 100) as u8)
                    .update(pre.index + 1, ((v / 10) % 10) as u8)
                    .update(pre.index + 2, (v % 10) as u8),
                pc: pre.pc + 2,
                ..pre
            }
        },
        Instr::Load(x) => post == State {
            regs: Seq::new(16, |j: int|
                if j <= x { pre.mem[pre.index + j] } else { pre.regs[j] }),
            pc: pre.pc + 2,
            ..pre
        },
    }
}

/// A single instruction either raises exactly its fault and changes
/// nothing, or succeeds with the effect `flat_post` gives.
pub open spec fn flat_rel(pre: State, post: State, ins: Instr, r: Result<(), Fault>) -> bool {
    match flat_fault(pre, ins) {
        Some(f) => r == Err::<(), Fault>(f) && post == pre,
        None => r == Ok::<(), Fault>(()) && flat_post(pre, post, ins),
    }
}

/// Full effect of executing one instruction word: an unknown word
/// faults with itself as the diagnostic and changes nothing; a call
/// performs its push-and-jump and then the instruction at the target
/// nests within the same step (a nested call performs only its
/// push-and-jump); every other instruction acts alone.
pub open spec fn step_rel(pre: State, post: State, op: u16, r: Result<(), Fault>) -> bool {
    match decode_spec(op) {
        None => r == Err::<(), Fault>(Fault::UnknownOpcode(op)) && post == pre,
        Some(Instr::Call(a)) => {
            let s1 = call_setup(pre, a);
            if a as int + 1 < MEM_SIZE {
                let w = word_at(pre.mem, a as int);
                match decode_spec(w) {
                    None => r == Err::<(), Fault>(Fault::UnknownOpcode(w)) && post == s1,
                    Some(ins2) => flat_rel(s1, post, ins2, r),
                }
            } else {
                r == Err::<(), Fault>(Fault::PcOutOfRange) && post == s1
            }
        },
        Some(ins) => flat_rel(pre, post, ins, r),
    }
}

} // verus!

use vstd::prelude::*;
use crate::{MEM_SIZE, SCREEN_WIDTH, SCREEN_HEIGHT};
use crate::state::{State, word_at, glyph_data, initial_state, loaded_mem};
use crate::decode::{Instr, decode};
use crate::semantics::{
    Fault, bit_at, call_setup, draw_collision, draw_pix, draw_pix_upto, first_key_from,
    flat_rel, lemma_draw_advance, lemma_draw_row_boundary, lemma_wrap_coords, pix_index,
    step_rel,
};
use crate::rng::random_byte;

verus! {

/// The interpreter: owns the whole machine state of one virtual
/// machine instance. The fields are public so that collaborators can
/// read the framebuffer, the sound timer and the rest of the state
/// directly; every verified method requires and preserves `wf` on the
/// view.
pub struct Chip8 {
    /// Program counter: address of the next instruction word.
    pub pc: usize,
    /// Addressable memory, `MEM_SIZE` bytes.
    pub memory: Vec<u8>,
    /// General-purpose registers V0..VF.
    pub registers: Vec<u8>,
    /// Framebuffer, row-major 64 x 32, one 0/1 byte per pixel.
    pub screen: Vec<u8>,
    /// Key states, one 0/1 byte per key.
    pub keys: Vec<u8>,
    /// The index register I.
    pub index: u16,
    /// Delay timer counter.
    pub delay_timer: u8,
    /// Sound timer counter.
    pub sound_timer: u8,
    /// Call stack of saved return addresses.
    pub stack: Vec<usize>,
}

impl View for Chip8 {
    type V = State;

    open spec fn view(&self) -> State {
        State {
            pc: self.pc as int,
            mem: self.memory@,
            regs: self.registers@,
            screen: self.screen@,
            keys: self.keys@,
            index: self.index as int,
            delay: self.delay_timer,
            sound: self.sound_timer,
            stack: self.stack@,
        }
    }
}

/// Byte `idx` of the preloaded glyph table.
fn glyph_byte(idx: usize) -> (b: u8)
    requires
        idx < 80,
    ensures
        b == glyph_data()[idx as int],
{
    let bytes: [u8; 5] = match idx / 5 {
        0x0 => [0xF0, 0x90, 0x90, 0x90, 0xF0],
        0x1 => [0x20, 0x60, 0x20, 0x20, 0x70],
        0x2 => [0xF0, 0x10, 0xF0, 0x80, 0xF0],
        0x3 => [0xF0, 0x10, 0xF0, 0x10, 0xF0],
        0x4 => [0x90, 0x90, 0xF0, 0x10, 0x10],
        0x5 => [0xF0, 0x80, 0xF0, 0x10, 0xF0],
        0x6 => [0xF0, 0x80, 0xF0, 0x90, 0xF0],
        0x7 => [0xF0, 0x10, 0x20, 0x40, 0x40],
        0x8 => [0xF0, 0x90, 0xF0, 0x90, 0xF0],
        0x9 => [0xF0, 0x90, 0xF0, 0x10, 0xF0],
        0xA => [0xF0, 0x90, 0xF0, 0x90, 0x90],
        0xB => [0xE0, 0x90, 0xE0, 0x90, 0xE0],
        0xC => [0xF0, 0x80, 0x80, 0x80, 0xF0],
        0xD => [0xE0, 0x90, 0x90, 0x90, 0xE0],
        _ => if idx / 5 == 0xE {
            [0xF0, 0x80, 0xF0, 0x80, 0xF0]
        } else {
            [0xF0, 0x80, 0xF0, 0x80, 0x80]
        },
    };
    bytes[idx % 5]
}

impl Chip8 {
    /// Construct a fresh interpreter: glyphs preloaded into the low 80
    /// bytes of memory, everything else zeroed, pc at 0x200. Never
    /// fails.
    pub fn init() -> (c: Chip8)
        ensures
            c@.wf(),
            c@ == initial_state(),
    {
        let mut memory: Vec<u8> = Vec::new();
        let mut j: usize = 0;
        while j < 80
            invariant
                j <= 80,
                memory@.len() == j,
                forall|k: int| 0 <= k < j ==> memory@[k] == glyph_data()[k],
            decreases 80 - j,
        {
            memory.push(glyph_byte(j));
            j += 1;
        }
        while j < MEM_SIZE
            invariant
                80 <= j <= MEM_SIZE,
                memory@.len() == j,
                forall|k: int| 0 <= k < 80 ==> memory@[k] == glyph_data()[k],
                forall|k: int| 80 <= k < j ==> memory@[k] == 0,
            decreases MEM_SIZE - j,
        {
            memory.push(0);
            j += 1;
        }

        let mut registers: Vec<u8> = Vec::new();
        let mut screen: Vec<u8> = Vec::new();
        let mut keys: Vec<u8> = Vec::new();
        let mut i: usize = 0;
        while i < 16
            invariant
                i <= 16,
                registers@.len() == i,
                keys@.len() == i,
                forall|k: int| 0 <= k < i ==> registers@[k] == 0,
                forall|k: int| 0 <= k < i ==> keys@[k] == 0,
            decreases 16 - i,
        {
            registers.push(0);
            keys.push(0);
            i += 1;
        }
        let mut p: usize = 0;
        while p < SCREEN_WIDTH * SCREEN_HEIGHT
            invariant
                p <= SCREEN_WIDTH * SCREEN_HEIGHT,
                screen@.len() == p,
                forall|k: int| 0 <= k < p ==> screen@[k] == 0,
            decreases SCREEN_WIDTH * SCREEN_HEIGHT - p,
        {
            screen.push(0);
            p += 1;
        }

        let c = Chip8 {
            pc: 0x200,
            memory,
            registers,
            screen,
            keys,
            index: 0,
            delay_timer: 0,
            sound_timer: 0,
            stack: Vec::new(),
        };
        proof {
            assert(c@.mem =~= initial_state().mem);
            assert(c@.regs =~= initial_state().regs);
            assert(c@.screen =~= initial_state().screen);
            assert(c@.keys =~= initial_state().keys);
            assert(c@.stack =~= initial_state().stack);
            assert(c@ =~= initial_state());
        }
        c
    }

    /// Read the two bytes at `pc` and `pc + 1` and combine them, high
    /// byte first, into one instruction word.
    pub fn fetch_instruction(&self, pc: usize) -> (w: u16)
        requires
            self@.wf(),
            pc + 1 < MEM_SIZE,
        ensures
            w == word_at(self@.mem, pc as int),
    {
        (self.memory[pc] as u16) * 256 + self.memory[pc + 1] as u16
    }

    /// Copy a ROM image into memory starting at 0x200. At most
    /// `MEM_SIZE - 0x200` bytes are taken; a longer image is silently
    /// truncated and never writes past the end of memory. No other
    /// byte changes.
    pub fn load_rom(&mut self, data: &[u8])
        requires
            old(self)@.wf(),
        ensures
            final(self)@.wf(),
            final(self)@ == (State { mem: loaded_mem(old(self)@.mem, data@), ..old(self)@ }),
    {
        let count = if data.len() > MEM_SIZE - 0x200 {
            MEM_SIZE - 0x200
        } else {
            data.len()
        };
        let mut i: usize = 0;
        while i < count
            invariant
                old(self)@.wf(),
                count <= data@.len(),
                0x200 + count <= MEM_SIZE,
                i <= count,
                self@ == (State { mem: self@.mem, ..old(self)@ }),
                self@.mem.len() == MEM_SIZE,
                forall|j: int| 0x200 <= j < 0x200 + i ==> self@.mem[j] == data@[j - 0x200],
                forall|j: int| 0 <= j < MEM_SIZE && !(0x200 <= j < 0x200 + i)
                    ==> self@.mem[j] == old(self)@.mem[j],
            decreases count - i,
        {
            self.memory.set(0x200 + i, data[i]);
            i += 1;
        }
        proof {
            assert(self@.mem =~= loaded_mem(old(self)@.mem, data@));
            assert(self@ =~= State { mem: loaded_mem(old(self)@.mem, data@), ..old(self)@ });
        }
    }

    /// Decrement the delay timer by 1 if it is nonzero; floor at 0.
    pub fn tick_delay_timer(&mut self)
        requires
            old(self)@.wf(),
        ensures
            final(self)@.wf(),
            final(self)@ == (State {
                delay: if old(self)@.delay > 0 { (old(self)@.delay - 1) as u8 } else { 0u8 },
                ..old(self)@
            }),
    {
        if self.delay_timer > 0 {
            self.delay_timer = self.delay_timer - 1;
        }
        proof {
            assert(self@ =~= State {
                delay: if old(self)@.delay > 0 { (old(self)@.delay - 1) as u8 } else { 0u8 },
                ..old(self)@
            });
        }
    }

    /// Decrement the sound timer by 1 if it is nonzero; floor at 0.
    pub fn tick_sound_timer(&mut self)
        requires
            old(self)@.wf(),
        ensures
            final(self)@.wf(),
            final(self)@ == (State {
                sound: if old(self)@.sound > 0 { (old(self)@.sound - 1) as u8 } else { 0u8 },
                ..old(self)@
            }),
    {
        if self.sound_timer > 0 {
            self.sound_timer = self.sound_timer - 1;
        }
        proof {
            assert(self@ =~= State {
                sound: if old(self)@.sound > 0 { (old(self)@.sound - 1) as u8 } else { 0u8 },
                ..old(self)@
            });
        }
    }

    /// Set or clear one key's pressed state. This is the input
    /// source's interface; nothing else mutates the keypad.
    pub fn set_key(&mut self, key: usize, pressed: bool)
        requires
            old(self)@.wf(),
            key < 16,
        ensures
            final(self)@.wf(),
            final(self)@ == (State {
                keys: old(self)@.keys.update(key as int, if pressed { 1u8 } else { 0u8 }),
                ..old(self)@
            }),
    {
        self.keys.set(key, if pressed { 1 } else { 0 });
    }

    /// Clear the framebuffer and advance past the instruction.
    fn op_cls(&mut self)
        requires
            old(self)@.wf(),
            old(self)@.pc + 2 <= usize::MAX,
        ensures
            final(self)@.wf(),
            final(self)@ == (State {
                screen: Seq::new(old(self)@.screen.len(), |p: int| 0u8),
                pc: old(self)@.pc + 2,
                ..old(self)@
            }),
    {
        let mut p: usize = 0;
        while p < SCREEN_WIDTH * SCREEN_HEIGHT
            invariant
                old(self)@.wf(),
                p <= SCREEN_WIDTH * SCREEN_HEIGHT,
                self@ == (State { screen: self@.screen, ..old(self)@ }),
                self@.screen.len() == SCREEN_WIDTH * SCREEN_HEIGHT,
                forall|k: int| 0 <= k < p ==> self@.screen[k] == 0,
            decreases SCREEN_WIDTH * SCREEN_HEIGHT - p,
        {
            self.screen.set(p, 0);
            p += 1;
        }
        self.pc = self.pc + 2;
        proof {
            assert(self@.screen =~= Seq::new(old(self)@.screen.len(), |q: int| 0u8));
            assert(self@ =~= (State {
                screen: Seq::new(old(self)@.screen.len(), |q: int| 0u8),
                pc: old(self)@.pc + 2,
                ..old(self)@
            }));
        }
    }

    /// Scan the keypad for a pressed key: write the first one found
    /// and move on, or leave everything in place so that the same
    /// instruction is evaluated again on the next step.
    fn op_wait_key(&mut self, x: u8)
        requires
            old(self)@.wf(),
            x < 16,
            old(self)@.pc + 2 <= usize::MAX,
        ensures
            final(self)@.wf(),
            (match first_key_from(old(self)@.keys, 0) {
                Some(k) => final(self)@ == (State {
                    regs: old(self)@.regs.update(x as int, k as u8),
                    pc: old(self)@.pc + 2,
                    ..old(self)@
                }),
                None => final(self)@ == old(self)@,
            }),
    {
        let mut k: usize = 0;
        while k < 16
            invariant
                old(self)@.wf(),
                x < 16,
                k <= 16,
                old(self)@.pc + 2 <= usize::MAX,
                self@ == old(self)@,
                first_key_from(old(self)@.keys, 0) == first_key_from(old(self)@.keys, k as int),
            decreases 16 - k,
        {
            if self.keys[k] == 1 {
                self.registers.set(x as usize, k as u8);
                self.pc = self.pc + 2;
                proof {
                    assert(first_key_from(old(self)@.keys, k as int) == Some(k as int));
                    assert(self@ =~= (State {
                        regs: old(self)@.regs.update(x as int, k as u8),
                        pc: old(self)@.pc + 2,
                        ..old(self)@
                    }));
                }
                return;
            }
            k += 1;
        }
    }

    /// XOR-draw an n-row sprite read from memory at I to the screen
    /// position named by two registers, wrapping both coordinates, and
    /// report in VF whether any pixel went from set to unset.
    #[verifier::rlimit(100)]
    fn op_draw(&mut self, rx: u8, ry: u8, n: u8) -> (r: Result<(), Fault>)
        requires
            old(self)@.wf(),
            rx < 16,
            ry < 16,
            n < 16,
            old(self)@.pc + 2 <= usize::MAX,
        ensures
            final(self)@.wf(),
            flat_rel(old(self)@, final(self)@, Instr::Draw(rx, ry, n), r),
    {
        if n > 0 && self.index as usize + n as usize > MEM_SIZE {
            return Err(Fault::MemOutOfRange);
        }
        let x0 = self.registers[rx as usize];
        let y0 = self.registers[ry as usize];
        let ghost pre = self@;
        let mut collision: u8 = 0;
        let mut row: usize = 0;
        while row < n as usize
            invariant
                pre.wf(),
                pre == old(self)@,
                n < 16,
                x0 == pre.regs[rx as int],
                y0 == pre.regs[ry as int],
                n > 0 ==> pre.index + n <= MEM_SIZE,
                row <= n,
                self@ == (State { screen: self@.screen, ..pre }),
                self@.screen.len() == 2048,
                forall|p: int| 0 <= p < 2048
                    ==> self@.screen[p] == draw_pix_upto(pre, x0, y0, row as int, 0, p),
                forall|p: int| 0 <= p < 2048 ==> self@.screen[p] <= 1,
                collision <= 1,
                (collision == 1 <==> (exists|p: int|
                    0 <= p < 2048 && pre.screen[p] == 1
                    && #[trigger] draw_pix_upto(pre, x0, y0, row as int, 0, p) == 0)),
            decreases n as usize - row,
        {
            let line = self.memory[self.index as usize + row];
            let mut b: usize = 0;
            while b < 8
                invariant
                    pre.wf(),
                    pre == old(self)@,
                    n < 16,
                    x0 == pre.regs[rx as int],
                    y0 == pre.regs[ry as int],
                    row < n,
                    pre.index + n <= MEM_SIZE,
                    line == pre.mem[pre.index + row],
                    b <= 8,
                    self@ == (State { screen: self@.screen, ..pre }),
                    self@.screen.len() == 2048,
                    forall|p: int| 0 <= p < 2048
                        ==> self@.screen[p] == draw_pix_upto(pre, x0, y0, row as int, b as int, p),
                    forall|p: int| 0 <= p < 2048 ==> self@.screen[p] <= 1,
                    collision <= 1,
                    (collision == 1 <==> (exists|p: int|
                        0 <= p < 2048 && pre.screen[p] == 1
                        && #[trigger] draw_pix_upto(pre, x0, y0, row as int, b as int, p) == 0)),
                decreases 8 - b,
            {
                proof {
                    lemma_draw_advance(pre, x0, y0, n, row as int, b as int, self@.screen);
                    lemma_wrap_coords(x0, y0, row as int, b as int);
                }
                let shift: u8 = (7 - b) as u8;
                let pixel = (line >> shift) & 1;
                let sy = (y0 as usize + row) % SCREEN_HEIGHT;
                let sx = (x0 as usize + b) % SCREEN_WIDTH;
                let idx = sy * SCREEN_WIDTH + sx;
                proof {
                    assert(idx == pix_index(x0, y0, row as int, b as int));
                    assert(pixel == bit_at(pre.mem[pre.index + row], shift));
                    assert(pixel <= 1) by (bit_vector)
                        requires pixel == (line >> shift) & 1;
                }
                let oldpix = self.screen[idx];
                let newpix = oldpix ^ pixel;
                proof {
                    assert(newpix <= 1) by (bit_vector)
                        requires newpix == oldpix ^ pixel, oldpix <= 1, pixel <= 1;
                }
                self.screen.set(idx, newpix);
                if oldpix == 1 && newpix == 0 {
                    collision = 1;
                }
                b += 1;
            }
            proof {
                lemma_draw_row_boundary(pre, x0, y0, row as int);
                assert forall|p: int| 0 <= p < 2048 implies
                    self@.screen[p] == draw_pix_upto(pre, x0, y0, row + 1, 0, p) by {
                    assert(self@.screen[p] == draw_pix_upto(pre, x0, y0, row as int, 8, p));
                }
                if exists|p: int|
                    0 <= p < 2048 && pre.screen[p] == 1
                    && #[trigger] draw_pix_upto(pre, x0, y0, row as int, 8, p) == 0 {
                    let p = choose|p: int|
                        0 <= p < 2048 && pre.screen[p] == 1
                        && #[trigger] draw_pix_upto(pre, x0, y0, row as int, 8, p) == 0;
                    assert(draw_pix_upto(pre, x0, y0, row + 1, 0, p) == 0);
                }
                if exists|p: int|
                    0 <= p < 2048 && pre.screen[p] == 1
                    && #[trigger] draw_pix_upto(pre, x0, y0, row + 1, 0, p) == 0 {
                    let p = choose|p: int|
                        0 <= p < 2048 && pre.screen[p] == 1
                        && #[trigger] draw_pix_upto(pre, x0, y0, row + 1, 0, p) == 0;
                    assert(draw_pix_upto(pre, x0, y0, row as int, 8, p)
                        == draw_pix_upto(pre, x0, y0, row + 1, 0, p));
                }
            }
            row += 1;
        }
        self.registers.set(15, collision);
        self.pc = self.pc + 2;
        proof {
            if collision == 1 {
                let p = choose|p: int|
                    0 <= p < 2048 && pre.screen[p] == 1
                    && #[trigger] draw_pix_upto(pre, x0, y0, n as int, 0, p) == 0;
                assert(draw_pix(pre, x0, y0, n, p) == 0);
                assert(draw_collision(pre, x0, y0, n));
            } else if draw_collision(pre, x0, y0, n) {
                let p = choose|p: int|
                    0 <= p < 2048 && pre.screen[p] == 1
                    && #[trigger] draw_pix(pre, x0, y0, n, p) == 0;
                assert(draw_pix_upto(pre, x0, y0, n as int, 0, p) == 0);
            }
            assert(self@.screen =~= Seq::new(pre.screen.len(), |p: int| draw_pix(pre, x0, y0, n, p)));
            assert(self@ =~= (State {
                screen: Seq::new(pre.screen.len(), |p: int| draw_pix(pre, x0, y0, n, p)),
                regs: pre.regs.update(15, if draw_collision(pre, x0, y0, n) { 1u8 } else { 0u8 }),
                pc: pre.pc + 2,
                ..pre
            }));
        }
        Ok(())
    }

    /// Load registers V0..Vx inclusive from memory starting at I.
    fn op_load(&mut self, x: u8) -> (r: Result<(), Fault>)
        requires
            old(self)@.wf(),
            x < 16,
            old(self)@.pc + 2 <= usize::MAX,
        ensures
            final(self)@.wf(),
            flat_rel(old(self)@, final(self)@, Instr::Load(x), r),
    {
        let idx = self.index as usize;
        if idx + x as usize + 1 > MEM_SIZE {
            return Err(Fault::MemOutOfRange);
        }
        let mut j: usize = 0;
        while j <= x as usize
            invariant
                old(self)@.wf(),
                x < 16,
                j <= x + 1,
                idx == old(self)@.index,
                idx + x + 1 <= MEM_SIZE,
                self@ == (State { regs: self@.regs, ..old(self)@ }),
                self@.regs.len() == 16,
                forall|k: int| 0 <= k < j ==> self@.regs[k] == old(self)@.mem[idx + k],
                forall|k: int| j <= k < 16 ==> self@.regs[k] == old(self)@.regs[k],
            decreases x as usize + 1 - j,
        {
            self.registers.set(j, self.memory[idx + j]);
            j += 1;
        }
        self.pc = self.pc + 2;
        proof {
            assert(self@.regs =~= Seq::new(16, |k: int|
                if k <= x { old(self)@.mem[old(self)@.index + k] } else { old(self)@.regs[k] }));
            assert(self@ =~= (State {
                regs: Seq::new(16, |k: int|
                    if k <= x { old(self)@.mem[old(self)@.index + k] } else { old(self)@.regs[k] }),
                pc: old(self)@.pc + 2,
                ..old(self)@
            }));
        }
        Ok(())
    }

    /// Write the three decimal digits of Vx (hundreds, tens, units) to
    /// memory at I, I+1, I+2.
    fn op_bcd(&mut self, x: u8) -> (r: Result<(), Fault>)
        requires
            old(self)@.wf(),
            x < 16,
            old(self)@.pc + 2 <= usize::MAX,
        ensures
            final(self)@.wf(),
            flat_rel(old(self)@, final(self)@, Instr::Bcd(x), r),
    {
        let idx = self.index as usize;
        if idx + 3 > MEM_SIZE {
            return Err(Fault::MemOutOfRange);
        }
        let v = self.registers[x as usize];
        self.memory.set(idx, v / 100);
        self.memory.set(idx + 1, (v / 10) % 10);
        self.memory.set(idx + 2, v % 10);
        self.pc = self.pc + 2;
        proof {
            assert(self@ =~= (State {
                mem: old(self)@.mem
                    .update(old(self)@.index, (old(self)@.regs[x as int] / 100) as u8)
                    .update(old(self)@.index + 1, ((old(self)@.regs[x as int] / 10) % 10) as u8)
                    .update(old(self)@.index + 2, (old(self)@.regs[x as int] % 10) as u8),
                pc: old(self)@.pc + 2,
                ..old(self)@
            }));
        }
        Ok(())
    }

    /// Execute one decoded instruction. A call performs only its
    /// push-and-jump here; the nesting it causes is handled by
    /// `execute_instruction`.
    pub fn step_flat(&mut self, ins: Instr) -> (r: Result<(), Fault>)
        requires
            old(self)@.wf(),
            ins.wf(),
            old(self)@.pc + 4 <= usize::MAX,
        ensures
            final(self)@.wf(),
            flat_rel(old(self)@, final(self)@, ins, r),
    {
        match ins {
            Instr::Cls => {
                self.op_cls();
                Ok(())
            }
            Instr::Ret => {
                match self.stack.pop() {
                    Some(a) => {
                        self.pc = a + 2;
                        proof {
                            assert(self@ =~= (State {
                                pc: old(self)@.stack.last() + 2,
                                stack: old(self)@.stack.drop_last(),
                                ..old(self)@
                            }));
                        }
                        Ok(())
                    }
                    None => Err(Fault::EmptyStack),
                }
            }
            Instr::Jump(a) => {
                self.pc = a as usize;
                proof {
                    assert(self@ =~= (State { pc: a as int, ..old(self)@ }));
                }
                Ok(())
            }
            Instr::Call(a) => {
                self.stack.push(self.pc);
                self.pc = a as usize;
                proof {
                    assert(self@ =~= call_setup(old(self)@, a));
                }
                Ok(())
            }
            Instr::SkipEqImm(x, kk) => {
                if self.registers[x as usize] == kk {
                    self.pc = self.pc + 4;
                } else {
                    self.pc = self.pc + 2;
                }
                proof {
                    assert(self@ =~= (State {
                        pc: old(self)@.pc
                            + (if old(self)@.regs[x as int] == kk { 4int } else { 2int }),
                        ..old(self)@
                    }));
                }
                Ok(())
            }
            Instr::SkipNeImm(x, kk) => {
                if self.registers[x as usize] != kk {
                    self.pc = self.pc + 4;
                } else {
                    self.pc = self.pc + 2;
                }
                proof {
                    assert(self@ =~= (State {
                        pc: old(self)@.pc
                            + (if old(self)@.regs[x as int] != kk { 4int } else { 2int }),
                        ..old(self)@
                    }));
                }
                Ok(())
            }
            Instr::SetImm(x, kk) => {
                self.registers.set(x as usize, kk);
                self.pc = self.pc + 2;
                proof {
                    assert(self@ =~= (State {
                        regs: old(self)@.regs.update(x as int, kk),
                        pc: old(self)@.pc + 2,
                        ..old(self)@
                    }));
                }
                Ok(())
            }
            Instr::AddImm(x, kk) => {
                let v = self.registers[x as usize];
                let sum = v as u16 + kk as u16;
                self.registers.set(x as usize, (sum % 256) as u8);
                self.pc = self.pc + 2;
                proof {
                    assert(self@ =~= (State {
                        regs: old(self)@.regs
                            .update(x as int, ((old(self)@.regs[x as int] + kk) % 256) as u8),
                        pc: old(self)@.pc + 2,
                        ..old(self)@
                    }));
                }
                Ok(())
            }
            Instr::Copy(x, y) => {
                let v = self.registers[y as usize];
                self.registers.set(x as usize, v);
                self.pc = self.pc + 2;
                proof {
                    assert(self@ =~= (State {
                        regs: old(self)@.regs.update(x as int, old(self)@.regs[y as int]),
                        pc: old(self)@.pc + 2,
                        ..old(self)@
                    }));
                }
                Ok(())
            }
            Instr::Or(x, y) => {
                let v = self.registers[x as usize] | self.registers[y as usize];
                self.registers.set(x as usize, v);
                self.pc = self.pc + 2;
                proof {
                    assert(self@ =~= (State {
                        regs: old(self)@.regs
                            .update(x as int, old(self)@.regs[x as int] | old(self)@.regs[y as int]),
                        pc: old(self)@.pc + 2,
                        ..old(self)@
                    }));
                }
                Ok(())
            }
            Instr::And(x, y) => {
                let v = self.registers[x as usize] & self.registers[y as usize];
                self.registers.set(x as usize, v);
                self.pc = self.pc + 2;
                proof {
                    assert(self@ =~= (State {
                        regs: old(self)@.regs
                            .update(x as int, old(self)@.regs[x as int] & old(self)@.regs[y as int]),
                        pc: old(self)@.pc + 2,
                        ..old(self)@
                    }));
                }
                Ok(())
            }
            Instr::Xor(x, y) => {
                let v = self.registers[x as usize] ^ self.registers[y as usize];
                self.registers.set(x as usize, v);
                self.pc = self.pc + 2;
                proof {
                    assert(self@ =~= (State {
                        regs: old(self)@.regs
                            .update(x as int, old(self)@.regs[x as int] ^ old(self)@.regs[y as int]),
                        pc: old(self)@.pc + 2,
                        ..old(self)@
                    }));
                }
                Ok(())
            }
            Instr::Add(x, y) => {
                let a = self.registers[x as usize];
                let b = self.registers[y as usize];
                let sum = a as u16 + b as u16;
                self.registers.set(x as usize, (sum % 256) as u8);
                self.registers.set(15, if sum > 255 { 1 } else { 0 });
                self.pc = self.pc + 2;
                proof {
                    assert(self@ =~= (State {
                        regs: old(self)@.regs
                            .update(x as int,
                                ((old(self)@.regs[x as int] + old(self)@.regs[y as int]) % 256) as u8)
                            .update(15,
                                if old(self)@.regs[x as int] + old(self)@.regs[y as int] > 255 {
                                    1u8
                                } else {
                                    0u8
                                }),
                        pc: old(self)@.pc + 2,
                        ..old(self)@
                    }));
                }
                Ok(())
            }
            Instr::Sub(x, y) => {
                let a = self.registers[x as usize];
                let b = self.registers[y as usize];
                let diff = (a as u16 + 256 - b as u16) % 256;
                self.registers.set(x as usize, diff as u8);
                self.registers.set(15, if b > a { 0 } else { 1 });
                self.pc = self.pc + 2;
                proof {
                    assert(self@ =~= (State {
                        regs: old(self)@.regs
                            .update(x as int,
                                ((old(self)@.regs[x as int] + 256 - old(self)@.regs[y as int])
                                    % 256) as u8)
                            .update(15,
                                if old(self)@.regs[y as int] > old(self)@.regs[x as int] {
                                    0u8
                                } else {
                                    1u8
                                }),
                        pc: old(self)@.pc + 2,
                        ..old(self)@
                    }));
                }
                Ok(())
            }
            Instr::Shr(x) => {
                self.registers.set(15, self.registers[x as usize] & 1);
                let t = self.registers[x as usize];
                self.registers.set(x as usize, t >> 1u8);
                self.pc = self.pc + 2;
                proof {
                    let r1 = old(self)@.regs.update(15, old(self)@.regs[x as int] & 1);
                    assert(self@ =~= (State {
                        regs: r1.update(x as int, r1[x as int] >> 1u8),
                        pc: old(self)@.pc + 2,
                        ..old(self)@
                    }));
                }
                Ok(())
            }
            Instr::SetIndex(a) => {
                self.index = a;
                self.pc = self.pc + 2;
                proof {
                    assert(self@ =~= (State { index: a as int, pc: old(self)@.pc + 2, ..old(self)@ }));
                }
                Ok(())
            }
            Instr::Rand(x, kk) => {
                let rb = random_byte();
                self.registers.set(x as usize, rb & kk);
                self.pc = self.pc + 2;
                proof {
                    assert(self@ =~= (State {
                        regs: old(self)@.regs.update(x as int, #[trigger] (rb & kk)),
                        pc: old(self)@.pc + 2,
                        ..old(self)@
                    }));
                }
                Ok(())
            }
            Instr::Draw(rx, ry, n) => self.op_draw(rx, ry, n),
            Instr::SkipKey(x) => {
                let k = self.registers[x as usize];
                if k >= 16 {
                    return Err(Fault::KeyOutOfRange);
                }
                if self.keys[k as usize] == 1 {
                    self.pc = self.pc + 4;
                } else {
                    self.pc = self.pc + 2;
                }
                proof {
                    assert(self@ =~= (State {
                        pc: old(self)@.pc
                            + (if old(self)@.keys[old(self)@.regs[x as int] as int] == 1 {
                                4int
                            } else {
                                2int
                            }),
                        ..old(self)@
                    }));
                }
                Ok(())
            }
            Instr::SkipNoKey(x) => {
                let k = self.registers[x as usize];
                if k >= 16 {
                    return Err(Fault::KeyOutOfRange);
                }
                if self.keys[k as usize] == 0 {
                    self.pc = self.pc + 4;
                } else {
                    self.pc = self.pc + 2;
                }
                proof {
                    assert(self@ =~= (State {
                        pc: old(self)@.pc
                            + (if old(self)@.keys[old(self)@.regs[x as int] as int] == 0 {
                                4int
                            } else {
                                2int
                            }),
                        ..old(self)@
                    }));
                }
                Ok(())
            }
            Instr::GetDelay(x) => {
                let v = self.delay_timer;
                self.registers.set(x as usize, v);
                self.pc = self.pc + 2;
                proof {
                    assert(self@ =~= (State {
                        regs: old(self)@.regs.update(x as int, old(self)@.delay),
                        pc: old(self)@.pc + 2,
                        ..old(self)@
                    }));
                }
                Ok(())
            }
            Instr::WaitKey(x) => {
                self.op_wait_key(x);
                Ok(())
            }
            Instr::SetDelay(x) => {
                self.delay_timer = self.registers[x as usize];
                self.pc = self.pc + 2;
                proof {
                    assert(self@ =~= (State {
                        delay: old(self)@.regs[x as int],
                        pc: old(self)@.pc + 2,
                        ..old(self)@
                    }));
                }
                Ok(())
            }
            Instr::SetSound(x) => {
                self.sound_timer = self.registers[x as usize];
                self.pc = self.pc + 2;
                proof {
                    assert(self@ =~= (State {
                        sound: old(self)@.regs[x as int],
                        pc: old(self)@.pc + 2,
                        ..old(self)@
                    }));
                }
                Ok(())
            }
            Instr::AddIndex(x) => {
                let v = self.registers[x as usize];
                self.index = ((self.index as u32 + v as u32) % 0x10000) as u16;
                self.pc = self.pc + 2;
                proof {
                    assert(self@ =~= (State {
                        index: (old(self)@.index + old(self)@.regs[x as int]) % 0x10000,
                        pc: old(self)@.pc + 2,
                        ..old(self)@
                    }));
                }
                Ok(())
            }
            Instr::Glyph(x) => {
                let v = self.registers[x as usize];
                if v >= 16 {
                    return Err(Fault::DigitOutOfRange);
                }
                self.index = v as u16 * 5;
                self.pc = self.pc + 2;
                proof {
                    assert(self@ =~= (State {
                        index: old(self)@.regs[x as int] * 5,
                        pc: old(self)@.pc + 2,
                        ..old(self)@
                    }));
                }
                Ok(())
            }
            Instr::Bcd(x) => self.op_bcd(x),
            Instr::Load(x) => self.op_load(x),
        }
    }

    /// Execute one instruction word in full: an unknown word faults
    /// with itself as the diagnostic and changes nothing; a call
    /// pushes, jumps, and then the instruction at the target executes
    /// within the same step.
    pub fn execute_instruction(&mut self, opcode: u16) -> (r: Result<(), Fault>)
        requires
            old(self)@.wf(),
            old(self)@.pc + 4 <= usize::MAX,
        ensures
            final(self)@.wf(),
            step_rel(old(self)@, final(self)@, opcode, r),
    {
        match decode(opcode) {
            None => Err(Fault::UnknownOpcode(opcode)),
            Some(Instr::Call(a)) => {
                self.stack.push(self.pc);
                self.pc = a as usize;
                proof {
                    assert(self@ =~= call_setup(old(self)@, a));
                }
                if (a as usize) + 1 < MEM_SIZE {
                    let w = self.fetch_instruction(a as usize);
                    match decode(w) {
                        None => Err(Fault::UnknownOpcode(w)),
                        Some(ins2) => self.step_flat(ins2),
                    }
                } else {
                    Err(Fault::PcOutOfRange)
                }
            }
            Some(ins) => self.step_flat(ins),
        }
    }

    /// Advance by exactly one top-level instruction: fetch the word at
    /// pc and execute it.
    pub fn emulate_cycle(&mut self) -> (r: Result<(), Fault>)
        requires
            old(self)@.wf(),
        ensures
            final(self)@.wf(),
            (if old(self)@.pc + 1 < MEM_SIZE {
                step_rel(old(self)@, final(self)@, word_at(old(self)@.mem, old(self)@.pc), r)
            } else {
                r == Err::<(), Fault>(Fault::PcOutOfRange) && final(self)@ == old(self)@
            }),
    {
        if self.pc < MEM_SIZE - 1 {
            let opcode = self.fetch_instruction(self.pc);
            self.execute_instruction(opcode)
        } else {
            Err(Fault::PcOutOfRange)
        }
    }
}

} // verus!

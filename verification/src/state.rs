use vstd::prelude::*;
use crate::{MEM_SIZE, SCREEN_WIDTH, SCREEN_HEIGHT};

verus! {

/// Mathematical model of the whole machine: every contract of the
/// interpreter is stated over this view of the executable state.
#[verifier::ext_equal]
pub ghost struct State {
    /// Program counter: address of the next instruction word.
    pub pc: int,
    /// Addressable memory, exactly `MEM_SIZE` bytes.
    pub mem: Seq<u8>,
    /// The sixteen general-purpose registers V0..VF.
    pub regs: Seq<u8>,
    /// Framebuffer, row-major 64 x 32, one 0/1 byte per pixel.
    pub screen: Seq<u8>,
    /// The sixteen key states, one 0/1 byte per key.
    pub keys: Seq<u8>,
    /// The index register I.
    pub index: int,
    /// Delay timer counter.
    pub delay: u8,
    /// Sound timer counter.
    pub sound: u8,
    /// Call stack of saved return addresses, most recent last.
    pub stack: Seq<usize>,
}

impl State {
    /// Well-formedness: fixed sizes, pixels and keys hold only 0 or 1,
    /// and saved return addresses leave room for the +2 a return adds.
    pub open spec fn wf(self) -> bool {
        &&& self.mem.len() == MEM_SIZE
        &&& self.regs.len() == 16
        &&& self.screen.len() == SCREEN_WIDTH * SCREEN_HEIGHT
        &&& self.keys.len() == 16
        &&& (forall|p: int| 0 <= p < self.screen.len() ==> self.screen[p] <= 1)
        &&& (forall|k: int| 0 <= k < 16 ==> self.keys[k] <= 1)
        &&& 0 <= self.pc <= usize::MAX
        &&& 0 <= self.index < 0x10000
        &&& (forall|j: int| 0 <= j < self.stack.len() ==> self.stack[j] + 2 <= usize::MAX)
    }
}

/// The big-endian instruction word formed by the two bytes at address `a`.
pub open spec fn word_at(mem: Seq<u8>, a: int) -> u16 {
    (mem[a] * 256 + mem[a + 1]) as u16
}

/// The preloaded glyph sprites: sixteen 5-byte bitmaps, one per
/// hexadecimal digit, digit `d` at offset `d * 5`.
pub open spec fn glyph_data() -> Seq<u8> {
    seq![
        0xF0u8, 0x90, 0x90, 0x90, 0xF0,
        0x20, 0x60, 0x20, 0x20, 0x70,
        0xF0, 0x10, 0xF0, 0x80, 0xF0,
        0xF0, 0x10, 0xF0, 0x10, 0xF0,
        0x90, 0x90, 0xF0, 0x10, 0x10,
        0xF0, 0x80, 0xF0, 0x10, 0xF0,
        0xF0, 0x80, 0xF0, 0x90, 0xF0,
        0xF0, 0x10, 0x20, 0x40, 0x40,
        0xF0, 0x90, 0xF0, 0x90, 0xF0,
        0xF0, 0x90, 0xF0, 0x10, 0xF0,
        0xF0, 0x90, 0xF0, 0x90, 0x90,
        0xE0, 0x90, 0xE0, 0x90, 0xE0,
        0xF0, 0x80, 0x80, 0x80, 0xF0,
        0xE0, 0x90, 0x90, 0x90, 0xE0,
        0xF0, 0x80, 0xF0, 0x80, 0xF0,
        0xF0, 0x80, 0xF0, 0x80, 0x80,
    ]
}

/// The state a freshly constructed interpreter is in: glyphs preloaded
/// into the low 80 bytes, everything else zeroed, pc at 0x200.
pub open spec fn initial_state() -> State {
    State {
        pc: 0x200,
        mem: Seq::new(MEM_SIZE as nat, |j: int| if j < 80 { glyph_data()[j] } else { 0u8 }),
        regs: Seq::new(16, |j: int| 0u8),
        screen: Seq::new((SCREEN_WIDTH * SCREEN_HEIGHT) as nat, |p: int| 0u8),
        keys: Seq::new(16, |k: int| 0u8),
        index: 0,
        delay: 0,
        sound: 0,
        stack: Seq::empty(),
    }
}

/// Memory after a ROM image is copied in at 0x200: at most
/// `MEM_SIZE - 0x200` bytes are taken, the excess is dropped, and no
/// other byte changes.
pub open spec fn loaded_mem(mem: Seq<u8>, rom: Seq<u8>) -> Seq<u8> {
    Seq::new(MEM_SIZE as nat, |j: int|
        if 0x200 <= j < 0x200 + rom.len() && j < MEM_SIZE {
            rom[j - 0x200]
        } else {
            mem[j]
        })
}

} // verus!

use vstd::prelude::*;

verus! {

/// A decoded instruction: one variant per supported nibble pattern.
/// Register operands are 4-bit, immediates 8-bit, addresses 12-bit.
#[derive(Clone, Copy, PartialEq, Eq, Structural, Debug)]
pub enum Instr {
    /// 00E0: clear the framebuffer.
    Cls,
    /// 00EE: pop a return address and jump there (plus 2).
    Ret,
    /// 1nnn: unconditional jump.
    Jump(u16),
    /// 2nnn: push pc, jump, and execute the first instruction there.
    Call(u16),
    /// 3xkk: skip the next instruction if Vx == kk.
    SkipEqImm(u8, u8),
    /// 4xkk: skip the next instruction if Vx != kk.
    SkipNeImm(u8, u8),
    /// 6xkk: Vx := kk.
    SetImm(u8, u8),
    /// 7xkk: Vx := (Vx + kk) mod 256, no flag.
    AddImm(u8, u8),
    /// 8xy0: Vx := Vy.
    Copy(u8, u8),
    /// 8xy1: Vx := Vx | Vy.
    Or(u8, u8),
    /// 8xy2: Vx := Vx & Vy.
    And(u8, u8),
    /// 8xy3: Vx := Vx ^ Vy.
    Xor(u8, u8),
    /// 8xy4: Vx := (Vx + Vy) mod 256, VF := carry.
    Add(u8, u8),
    /// 8xy5: Vx := (Vx - Vy) mod 256, VF := 0 iff Vy > Vx.
    Sub(u8, u8),
    /// 8xy6: VF := Vx & 1, then Vx := Vx >> 1 (shifts Vx itself).
    Shr(u8),
    /// Annn: I := nnn.
    SetIndex(u16),
    /// Cxkk: Vx := (random byte) & kk.
    Rand(u8, u8),
    /// Dxyn: XOR-draw an n-row sprite from memory at I to (Vx, Vy).
    Draw(u8, u8, u8),
    /// Ex9E: skip the next instruction if key Vx is pressed.
    SkipKey(u8),
    /// ExA1: skip the next instruction if key Vx is not pressed.
    SkipNoKey(u8),
    /// Fx07: Vx := delay timer.
    GetDelay(u8),
    /// Fx0A: wait for a key press, then Vx := its index.
    WaitKey(u8),
    /// Fx15: delay timer := Vx.
    SetDelay(u8),
    /// Fx18: sound timer := Vx.
    SetSound(u8),
    /// Fx1E: I := (I + Vx) mod 2^16.
    AddIndex(u8),
    /// Fx29: I := address of the glyph sprite for digit Vx.
    Glyph(u8),
    /// Fx33: write the three decimal digits of Vx at I, I+1, I+2.
    Bcd(u8),
    /// Fx65: load V0..Vx inclusive from memory starting at I.
    Load(u8),
}

impl Instr {
    /// Every operand a decoder can produce is in range.
    pub open spec fn wf(self) -> bool {
        match self {
            Instr::Cls => true,
            Instr::Ret => true,
            Instr::Jump(a) => a < 0x1000,
            Instr::Call(a) => a < 0x1000,
            Instr::SkipEqImm(x, _kk) => x < 16,
            Instr::SkipNeImm(x, _kk) => x < 16,
            Instr::SetImm(x, _kk) => x < 16,
            Instr::AddImm(x, _kk) => x < 16,
            Instr::Copy(x, y) => x < 16 && y < 16,
            Instr::Or(x, y) => x < 16 && y < 16,
            Instr::And(x, y) => x < 16 && y < 16,
            Instr::Xor(x, y) => x < 16 && y < 16,
            Instr::Add(x, y) => x < 16 && y < 16,
            Instr::Sub(x, y) => x < 16 && y < 16,
            Instr::Shr(x) => x < 16,
            Instr::SetIndex(a) => a < 0x1000,
            Instr::Rand(x, _kk) => x < 16,
            Instr::Draw(x, y, n) => x < 16 && y < 16 && n < 16,
            Instr::SkipKey(x) => x < 16,
            Instr::SkipNoKey(x) => x < 16,
            Instr::GetDelay(x) => x < 16,
            Instr::WaitKey(x) => x < 16,
            Instr::SetDelay(x) => x < 16,
            Instr::SetSound(x) => x < 16,
            Instr::AddIndex(x) => x < 16,
            Instr::Glyph(x) => x < 16,
            Instr::Bcd(x) => x < 16,
            Instr::Load(x) => x < 16,
        }
    }
}

/// What an instruction word decodes to: `None` is a fatal decode
/// failure. The patterns are those of the supported set and nothing
/// more; in particular 5xy0, 9xy0, 8xy7, 8xyE, Bnnn and Fx55 decode to
/// `None` on purpose.
pub open spec fn decode_spec(op: u16) -> Option<Instr> {
    let hi = op / 0x1000;
    let x = ((op / 0x100) % 16) as u8;
    let y = ((op / 16) % 16) as u8;
    let n = (op % 16) as u8;
    let kk = (op % 256) as u8;
    let a = op % 0x1000;
    if op == 0x00E0 {
        Some(Instr::Cls)
    } else if op == 0x00EE {
        Some(Instr::Ret)
    } else if hi == 0x1 {
        Some(Instr::Jump(a))
    } else if hi == 0x2 {
        Some(Instr::Call(a))
    } else if hi == 0x3 {
        Some(Instr::SkipEqImm(x, kk))
    } else if hi == 0x4 {
        Some(Instr::SkipNeImm(x, kk))
    } else if hi == 0x6 {
        Some(Instr::SetImm(x, kk))
    } else if hi == 0x7 {
        Some(Instr::AddImm(x, kk))
    } else if hi == 0x8 && n == 0 {
        Some(Instr::Copy(x, y))
    } else if hi == 0x8 && n == 1 {
        Some(Instr::Or(x, y))
    } else if hi == 0x8 && n == 2 {
        Some(Instr::And(x, y))
    } else if hi == 0x8 && n == 3 {
        Some(Instr::Xor(x, y))
    } else if hi == 0x8 && n == 4 {
        Some(Instr::Add(x, y))
    } else if hi == 0x8 && n == 5 {
        Some(Instr::Sub(x, y))
    } else if hi == 0x8 && n == 6 {
        Some(Instr::Shr(x))
    } else if hi == 0xA {
        Some(Instr::SetIndex(a))
    } else if hi == 0xC {
        Some(Instr::Rand(x, kk))
    } else if hi == 0xD {
        Some(Instr::Draw(x, y, n))
    } else if hi == 0xE && kk == 0x9E {
        Some(Instr::SkipKey(x))
    } else if hi == 0xE && kk == 0xA1 {
        Some(Instr::SkipNoKey(x))
    } else if hi == 0xF && kk == 0x07 {
        Some(Instr::GetDelay(x))
    } else if hi == 0xF && kk == 0x0A {
        Some(Instr::WaitKey(x))
    } else if hi == 0xF && kk == 0x15 {
        Some(Instr::SetDelay(x))
    } else if hi == 0xF && kk == 0x18 {
        Some(Instr::SetSound(x))
    } else if hi == 0xF && kk == 0x1E {
        Some(Instr::AddIndex(x))
    } else if hi == 0xF && kk == 0x29 {
        Some(Instr::Glyph(x))
    } else if hi == 0xF && kk == 0x33 {
        Some(Instr::Bcd(x))
    } else if hi == 0xF && kk == 0x65 {
        Some(Instr::Load(x))
    } else {
        None
    }
}

/// Split an instruction word into its fields and match it against the
/// supported patterns.
pub fn decode(op: u16) -> (r: Option<Instr>)
    ensures
        r == decode_spec(op),
{
    let hi = op / 0x1000;
    let x = ((op / 0x100) % 16) as u8;
    let y = ((op / 16) % 16) as u8;
    let n = (op % 16) as u8;
    let kk = (op % 256) as u8;
    let a = op % 0x1000;
    if op == 0x00E0 {
        Some(Instr::Cls)
    } else if op == 0x00EE {
        Some(Instr::Ret)
    } else if hi == 0x1 {
        Some(Instr::Jump(a))
    } else if hi == 0x2 {
        Some(Instr::Call(a))
    } else if hi == 0x3 {
        Some(Instr::SkipEqImm(x, kk))
    } else if hi == 0x4 {
        Some(Instr::SkipNeImm(x, kk))
    } else if hi == 0x6 {
        Some(Instr::SetImm(x, kk))
    } else if hi == 0x7 {
        Some(Instr::AddImm(x, kk))
    } else if hi == 0x8 && n == 0 {
        Some(Instr::Copy(x, y))
    } else if hi == 0x8 && n == 1 {
        Some(Instr::Or(x, y))
    } else if hi == 0x8 && n == 2 {
        Some(Instr::And(x, y))
    } else if hi == 0x8 && n == 3 {
        Some(Instr::Xor(x, y))
    } else if hi == 0x8 && n == 4 {
        Some(Instr::Add(x, y))
    } else if hi == 0x8 && n == 5 {
        Some(Instr::Sub(x, y))
    } else if hi == 0x8 && n == 6 {
        Some(Instr::Shr(x))
    } else if hi == 0xA {
        Some(Instr::SetIndex(a))
    } else if hi == 0xC {
        Some(Instr::Rand(x, kk))
    } else if hi == 0xD {
        Some(Instr::Draw(x, y, n))
    } else if hi == 0xE && kk == 0x9E {
        Some(Instr::SkipKey(x))
    } else if hi == 0xE && kk == 0xA1 {
        Some(Instr::SkipNoKey(x))
    } else if hi == 0xF && kk == 0x07 {
        Some(Instr::GetDelay(x))
    } else if hi == 0xF && kk == 0x0A {
        Some(Instr::WaitKey(x))
    } else if hi == 0xF && kk == 0x15 {
        Some(Instr::SetDelay(x))
    } else if hi == 0xF && kk == 0x18 {
        Some(Instr::SetSound(x))
    } else if hi == 0xF && kk == 0x1E {
        Some(Instr::AddIndex(x))
    } else if hi == 0xF && kk == 0x29 {
        Some(Instr::Glyph(x))
    } else if hi == 0xF && kk == 0x33 {
        Some(Instr::Bcd(x))
    } else if hi == 0xF && kk == 0x65 {
        Some(Instr::Load(x))
    } else {
        None
    }
}

} // verus!

//! Instruction decoding: from a 16-bit opcode word to a tagged operation.
//!
//! Decode masks the top nibble to select a family and, for the 0x0, 0x8,
//! 0xE and 0xF families, the low byte or low nibble to select the
//! operation. A word matching no defined pattern does not decode: the
//! machine treats it as a fatal malformed-program error.

use vstd::prelude::*;

verus! {

/// One decoded CHIP-8 operation. Register indices are the 4-bit `x` and
/// `y` fields, byte literals the 8-bit `kk` field, addresses the 12-bit
/// `nnn` field of the opcode word.
#[derive(Clone, Copy, PartialEq, Eq, Structural, Debug)]
pub enum Op {
    /// 00E0: zero every pixel of the display.
    ClearScreen,
    /// 00EE: pop the call stack into the program counter.
    Return,
    /// 1nnn: program counter := nnn.
    Jump(u16),
    /// 2nnn: push the program counter, then program counter := nnn.
    Call(u16),
    /// 3xkk: skip one instruction if Vx == kk.
    SkipEqImm(u8, u8),
    /// 4xkk: skip one instruction if Vx != kk.
    SkipNeImm(u8, u8),
    /// 5xy0: skip one instruction if Vx == Vy.
    SkipEqReg(u8, u8),
    /// 6xkk: Vx := kk.
    LoadImm(u8, u8),
    /// 7xkk: Vx := Vx + kk, wrapping, no flag.
    AddImm(u8, u8),
    /// 8xy0: Vx := Vy.
    LoadReg(u8, u8),
    /// 8xy1: Vx := Vx | Vy.
    OrReg(u8, u8),
    /// 8xy2: Vx := Vx & Vy.
    AndReg(u8, u8),
    /// 8xy3: Vx := Vx ^ Vy.
    XorReg(u8, u8),
    /// 8xy4: Vx := low byte of Vx + Vy, VF := carry.
    AddReg(u8, u8),
    /// 8xy5: VF := 1 if Vx > Vy else 0, Vx := Vx - Vy wrapping.
    SubReg(u8, u8),
    /// 8xy6: VF := low bit of Vx, Vx := Vx >> 1.
    ShrReg(u8),
    /// 8xy7: VF := 1 if Vy > Vx else 0, Vx := Vy - Vx wrapping.
    SubnReg(u8, u8),
    /// 8xyE: VF := high bit of Vx, Vx := Vx << 1 keeping the low byte.
    ShlReg(u8),
    /// 9xy0: skip one instruction if Vx != Vy.
    SkipNeReg(u8, u8),
    /// Annn: address register := nnn.
    LoadAddr(u16),
    /// Bnnn: program counter := nnn + V0.
    JumpV0(u16),
    /// Cxkk: Vx := random byte & kk.
    RandomAnd(u8, u8),
    /// Dxyn: XOR-draw an 8-wide, n-row sprite at (Vx, Vy), VF := collision.
    Draw(u8, u8, u8),
    /// Ex9E: skip one instruction if the key named by Vx is down.
    SkipKeyDown(u8),
    /// ExA1: skip one instruction if the key named by Vx is up.
    SkipKeyUp(u8),
    /// Fx07: Vx := delay timer.
    ReadDelay(u8),
    /// Fx0A: suspend until a key is down, then store it in Vx.
    WaitKey(u8),
    /// Fx15: delay timer := Vx.
    SetDelay(u8),
    /// Fx18: sound timer := Vx.
    SetSound(u8),
    /// Fx1E: address register := address register + Vx wrapping, VF := 1
    /// if the 16-bit sum exceeds 255 else 0 (the legacy low-byte quirk).
    AddAddr(u8),
    /// Fx29: address register := Vx * 5, the font glyph for digit Vx.
    LoadFont(u8),
    /// Fx33: store the decimal digits of Vx at the address register.
    StoreBcd(u8),
    /// Fx55: copy V0..=Vx into memory at the address register.
    StoreRegs(u8),
    /// Fx65: copy memory at the address register into V0..=Vx.
    LoadRegs(u8),
}

/// The `x` field: bits 8-11 of the opcode word.
pub open spec fn op_x(w: u16) -> u8 {
    ((w >> 8) & 0xF) as u8
}

/// The `y` field: bits 4-7 of the opcode word.
pub open spec fn op_y(w: u16) -> u8 {
    ((w >> 4) & 0xF) as u8
}

/// The `n` field: bits 0-3 of the opcode word.
pub open spec fn op_n(w: u16) -> u8 {
    (w & 0xF) as u8
}

/// The `kk` field: bits 0-7 of the opcode word.
pub open spec fn op_kk(w: u16) -> u8 {
    (w & 0xFF) as u8
}

/// The `nnn` field: bits 0-11 of the opcode word.
pub open spec fn op_nnn(w: u16) -> u16 {
    w & 0xFFF
}

/// The opcode fields are nibble- and byte-bounded.
pub proof fn lemma_op_fields(w: u16)
    by (bit_vector)
    ensures
        (w >> 8) & 0xF < 16,
        (w >> 4) & 0xF < 16,
        w & 0xF < 16,
        w & 0xFF < 256,
        w & 0xFFF < 0x1000,
{
}

impl Op {
    /// Every field of a decoded operation is in range.
    pub open spec fn wf(&self) -> bool {
        match *self {
            Op::ClearScreen => true,
            Op::Return => true,
            Op::Jump(nnn) => nnn < 0x1000,
            Op::Call(nnn) => nnn < 0x1000,
            Op::SkipEqImm(x, _) => x < 16,
            Op::SkipNeImm(x, _) => x < 16,
            Op::SkipEqReg(x, y) => x < 16 && y < 16,
            Op::LoadImm(x, _) => x < 16,
            Op::AddImm(x, _) => x < 16,
            Op::LoadReg(x, y) => x < 16 && y < 16,
            Op::OrReg(x, y) => x < 16 && y < 16,
            Op::AndReg(x, y) => x < 16 && y < 16,
            Op::XorReg(x, y) => x < 16 && y < 16,
            Op::AddReg(x, y) => x < 16 && y < 16,
            Op::SubReg(x, y) => x < 16 && y < 16,
            Op::ShrReg(x) => x < 16,
            Op::SubnReg(x, y) => x < 16 && y < 16,
            Op::ShlReg(x) => x < 16,
            Op::SkipNeReg(x, y) => x < 16 && y < 16,
            Op::LoadAddr(nnn) => nnn < 0x1000,
            Op::JumpV0(nnn) => nnn < 0x1000,
            Op::RandomAnd(x, _) => x < 16,
            Op::Draw(x, y, n) => x < 16 && y < 16 && n < 16,
            Op::SkipKeyDown(x) => x < 16,
            Op::SkipKeyUp(x) => x < 16,
            Op::ReadDelay(x) => x < 16,
            Op::WaitKey(x) => x < 16,
            Op::SetDelay(x) => x < 16,
            Op::SetSound(x) => x < 16,
            Op::AddAddr(x) => x < 16,
            Op::LoadFont(x) => x < 16,
            Op::StoreBcd(x) => x < 16,
            Op::StoreRegs(x) => x < 16,
            Op::LoadRegs(x) => x < 16,
        }
    }
}

/// The decode table: which operation, if any, an opcode word denotes.
pub open spec fn spec_decode(w: u16) -> Option<Op> {
    let family = w & 0xF000;
    if family == 0x0000 {
        if w & 0x00FF == 0x00E0 {
            Some(Op::ClearScreen)
        } else if w & 0x00FF == 0x00EE {
            Some(Op::Return)
        } else {
            None
        }
    } else if family == 0x1000 {
        Some(Op::Jump(op_nnn(w)))
    } else if family == 0x2000 {
        Some(Op::Call(op_nnn(w)))
    } else if family == 0x3000 {
        Some(Op::SkipEqImm(op_x(w), op_kk(w)))
    } else if family == 0x4000 {
        Some(Op::SkipNeImm(op_x(w), op_kk(w)))
    } else if family == 0x5000 {
        Some(Op::SkipEqReg(op_x(w), op_y(w)))
    } else if family == 0x6000 {
        Some(Op::LoadImm(op_x(w), op_kk(w)))
    } else if family == 0x7000 {
        Some(Op::AddImm(op_x(w), op_kk(w)))
    } else if family == 0x8000 {
        let low = w & 0x000F;
        if low == 0x0 {
            Some(Op::LoadReg(op_x(w), op_y(w)))
        } else if low == 0x1 {
            Some(Op::OrReg(op_x(w), op_y(w)))
        } else if low == 0x2 {
            Some(Op::AndReg(op_x(w), op_y(w)))
        } else if low == 0x3 {
            Some(Op::XorReg(op_x(w), op_y(w)))
        } else if low == 0x4 {
            Some(Op::AddReg(op_x(w), op_y(w)))
        } else if low == 0x5 {
            Some(Op::SubReg(op_x(w), op_y(w)))
        } else if low == 0x6 {
            Some(Op::ShrReg(op_x(w)))
        } else if low == 0x7 {
            Some(Op::SubnReg(op_x(w), op_y(w)))
        } else if low == 0xE {
            Some(Op::ShlReg(op_x(w)))
        } else {
            None
        }
    } else if family == 0x9000 {
        Some(Op::SkipNeReg(op_x(w), op_y(w)))
    } else if family == 0xA000 {
        Some(Op::LoadAddr(op_nnn(w)))
    } else if family == 0xB000 {
        Some(Op::JumpV0(op_nnn(w)))
    } else if family == 0xC000 {
        Some(Op::RandomAnd(op_x(w), op_kk(w)))
    } else if family == 0xD000 {
        Some(Op::Draw(op_x(w), op_y(w), op_n(w)))
    } else if family == 0xE000 {
        let low = w & 0x00FF;
        if low == 0x9E {
            Some(Op::SkipKeyDown(op_x(w)))
        } else if low == 0xA1 {
            Some(Op::SkipKeyUp(op_x(w)))
        } else {
            None
        }
    } else {
        // family == 0xF000
        let low = w & 0x00FF;
        if low == 0x07 {
            Some(Op::ReadDelay(op_x(w)))
        } else if low == 0x0A {
            Some(Op::WaitKey(op_x(w)))
        } else if low == 0x15 {
            Some(Op::SetDelay(op_x(w)))
        } else if low == 0x18 {
            Some(Op::SetSound(op_x(w)))
        } else if low == 0x1E {
            Some(Op::AddAddr(op_x(w)))
        } else if low == 0x29 {
            Some(Op::LoadFont(op_x(w)))
        } else if low == 0x33 {
            Some(Op::StoreBcd(op_x(w)))
        } else if low == 0x55 {
            Some(Op::StoreRegs(op_x(w)))
        } else if low == 0x65 {
            Some(Op::LoadRegs(op_x(w)))
        } else {
            None
        }
    }
}

/// Decode an opcode word, or report that it matches no defined pattern.
pub fn decode(w: u16) -> (d: Option<Op>)
    ensures
        d == spec_decode(w),
        d matches Some(op) ==> op.wf(),
{
    proof {
        lemma_op_fields(w);
    }
    let x = ((w >> 8) & 0xF) as u8;
    let y = ((w >> 4) & 0xF) as u8;
    let n = (w & 0xF) as u8;
    let kk = (w & 0xFF) as u8;
    let nnn = w & 0xFFF;
    let family = w & 0xF000;
    if family == 0x0000 {
        if w & 0x00FF == 0x00E0 {
            Some(Op::ClearScreen)
        } else if w & 0x00FF == 0x00EE {
            Some(Op::Return)
        } else {
            None
        }
    } else if family == 0x1000 {
        Some(Op::Jump(nnn))
    } else if family == 0x2000 {
        Some(Op::Call(nnn))
    } else if family == 0x3000 {
        Some(Op::SkipEqImm(x, kk))
    } else if family == 0x4000 {
        Some(Op::SkipNeImm(x, kk))
    } else if family == 0x5000 {
        Some(Op::SkipEqReg(x, y))
    } else if family == 0x6000 {
        Some(Op::LoadImm(x, kk))
    } else if family == 0x7000 {
        Some(Op::AddImm(x, kk))
    } else if family == 0x8000 {
        let low = w & 0x000F;
        if low == 0x0 {
            Some(Op::LoadReg(x, y))
        } else if low == 0x1 {
            Some(Op::OrReg(x, y))
        } else if low == 0x2 {
            Some(Op::AndReg(x, y))
        } else if low == 0x3 {
            Some(Op::XorReg(x, y))
        } else if low == 0x4 {
            Some(Op::AddReg(x, y))
        } else if low == 0x5 {
            Some(Op::SubReg(x, y))
        } else if low == 0x6 {
            Some(Op::ShrReg(x))
        } else if low == 0x7 {
            Some(Op::SubnReg(x, y))
        } else if low == 0xE {
            Some(Op::ShlReg(x))
        } else {
            None
        }
    } else if family == 0x9000 {
        Some(Op::SkipNeReg(x, y))
    } else if family == 0xA000 {
        Some(Op::LoadAddr(nnn))
    } else if family == 0xB000 {
        Some(Op::JumpV0(nnn))
    } else if family == 0xC000 {
        Some(Op::RandomAnd(x, kk))
    } else if family == 0xD000 {
        Some(Op::Draw(x, y, n))
    } else if family == 0xE000 {
        let low = w & 0x00FF;
        if low == 0x9E {
            Some(Op::SkipKeyDown(x))
        } else if low == 0xA1 {
            Some(Op::SkipKeyUp(x))
        } else {
            None
        }
    } else {
        let low = w & 0x00FF;
        if low == 0x07 {
            Some(Op::ReadDelay(x))
        } else if low == 0x0A {
            Some(Op::WaitKey(x))
        } else if low == 0x15 {
            Some(Op::SetDelay(x))
        } else if low == 0x18 {
            Some(Op::SetSound(x))
        } else if low == 0x1E {
            Some(Op::AddAddr(x))
        } else if low == 0x29 {
            Some(Op::LoadFont(x))
        } else if low == 0x33 {
            Some(Op::StoreBcd(x))
        } else if low == 0x55 {
            Some(Op::StoreRegs(x))
        } else if low == 0x65 {
            Some(Op::LoadRegs(x))
        } else {
            None
        }
    }
}

} // verus!

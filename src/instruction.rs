use vstd::prelude::*;

verus! {

/// One decoded instruction. `x` and `y` name general registers, `nnn` is a
/// 12-bit address, `kk` an 8-bit immediate and `n` a 4-bit sprite height.
#[derive(Debug, Clone, Copy, PartialEq, Eq, Structural)]
pub enum Instruction {
    /// `00E0`: clear the screen.
    ClearScreen,
    /// `00EE`: return from a subroutine.
    Return,
    /// `1nnn`: jump to `nnn`.
    Jump { nnn: u16 },
    /// `2nnn`: call the subroutine at `nnn`.
    Call { nnn: u16 },
    /// `3xkk`: skip if `Vx == kk`.
    SkipEqImm { x: usize, kk: u8 },
    /// `4xkk`: skip if `Vx != kk`.
    SkipNeImm { x: usize, kk: u8 },
    /// `5xy0`: skip if `Vx == Vy`.
    SkipEqReg { x: usize, y: usize },
    /// `6xkk`: `Vx = kk`.
    LoadImm { x: usize, kk: u8 },
    /// `7xkk`: `Vx += kk`, wrapping, flags untouched.
    AddImm { x: usize, kk: u8 },
    /// `8xy0`: `Vx = Vy`.
    Move { x: usize, y: usize },
    /// `8xy1`: `Vx |= Vy`.
    Or { x: usize, y: usize },
    /// `8xy2`: `Vx &= Vy`.
    And { x: usize, y: usize },
    /// `8xy3`: `Vx ^= Vy`.
    Xor { x: usize, y: usize },
    /// `8xy4`: `Vx += Vy`, `VF` = carry.
    AddReg { x: usize, y: usize },
    /// `8xy5`: `Vx -= Vy`, `VF` = no borrow.
    SubReg { x: usize, y: usize },
    /// `8xy6`: `Vx >>= 1`, `VF` = the bit shifted out.
    ShiftRight { x: usize, y: usize },
    /// `8xy7`: `Vx = Vy - Vx`, `VF` = no borrow.
    SubRev { x: usize, y: usize },
    /// `8xyE`: `Vx <<= 1`, `VF` = the bit shifted out.
    ShiftLeft { x: usize, y: usize },
    /// `9xy0`: skip if `Vx != Vy`.
    SkipNeReg { x: usize, y: usize },
    /// `Annn`: `I = nnn`.
    LoadIndex { nnn: u16 },
    /// `Bnnn`: jump to `V0 + nnn`.
    JumpOffset { nnn: u16 },
    /// `Cxkk`: `Vx = random & kk`.
    Random { x: usize, kk: u8 },
    /// `Dxyn`: draw an `n`-row sprite from `I` at `(Vx, Vy)`.
    Draw { x: usize, y: usize, n: u8 },
    /// `Ex9E`: skip if key `Vx` is held down.
    SkipKeyDown { x: usize },
    /// `ExA1`: skip if key `Vx` is released.
    SkipKeyUp { x: usize },
    /// `Fx07`: `Vx = DT`.
    LoadDelay { x: usize },
    /// `Fx0A`: wait for a key and put its index in `Vx`.
    WaitKey { x: usize },
    /// `Fx15`: `DT = Vx`.
    SetDelay { x: usize },
    /// `Fx18`: `ST = Vx`.
    SetSound { x: usize },
    /// `Fx1E`: `I += Vx`, wrapping.
    AddIndex { x: usize },
    /// `Fx29`: `I` = address of the glyph of digit `Vx`.
    FontGlyph { x: usize },
    /// `Fx33`: store the decimal digits of `Vx` at `I`, `I+1`, `I+2`.
    StoreBcd { x: usize },
    /// `Fx55`: store `V0..=Vx` from `I` on.
    StoreRegs { x: usize },
    /// `Fx65`: load `V0..=Vx` from `I` on.
    LoadRegs { x: usize },
}

/// Highest nibble of an opcode.
pub open spec fn nib1(op: u16) -> int {
    op as int / 0x1000
}

/// Second nibble of an opcode: the `x` register.
pub open spec fn nib2(op: u16) -> int {
    (op as int / 0x100) % 0x10
}

/// Third nibble of an opcode: the `y` register.
pub open spec fn nib3(op: u16) -> int {
    (op as int / 0x10) % 0x10
}

/// Lowest nibble of an opcode.
pub open spec fn nib4(op: u16) -> int {
    op as int % 0x10
}

/// The instruction that `op` encodes, or `None` for a word outside the set.
pub open spec fn decode_spec(op: u16) -> Option<Instruction> {
    let a = nib1(op);
    let x = nib2(op) as usize;
    let y = nib3(op) as usize;
    let n = nib4(op);
    let nnn = (op as int % 0x1000) as u16;
    let kk = (op as int % 0x100) as u8;
    if op == 0x00E0 {
        Some(Instruction::ClearScreen)
    } else if op == 0x00EE {
        Some(Instruction::Return)
    } else if a == 0x1 {
        Some(Instruction::Jump { nnn })
    } else if a == 0x2 {
        Some(Instruction::Call { nnn })
    } else if a == 0x3 {
        Some(Instruction::SkipEqImm { x, kk })
    } else if a == 0x4 {
        Some(Instruction::SkipNeImm { x, kk })
    } else if a == 0x5 && n == 0x0 {
        Some(Instruction::SkipEqReg { x, y })
    } else if a == 0x6 {
        Some(Instruction::LoadImm { x, kk })
    } else if a == 0x7 {
        Some(Instruction::AddImm { x, kk })
    } else if a == 0x8 && n == 0x0 {
        Some(Instruction::Move { x, y })
    } else if a == 0x8 && n == 0x1 {
        Some(Instruction::Or { x, y })
    } else if a == 0x8 && n == 0x2 {
        Some(Instruction::And { x, y })
    } else if a == 0x8 && n == 0x3 {
        Some(Instruction::Xor { x, y })
    } else if a == 0x8 && n == 0x4 {
        Some(Instruction::AddReg { x, y })
    } else if a == 0x8 && n == 0x5 {
        Some(Instruction::SubReg { x, y })
    } else if a == 0x8 && n == 0x6 {
        Some(Instruction::ShiftRight { x, y })
    } else if a == 0x8 && n == 0x7 {
        Some(Instruction::SubRev { x, y })
    } else if a == 0x8 && n == 0xE {
        Some(Instruction::ShiftLeft { x, y })
    } else if a == 0x9 && n == 0x0 {
        Some(Instruction::SkipNeReg { x, y })
    } else if a == 0xA {
        Some(Instruction::LoadIndex { nnn })
    } else if a == 0xB {
        Some(Instruction::JumpOffset { nnn })
    } else if a == 0xC {
        Some(Instruction::Random { x, kk })
    } else if a == 0xD {
        Some(Instruction::Draw { x, y, n: n as u8 })
    } else if a == 0xE && kk == 0x9E {
        Some(Instruction::SkipKeyDown { x })
    } else if a == 0xE && kk == 0xA1 {
        Some(Instruction::SkipKeyUp { x })
    } else if a == 0xF && kk == 0x07 {
        Some(Instruction::LoadDelay { x })
    } else if a == 0xF && kk == 0x0A {
        Some(Instruction::WaitKey { x })
    } else if a == 0xF && kk == 0x15 {
        Some(Instruction::SetDelay { x })
    } else if a == 0xF && kk == 0x18 {
        Some(Instruction::SetSound { x })
    } else if a == 0xF && kk == 0x1E {
        Some(Instruction::AddIndex { x })
    } else if a == 0xF && kk == 0x29 {
        Some(Instruction::FontGlyph { x })
    } else if a == 0xF && kk == 0x33 {
        Some(Instruction::StoreBcd { x })
    } else if a == 0xF && kk == 0x55 {
        Some(Instruction::StoreRegs { x })
    } else if a == 0xF && kk == 0x65 {
        Some(Instruction::LoadRegs { x })
    } else {
        None
    }
}

/// Every operand of `ins` is in range: registers below 16, sprite heights
/// below 16, addresses below 0x1000.
pub open spec fn operands_in_range(ins: Instruction) -> bool {
    match ins {
        Instruction::Jump { nnn } | Instruction::Call { nnn } | Instruction::LoadIndex { nnn }
        | Instruction::JumpOffset { nnn } => nnn < 0x1000,
        Instruction::SkipEqImm { x, .. } | Instruction::SkipNeImm { x, .. }
        | Instruction::LoadImm { x, .. } | Instruction::AddImm { x, .. }
        | Instruction::Random { x, .. } | Instruction::SkipKeyDown { x }
        | Instruction::SkipKeyUp { x } | Instruction::LoadDelay { x }
        | Instruction::WaitKey { x } | Instruction::SetDelay { x }
        | Instruction::SetSound { x } | Instruction::AddIndex { x }
        | Instruction::FontGlyph { x } | Instruction::StoreBcd { x }
        | Instruction::StoreRegs { x } | Instruction::LoadRegs { x } => x < 16,
        Instruction::SkipEqReg { x, y } | Instruction::Move { x, y } | Instruction::Or { x, y }
        | Instruction::And { x, y } | Instruction::Xor { x, y } | Instruction::AddReg { x, y }
        | Instruction::SubReg { x, y } | Instruction::ShiftRight { x, y }
        | Instruction::SubRev { x, y } | Instruction::ShiftLeft { x, y }
        | Instruction::SkipNeReg { x, y } => x < 16 && y < 16,
        Instruction::Draw { x, y, n } => x < 16 && y < 16 && n < 16,
        Instruction::ClearScreen | Instruction::Return => true,
    }
}

proof fn lemma_fields(op: u16)
    ensures
        op >> 12u16 == op / 0x1000,
        (op >> 8u16) & 0xFu16 == (op / 0x100) % 0x10,
        (op >> 4u16) & 0xFu16 == (op / 0x10) % 0x10,
        op & 0xFu16 == op % 0x10,
        op & 0xFFFu16 == op % 0x1000,
        op & 0xFFu16 == op % 0x100,
{
    assert(op >> 12u16 == op / 0x1000) by (bit_vector);
    assert((op >> 8u16) & 0xFu16 == (op / 0x100) % 0x10) by (bit_vector);
    assert((op >> 4u16) & 0xFu16 == (op / 0x10) % 0x10) by (bit_vector);
    assert(op & 0xFu16 == op % 0x10) by (bit_vector);
    assert(op & 0xFFFu16 == op % 0x1000) by (bit_vector);
    assert(op & 0xFFu16 == op % 0x100) by (bit_vector);
}

/// Splits `op` into its nibble fields and finds the instruction it encodes.
pub fn decode(op: u16) -> (r: Option<Instruction>)
    ensures
        r == decode_spec(op),
        r matches Some(ins) ==> operands_in_range(ins),
{
    proof {
        lemma_fields(op);
    }
    let a = op >> 12;
    let x = ((op >> 8) & 0xF) as usize;
    let y = ((op >> 4) & 0xF) as usize;
    let n = op & 0xF;
    let nnn = op & 0xFFF;
    let kk = (op & 0xFF) as u8;
    if op == 0x00E0 {
        Some(Instruction::ClearScreen)
    } else if op == 0x00EE {
        Some(Instruction::Return)
    } else {
        match a {
            0x1 => Some(Instruction::Jump { nnn }),
            0x2 => Some(Instruction::Call { nnn }),
            0x3 => Some(Instruction::SkipEqImm { x, kk }),
            0x4 => Some(Instruction::SkipNeImm { x, kk }),
            0x5 if n == 0x0 => Some(Instruction::SkipEqReg { x, y }),
            0x6 => Some(Instruction::LoadImm { x, kk }),
            0x7 => Some(Instruction::AddImm { x, kk }),
            0x8 => match n {
                0x0 => Some(Instruction::Move { x, y }),
                0x1 => Some(Instruction::Or { x, y }),
                0x2 => Some(Instruction::And { x, y }),
                0x3 => Some(Instruction::Xor { x, y }),
                0x4 => Some(Instruction::AddReg { x, y }),
                0x5 => Some(Instruction::SubReg { x, y }),
                0x6 => Some(Instruction::ShiftRight { x, y }),
                0x7 => Some(Instruction::SubRev { x, y }),
                0xE => Some(Instruction::ShiftLeft { x, y }),
                _ => None,
            },
            0x9 if n == 0x0 => Some(Instruction::SkipNeReg { x, y }),
            0xA => Some(Instruction::LoadIndex { nnn }),
            0xB => Some(Instruction::JumpOffset { nnn }),
            0xC => Some(Instruction::Random { x, kk }),
            0xD => Some(Instruction::Draw { x, y, n: n as u8 }),
            0xE => match kk {
                0x9E => Some(Instruction::SkipKeyDown { x }),
                0xA1 => Some(Instruction::SkipKeyUp { x }),
                _ => None,
            },
            0xF => match kk {
                0x07 => Some(Instruction::LoadDelay { x }),
                0x0A => Some(Instruction::WaitKey { x }),
                0x15 => Some(Instruction::SetDelay { x }),
                0x18 => Some(Instruction::SetSound { x }),
                0x1E => Some(Instruction::AddIndex { x }),
                0x29 => Some(Instruction::FontGlyph { x }),
                0x33 => Some(Instruction::StoreBcd { x }),
                0x55 => Some(Instruction::StoreRegs { x }),
                0x65 => Some(Instruction::LoadRegs { x }),
                _ => None,
            },
            _ => None,
        }
    }
}

} // verus!

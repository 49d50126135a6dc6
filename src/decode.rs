use vstd::prelude::*;

verus! {

/// One decoded instruction. `x` and `y` name registers (0..15), `n` is a
/// 4-bit constant, `nn` an 8-bit constant and `nnn` a 12-bit address.
#[derive(PartialEq, Eq, Structural, Clone, Copy, Debug)]
pub enum Instruction {
    /// 00E0: turn every pixel off.
    ClearScreen,
    /// 00EE: return from a subroutine.
    Return,
    /// 0NNN: call a native machine routine, which this machine refuses.
    MachineCall { nnn: u16 },
    /// 1NNN: jump.
    Jump { nnn: u16 },
    /// 2NNN: call a subroutine.
    Call { nnn: u16 },
    /// 3XNN: skip the next instruction if VX == NN.
    SkipIfEqual { x: u8, nn: u8 },
    /// 4XNN: skip the next instruction if VX != NN.
    SkipIfNotEqual { x: u8, nn: u8 },
    /// 5XY0: skip the next instruction if VX == VY.
    SkipIfRegsEqual { x: u8, y: u8 },
    /// 6XNN: VX = NN.
    Load { x: u8, nn: u8 },
    /// 7XNN: VX += NN, wrapping, flag untouched.
    AddConst { x: u8, nn: u8 },
    /// 8XY0: VX = VY.
    Assign { x: u8, y: u8 },
    /// 8XY1: VX |= VY.
    Or { x: u8, y: u8 },
    /// 8XY2: VX &= VY.
    And { x: u8, y: u8 },
    /// 8XY3: VX ^= VY.
    Xor { x: u8, y: u8 },
    /// 8XY4: VX += VY, VF = carry.
    Add { x: u8, y: u8 },
    /// 8XY5: VX -= VY, VF = no borrow.
    Sub { x: u8, y: u8 },
    /// 8XY6: VX >>= 1, VF = the bit shifted out.
    ShiftRight { x: u8, y: u8 },
    /// 8XY7: VX = VY - VX, VF = no borrow.
    SubReverse { x: u8, y: u8 },
    /// 8XYE: VX <<= 1, VF = the bit shifted out.
    ShiftLeft { x: u8, y: u8 },
    /// 9XY0: skip the next instruction if VX != VY.
    SkipIfRegsNotEqual { x: u8, y: u8 },
    /// ANNN: I = NNN.
    SetIndex { nnn: u16 },
    /// BNNN: jump to NNN plus a register.
    JumpOffset { x: u8, nnn: u16 },
    /// CXNN: VX = a random byte AND NN.
    Random { x: u8, nn: u8 },
    /// DXYN: draw an N-row sprite at (VX, VY).
    Draw { x: u8, y: u8, n: u8 },
    /// EX9E: skip the next instruction if the key in VX is pressed.
    SkipIfKey { x: u8 },
    /// EXA1: skip the next instruction if the key in VX is not pressed.
    SkipIfNotKey { x: u8 },
    /// FX07: VX = delay timer.
    ReadDelay { x: u8 },
    /// FX0A: wait for a key press and store it in VX.
    WaitKey { x: u8 },
    /// FX15: delay timer = VX.
    SetDelay { x: u8 },
    /// FX18: sound timer = VX.
    SetSound { x: u8 },
    /// FX1E: I += VX.
    AddIndex { x: u8 },
    /// FX29: I = address of the font glyph for the low nibble of VX.
    FontGlyph { x: u8 },
    /// FX33: store the decimal digits of VX at I, I+1, I+2.
    StoreBcd { x: u8 },
    /// FX55: store V0..=VX at I onwards.
    StoreRegs { x: u8 },
    /// FX65: load V0..=VX from I onwards.
    LoadRegs { x: u8 },
    /// A word that matches no instruction.
    Unknown { word: u16 },
}

/// The four nibbles of an instruction word, most significant first.
pub open spec fn nibbles(w: u16) -> (int, int, int, int) {
    (w as int / 4096, (w as int / 256) % 16, (w as int / 16) % 16, w as int % 16)
}

/// What an instruction word means.
pub open spec fn decoded(w: u16) -> Instruction {
    let (a, b, c, d) = nibbles(w);
    let x = b as u8;
    let y = c as u8;
    let nn = (w % 256) as u8;
    let nnn = (w % 4096) as u16;
    if a == 0 {
        if w == 0x00E0 {
            Instruction::ClearScreen
        } else if w == 0x00EE {
            Instruction::Return
        } else {
            Instruction::MachineCall { nnn }
        }
    } else if a == 1 {
        Instruction::Jump { nnn }
    } else if a == 2 {
        Instruction::Call { nnn }
    } else if a == 3 {
        Instruction::SkipIfEqual { x, nn }
    } else if a == 4 {
        Instruction::SkipIfNotEqual { x, nn }
    } else if a == 5 {
        Instruction::SkipIfRegsEqual { x, y }
    } else if a == 6 {
        Instruction::Load { x, nn }
    } else if a == 7 {
        Instruction::AddConst { x, nn }
    } else if a == 8 {
        if d == 0 {
            Instruction::Assign { x, y }
        } else if d == 1 {
            Instruction::Or { x, y }
        } else if d == 2 {
            Instruction::And { x, y }
        } else if d == 3 {
            Instruction::Xor { x, y }
        } else if d == 4 {
            Instruction::Add { x, y }
        } else if d == 5 {
            Instruction::Sub { x, y }
        } else if d == 6 {
            Instruction::ShiftRight { x, y }
        } else if d == 7 {
            Instruction::SubReverse { x, y }
        } else if d == 0xE {
            Instruction::ShiftLeft { x, y }
        } else {
            Instruction::Unknown { word: w }
        }
    } else if a == 9 {
        Instruction::SkipIfRegsNotEqual { x, y }
    } else if a == 0xA {
        Instruction::SetIndex { nnn }
    } else if a == 0xB {
        Instruction::JumpOffset { x, nnn }
    } else if a == 0xC {
        Instruction::Random { x, nn }
    } else if a == 0xD {
        Instruction::Draw { x, y, n: d as u8 }
    } else if a == 0xE {
        if nn == 0x9E {
            Instruction::SkipIfKey { x }
        } else if nn == 0xA1 {
            Instruction::SkipIfNotKey { x }
        } else {
            Instruction::Unknown { word: w }
        }
    } else {
        if nn == 0x07 {
            Instruction::ReadDelay { x }
        } else if nn == 0x0A {
            Instruction::WaitKey { x }
        } else if nn == 0x15 {
            Instruction::SetDelay { x }
        } else if nn == 0x18 {
            Instruction::SetSound { x }
        } else if nn == 0x1E {
            Instruction::AddIndex { x }
        } else if nn == 0x29 {
            Instruction::FontGlyph { x }
        } else if nn == 0x33 {
            Instruction::StoreBcd { x }
        } else if nn == 0x55 {
            Instruction::StoreRegs { x }
        } else if nn == 0x65 {
            Instruction::LoadRegs { x }
        } else {
            Instruction::Unknown { word: w }
        }
    }
}

/// Every register that an instruction names is one of V0..VF, and every
/// sprite height fits in a nibble.
pub open spec fn operands_valid(i: Instruction) -> bool {
    match i {
        Instruction::SkipIfEqual { x, .. } | Instruction::SkipIfNotEqual { x, .. } | Instruction::Load { x, .. }
        | Instruction::AddConst { x, .. } | Instruction::Random { x, .. }
        | Instruction::SkipIfKey { x } | Instruction::SkipIfNotKey { x } | Instruction::ReadDelay { x }
        | Instruction::WaitKey { x } | Instruction::SetDelay { x } | Instruction::SetSound { x }
        | Instruction::AddIndex { x } | Instruction::FontGlyph { x } | Instruction::StoreBcd { x }
        | Instruction::StoreRegs { x } | Instruction::LoadRegs { x } => x < 16,
        Instruction::SkipIfRegsEqual { x, y } | Instruction::Assign { x, y } | Instruction::Or { x, y }
        | Instruction::And { x, y } | Instruction::Xor { x, y } | Instruction::Add { x, y }
        | Instruction::Sub { x, y } | Instruction::ShiftRight { x, y } | Instruction::SubReverse { x, y }
        | Instruction::ShiftLeft { x, y } | Instruction::SkipIfRegsNotEqual { x, y } => x < 16 && y < 16,
        Instruction::Draw { x, y, n } => x < 16 && y < 16 && n < 16,
        Instruction::JumpOffset { x, nnn } => x < 16 && nnn < 4096,
        Instruction::MachineCall { nnn } | Instruction::Jump { nnn } | Instruction::Call { nnn }
        | Instruction::SetIndex { nnn } => nnn < 4096,
        _ => true,
    }
}

/// Splits an instruction word into its fields and picks the instruction.
pub fn decode(w: u16) -> (r: Instruction)
    ensures
        r == decoded(w),
        operands_valid(r),
{
    let a = w / 4096;
    let x = ((w / 256) % 16) as u8;
    let y = ((w / 16) % 16) as u8;
    let d = (w % 16) as u8;
    let nn = (w % 256) as u8;
    let nnn = w % 4096;
    match a {
        0x0 => {
            if w == 0x00E0 {
                Instruction::ClearScreen
            } else if w == 0x00EE {
                Instruction::Return
            } else {
                Instruction::MachineCall { nnn }
            }
        },
        0x1 => Instruction::Jump { nnn },
        0x2 => Instruction::Call { nnn },
        0x3 => Instruction::SkipIfEqual { x, nn },
        0x4 => Instruction::SkipIfNotEqual { x, nn },
        0x5 => Instruction::SkipIfRegsEqual { x, y },
        0x6 => Instruction::Load { x, nn },
        0x7 => Instruction::AddConst { x, nn },
        0x8 => match d {
            0x0 => Instruction::Assign { x, y },
            0x1 => Instruction::Or { x, y },
            0x2 => Instruction::And { x, y },
            0x3 => Instruction::Xor { x, y },
            0x4 => Instruction::Add { x, y },
            0x5 => Instruction::Sub { x, y },
            0x6 => Instruction::ShiftRight { x, y },
            0x7 => Instruction::SubReverse { x, y },
            0xE => Instruction::ShiftLeft { x, y },
            _ => Instruction::Unknown { word: w },
        },
        0x9 => Instruction::SkipIfRegsNotEqual { x, y },
        0xA => Instruction::SetIndex { nnn },
        0xB => Instruction::JumpOffset { x, nnn },
        0xC => Instruction::Random { x, nn },
        0xD => Instruction::Draw { x, y, n: d },
        0xE => match nn {
            0x9E => Instruction::SkipIfKey { x },
            0xA1 => Instruction::SkipIfNotKey { x },
            _ => Instruction::Unknown { word: w },
        },
        _ => match nn {
            0x07 => Instruction::ReadDelay { x },
            0x0A => Instruction::WaitKey { x },
            0x15 => Instruction::SetDelay { x },
            0x18 => Instruction::SetSound { x },
            0x1E => Instruction::AddIndex { x },
            0x29 => Instruction::FontGlyph { x },
            0x33 => Instruction::StoreBcd { x },
            0x55 => Instruction::StoreRegs { x },
            0x65 => Instruction::LoadRegs { x },
            _ => Instruction::Unknown { word: w },
        },
    }
}

} // verus!

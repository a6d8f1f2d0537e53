use vstd::prelude::*;

verus! {

/// One decoded instruction.
///
/// `x` and `y` name general registers, `nn` is an 8-bit constant, `nnn` a
/// 12-bit address and `n` a sprite height.
#[derive(Clone, Copy, Debug, PartialEq, Eq, Structural)]
pub enum Instruction {
    /// `00E0`: blank the display.
    Cls,
    /// `00EE`: return from a subroutine.
    Ret,
    /// `1nnn`: jump to `nnn`.
    Jp { nnn: u16 },
    /// `2nnn`: call the subroutine at `nnn`.
    Call { nnn: u16 },
    /// `3xnn`: skip the next instruction if `Vx == nn`.
    SeImm { x: u8, nn: u8 },
    /// `4xnn`: skip the next instruction if `Vx != nn`.
    SneImm { x: u8, nn: u8 },
    /// `5xy0`: skip the next instruction if `Vx == Vy`.
    SeReg { x: u8, y: u8 },
    /// `6xnn`: `Vx = nn`.
    LdImm { x: u8, nn: u8 },
    /// `7xnn`: `Vx = Vx + nn`, without touching `VF`.
    AddImm { x: u8, nn: u8 },
    /// `8xy0`: `Vx = Vy`.
    LdReg { x: u8, y: u8 },
    /// `8xy1`: `Vx = Vx | Vy`.
    Or { x: u8, y: u8 },
    /// `8xy2`: `Vx = Vx & Vy`.
    And { x: u8, y: u8 },
    /// `8xy3`: `Vx = Vx ^ Vy`.
    Xor { x: u8, y: u8 },
    /// `8xy4`: `Vx = Vx + Vy`, `VF` = carry.
    AddReg { x: u8, y: u8 },
    /// `8xy5`: `Vx = Vx - Vy`, `VF` = no borrow.
    SubReg { x: u8, y: u8 },
    /// `8xy6`: `Vx = Vx >> 1`, `VF` = the bit shifted out.
    Shr { x: u8 },
    /// `8xy7`: `Vx = Vy - Vx`, `VF` = no borrow.
    SubnReg { x: u8, y: u8 },
    /// `8xyE`: `Vx = Vx << 1`, `VF` = the bit shifted out.
    Shl { x: u8 },
    /// `9xy0`: skip the next instruction if `Vx != Vy`.
    SneReg { x: u8, y: u8 },
    /// `Annn`: `I = nnn`.
    LdI { nnn: u16 },
    /// `Bnnn`: jump to `nnn + V0`.
    JpV0 { nnn: u16 },
    /// `Cxnn`: `Vx` = a random byte masked with `nn`.
    Rnd { x: u8, nn: u8 },
    /// `Dxyn`: draw the `n`-row sprite at `I` at position (`Vx`, `Vy`).
    Drw { x: u8, y: u8, n: u8 },
    /// `Ex9E`: skip the next instruction if key `Vx` is down.
    Skp { x: u8 },
    /// `ExA1`: skip the next instruction if key `Vx` is up.
    Sknp { x: u8 },
    /// `Fx07`: `Vx` = delay timer.
    LdVxDt { x: u8 },
    /// `Fx0A`: wait for a key and put its code in `Vx`.
    LdVxK { x: u8 },
    /// `Fx15`: delay timer = `Vx`.
    LdDtVx { x: u8 },
    /// `Fx18`: sound timer = `Vx`.
    LdStVx { x: u8 },
    /// `Fx1E`: `I = I + Vx`, without touching `VF`.
    AddI { x: u8 },
    /// `Fx29`: `I` = address of the glyph of the digit in `Vx`.
    LdF { x: u8 },
    /// `Fx33`: store the three decimal digits of `Vx` at `I`, `I + 1`, `I + 2`.
    LdB { x: u8 },
    /// `Fx55`: store `V0..=Vx` at `I` onwards.
    StoreRegs { x: u8 },
    /// `Fx65`: fill `V0..=Vx` from `I` onwards.
    LoadRegs { x: u8 },
}

/// The four 4-bit fields of an instruction word, highest first.
pub open spec fn nibbles(opcode: u16) -> (u8, u8, u8, u8) {
    (
        (opcode / 0x1000) as u8,
        ((opcode / 0x100) % 0x10) as u8,
        ((opcode / 0x10) % 0x10) as u8,
        (opcode % 0x10) as u8,
    )
}

/// The instruction that the word `opcode` encodes, or `None` where it encodes none.
pub open spec fn decode_opcode(opcode: u16) -> Option<Instruction> {
    let (a, x, y, n) = nibbles(opcode);
    let nn = (opcode % 0x100) as u8;
    let nnn = (opcode % 0x1000) as u16;
    if opcode == 0x00E0 {
        Some(Instruction::Cls)
    } else if opcode == 0x00EE {
        Some(Instruction::Ret)
    } else if a == 0x1 {
        Some(Instruction::Jp { nnn })
    } else if a == 0x2 {
        Some(Instruction::Call { nnn })
    } else if a == 0x3 {
        Some(Instruction::SeImm { x, nn })
    } else if a == 0x4 {
        Some(Instruction::SneImm { x, nn })
    } else if a == 0x5 && n == 0x0 {
        Some(Instruction::SeReg { x, y })
    } else if a == 0x6 {
        Some(Instruction::LdImm { x, nn })
    } else if a == 0x7 {
        Some(Instruction::AddImm { x, nn })
    } else if a == 0x8 && n == 0x0 {
        Some(Instruction::LdReg { x, y })
    } else if a == 0x8 && n == 0x1 {
        Some(Instruction::Or { x, y })
    } else if a == 0x8 && n == 0x2 {
        Some(Instruction::And { x, y })
    } else if a == 0x8 && n == 0x3 {
        Some(Instruction::Xor { x, y })
    } else if a == 0x8 && n == 0x4 {
        Some(Instruction::AddReg { x, y })
    } else if a == 0x8 && n == 0x5 {
        Some(Instruction::SubReg { x, y })
    } else if a == 0x8 && n == 0x6 {
        Some(Instruction::Shr { x })
    } else if a == 0x8 && n == 0x7 {
        Some(Instruction::SubnReg { x, y })
    } else if a == 0x8 && n == 0xE {
        Some(Instruction::Shl { x })
    } else if a == 0x9 && n == 0x0 {
        Some(Instruction::SneReg { x, y })
    } else if a == 0xA {
        Some(Instruction::LdI { nnn })
    } else if a == 0xB {
        Some(Instruction::JpV0 { nnn })
    } else if a == 0xC {
        Some(Instruction::Rnd { x, nn })
    } else if a == 0xD {
        Some(Instruction::Drw { x, y, n })
    } else if a == 0xE && nn == 0x9E {
        Some(Instruction::Skp { x })
    } else if a == 0xE && nn == 0xA1 {
        Some(Instruction::Sknp { x })
    } else if a == 0xF && nn == 0x07 {
        Some(Instruction::LdVxDt { x })
    } else if a == 0xF && nn == 0x0A {
        Some(Instruction::LdVxK { x })
    } else if a == 0xF && nn == 0x15 {
        Some(Instruction::LdDtVx { x })
    } else if a == 0xF && nn == 0x18 {
        Some(Instruction::LdStVx { x })
    } else if a == 0xF && nn == 0x1E {
        Some(Instruction::AddI { x })
    } else if a == 0xF && nn == 0x29 {
        Some(Instruction::LdF { x })
    } else if a == 0xF && nn == 0x33 {
        Some(Instruction::LdB { x })
    } else if a == 0xF && nn == 0x55 {
        Some(Instruction::StoreRegs { x })
    } else if a == 0xF && nn == 0x65 {
        Some(Instruction::LoadRegs { x })
    } else {
        None
    }
}

impl Instruction {
    /// Every register number and sprite height is below 16 and every address
    /// below 4096, as they are in any instruction that came out of a word.
    pub open spec fn wf(self) -> bool {
        match self {
            Instruction::Cls | Instruction::Ret => true,
            Instruction::Jp { nnn }
            | Instruction::Call { nnn }
            | Instruction::LdI { nnn }
            | Instruction::JpV0 { nnn } => nnn < 0x1000,
            Instruction::SeImm { x, .. }
            | Instruction::SneImm { x, .. }
            | Instruction::LdImm { x, .. }
            | Instruction::AddImm { x, .. }
            | Instruction::Rnd { x, .. } => x < 16,
            Instruction::SeReg { x, y }
            | Instruction::LdReg { x, y }
            | Instruction::Or { x, y }
            | Instruction::And { x, y }
            | Instruction::Xor { x, y }
            | Instruction::AddReg { x, y }
            | Instruction::SubReg { x, y }
            | Instruction::SubnReg { x, y }
            | Instruction::SneReg { x, y } => x < 16 && y < 16,
            Instruction::Drw { x, y, n } => x < 16 && y < 16 && n < 16,
            Instruction::Shr { x }
            | Instruction::Shl { x }
            | Instruction::Skp { x }
            | Instruction::Sknp { x }
            | Instruction::LdVxDt { x }
            | Instruction::LdVxK { x }
            | Instruction::LdDtVx { x }
            | Instruction::LdStVx { x }
            | Instruction::AddI { x }
            | Instruction::LdF { x }
            | Instruction::LdB { x }
            | Instruction::StoreRegs { x }
            | Instruction::LoadRegs { x } => x < 16,
        }
    }

    /// Decodes one instruction word.
    pub fn from_opcode(opcode: u16) -> (r: Option<Instruction>)
        ensures
            r == decode_opcode(opcode),
            r matches Some(instruction) ==> instruction.wf(),
    {
        let a: u16 = opcode >> 12;
        let b: u16 = (opcode >> 8) & 0xF;
        let c: u16 = (opcode >> 4) & 0xF;
        let d: u16 = opcode & 0xF;
        let low: u16 = opcode & 0xFF;
        let nnn: u16 = opcode & 0xFFF;
        proof {
            assert(opcode >> 12 == opcode / 0x1000) by (bit_vector);
            assert((opcode >> 8) & 0xF == (opcode / 0x100) % 0x10) by (bit_vector);
            assert((opcode >> 4) & 0xF == (opcode / 0x10) % 0x10) by (bit_vector);
            assert(opcode & 0xF == opcode % 0x10) by (bit_vector);
            assert(opcode & 0xFF == opcode % 0x100) by (bit_vector);
            assert(opcode & 0xFFF == opcode % 0x1000) by (bit_vector);
        }
        let x: u8 = b as u8;
        let y: u8 = c as u8;
        let n: u8 = d as u8;
        let nn: u8 = low as u8;
        match (a, b, c, d) {
            (0x0, 0x0, 0xE, 0x0) => Some(Instruction::Cls),
            (0x0, 0x0, 0xE, 0xE) => Some(Instruction::Ret),
            (0x1, _, _, _) => Some(Instruction::Jp { nnn }),
            (0x2, _, _, _) => Some(Instruction::Call { nnn }),
            (0x3, _, _, _) => Some(Instruction::SeImm { x, nn }),
            (0x4, _, _, _) => Some(Instruction::SneImm { x, nn }),
            (0x5, _, _, 0x0) => Some(Instruction::SeReg { x, y }),
            (0x6, _, _, _) => Some(Instruction::LdImm { x, nn }),
            (0x7, _, _, _) => Some(Instruction::AddImm { x, nn }),
            (0x8, _, _, 0x0) => Some(Instruction::LdReg { x, y }),
            (0x8, _, _, 0x1) => Some(Instruction::Or { x, y }),
            (0x8, _, _, 0x2) => Some(Instruction::And { x, y }),
            (0x8, _, _, 0x3) => Some(Instruction::Xor { x, y }),
            (0x8, _, _, 0x4) => Some(Instruction::AddReg { x, y }),
            (0x8, _, _, 0x5) => Some(Instruction::SubReg { x, y }),
            (0x8, _, _, 0x6) => Some(Instruction::Shr { x }),
            (0x8, _, _, 0x7) => Some(Instruction::SubnReg { x, y }),
            (0x8, _, _, 0xE) => Some(Instruction::Shl { x }),
            (0x9, _, _, 0x0) => Some(Instruction::SneReg { x, y }),
            (0xA, _, _, _) => Some(Instruction::LdI { nnn }),
            (0xB, _, _, _) => Some(Instruction::JpV0 { nnn }),
            (0xC, _, _, _) => Some(Instruction::Rnd { x, nn }),
            (0xD, _, _, _) => Some(Instruction::Drw { x, y, n }),
            (0xE, _, 0x9, 0xE) => Some(Instruction::Skp { x }),
            (0xE, _, 0xA, 0x1) => Some(Instruction::Sknp { x }),
            (0xF, _, 0x0, 0x7) => Some(Instruction::LdVxDt { x }),
            (0xF, _, 0x0, 0xA) => Some(Instruction::LdVxK { x }),
            (0xF, _, 0x1, 0x5) => Some(Instruction::LdDtVx { x }),
            (0xF, _, 0x1, 0x8) => Some(Instruction::LdStVx { x }),
            (0xF, _, 0x1, 0xE) => Some(Instruction::AddI { x }),
            (0xF, _, 0x2, 0x9) => Some(Instruction::LdF { x }),
            (0xF, _, 0x3, 0x3) => Some(Instruction::LdB { x }),
            (0xF, _, 0x5, 0x5) => Some(Instruction::StoreRegs { x }),
            (0xF, _, 0x6, 0x5) => Some(Instruction::LoadRegs { x }),
            _ => None,
        }
    }
}

} // verus!

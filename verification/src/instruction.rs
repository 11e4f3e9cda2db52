use vstd::prelude::*;

verus! {

/// One decoded instruction.
///
/// `x` and `y` name general registers, `nn` is an 8-bit immediate, `addr` a
/// 12-bit address and `n` a 4-bit count. The comment on each variant gives
/// its encoding as four hexadecimal digits.
#[derive(Clone, Copy, Debug, PartialEq, Eq)]
pub enum Instruction {
    /// 00E0: clear the display.
    ClearScreen,
    /// 00EE: return from a subroutine.
    Return,
    /// 1nnn: jump to `addr`.
    Jump { addr: u16 },
    /// 2nnn: call the subroutine at `addr`.
    Call { addr: u16 },
    /// 3xnn: skip the next instruction if Vx equals `nn`.
    SkipEqImm { x: u8, nn: u8 },
    /// 4xnn: skip the next instruction if Vx differs from `nn`.
    SkipNeImm { x: u8, nn: u8 },
    /// 5xy0: skip the next instruction if Vx equals Vy.
    SkipEqReg { x: u8, y: u8 },
    /// 6xnn: set Vx to `nn`.
    LoadImm { x: u8, nn: u8 },
    /// 7xnn: add `nn` to Vx, wrapping, without touching VF.
    AddImm { x: u8, nn: u8 },
    /// 8xy0: set Vx to Vy.
    Move { x: u8, y: u8 },
    /// 8xy1: set Vx to Vx OR Vy.
    Or { x: u8, y: u8 },
    /// 8xy2: set Vx to Vx AND Vy.
    And { x: u8, y: u8 },
    /// 8xy3: set Vx to Vx XOR Vy.
    Xor { x: u8, y: u8 },
    /// 8xy4: add Vy to Vx, wrapping; VF receives the carry.
    AddReg { x: u8, y: u8 },
    /// 8xy5: subtract Vy from Vx, wrapping; VF is 1 unless there was a borrow.
    SubReg { x: u8, y: u8 },
    /// 8xy6: shift Vx right by one; VF receives the bit shifted out.
    ShiftRight { x: u8 },
    /// 8xy7: set Vx to Vy minus Vx, wrapping; VF is 1 unless there was a borrow.
    SubFrom { x: u8, y: u8 },
    /// 8xyE: shift Vx left by one; VF receives the bit shifted out.
    ShiftLeft { x: u8 },
    /// 9xy0: skip the next instruction if Vx differs from Vy.
    SkipNeReg { x: u8, y: u8 },
    /// Annn: set I to `addr`.
    LoadIndex { addr: u16 },
    /// Bnnn: jump to `addr` plus V0.
    JumpOffset { addr: u16 },
    /// Cxnn: set Vx to a random byte AND `nn`.
    Random { x: u8, nn: u8 },
    /// Dxyn: draw the `n`-row sprite at I at column Vx, row Vy.
    Draw { x: u8, y: u8, n: u8 },
    /// Ex9E: skip the next instruction if the key numbered Vx is down.
    SkipKeyDown { x: u8 },
    /// ExA1: skip the next instruction if the key numbered Vx is up.
    SkipKeyUp { x: u8 },
    /// Fx07: set Vx to the delay timer.
    ReadDelay { x: u8 },
    /// Fx0A: wait for a key and store its number in Vx.
    WaitKey { x: u8 },
    /// Fx15: set the delay timer to Vx.
    SetDelay { x: u8 },
    /// Fx18: set the sound timer to Vx.
    SetSound { x: u8 },
    /// Fx1E: add Vx to I, wrapping.
    AddIndex { x: u8 },
    /// Fx29: set I to the address of the font glyph for Vx.
    FontAddr { x: u8 },
    /// Fx33: store the decimal digits of Vx at I, I+1 and I+2.
    StoreBcd { x: u8 },
    /// Fx55: store V0 to Vx at I and the addresses after it.
    StoreRegs { x: u8 },
    /// Fx65: load V0 to Vx from I and the addresses after it.
    LoadRegs { x: u8 },
}

impl Instruction {
    /// Register indices and counts are below 16, addresses below 4096.
    pub open spec fn wf(self) -> bool {
        match self {
            Instruction::ClearScreen | Instruction::Return => true,
            Instruction::Jump { addr }
            | Instruction::Call { addr }
            | Instruction::LoadIndex { addr }
            | Instruction::JumpOffset { addr } => addr < 0x1000,
            Instruction::SkipEqImm { x, nn }
            | Instruction::SkipNeImm { x, nn }
            | Instruction::LoadImm { x, nn }
            | Instruction::AddImm { x, nn }
            | Instruction::Random { x, nn } => x < 16,
            Instruction::SkipEqReg { x, y }
            | Instruction::Move { x, y }
            | Instruction::Or { x, y }
            | Instruction::And { x, y }
            | Instruction::Xor { x, y }
            | Instruction::AddReg { x, y }
            | Instruction::SubReg { x, y }
            | Instruction::SubFrom { x, y }
            | Instruction::SkipNeReg { x, y } => x < 16 && y < 16,
            Instruction::Draw { x, y, n } => x < 16 && y < 16 && n < 16,
            Instruction::ShiftRight { x }
            | Instruction::ShiftLeft { x }
            | Instruction::SkipKeyDown { x }
            | Instruction::SkipKeyUp { x }
            | Instruction::ReadDelay { x }
            | Instruction::WaitKey { x }
            | Instruction::SetDelay { x }
            | Instruction::SetSound { x }
            | Instruction::AddIndex { x }
            | Instruction::FontAddr { x }
            | Instruction::StoreBcd { x }
            | Instruction::StoreRegs { x }
            | Instruction::LoadRegs { x } => x < 16,
        }
    }
}

/// Hexadecimal digit `k` of `op`, counted from the least significant (digit 0)
/// to the most significant (digit 3).
pub open spec fn hex_digit(op: u16, k: int) -> u8 {
    if k == 0 {
        (op % 16) as u8
    } else if k == 1 {
        (op / 16 % 16) as u8
    } else if k == 2 {
        (op / 256 % 16) as u8
    } else {
        (op / 4096) as u8
    }
}

/// The instruction that the word `op` encodes, or `None` where it encodes none.
///
/// With the digits of `op` written `a x y n`, most significant first: `x` and
/// `y` are the register fields, `nn` is the low byte and `addr` the low
/// twelve bits.
pub open spec fn decode_spec(op: u16) -> Option<Instruction> {
    let a = hex_digit(op, 3);
    let x = hex_digit(op, 2);
    let y = hex_digit(op, 1);
    let n = hex_digit(op, 0);
    let nn = (op % 256) as u8;
    let addr = (op % 4096) as u16;
    if op == 0x00E0 {
        Some(Instruction::ClearScreen)
    } else if op == 0x00EE {
        Some(Instruction::Return)
    } else if a == 0x1 {
        Some(Instruction::Jump { addr })
    } else if a == 0x2 {
        Some(Instruction::Call { addr })
    } else if a == 0x3 {
        Some(Instruction::SkipEqImm { x, nn })
    } else if a == 0x4 {
        Some(Instruction::SkipNeImm { x, nn })
    } else if a == 0x5 && n == 0x0 {
        Some(Instruction::SkipEqReg { x, y })
    } else if a == 0x6 {
        Some(Instruction::LoadImm { x, nn })
    } else if a == 0x7 {
        Some(Instruction::AddImm { x, nn })
    } else if a == 0x8 && n == 0x0 {
        Some(Instruction::Move { x, y })
    } else if a == 0x8 && n == 0x1 {
        Some(Instruction::Or { x, y })
    } else if a == 0x8 && n == 0x2 {
        Some(Instruction::And { x, y })
    } else if a == 0x8 && n == 0x3 {
        Some(Instruction::Xor { x, y })
    } else if a == 0x8 && n == 0x4 {
        Some(Instruction::AddReg { x, y })
    } else if a == 0x8 && n == 0x5 {
        Some(Instruction::SubReg { x, y })
    } else if a == 0x8 && n == 0x6 {
        Some(Instruction::ShiftRight { x })
    } else if a == 0x8 && n == 0x7 {
        Some(Instruction::SubFrom { x, y })
    } else if a == 0x8 && n == 0xE {
        Some(Instruction::ShiftLeft { x })
    } else if a == 0x9 && n == 0x0 {
        Some(Instruction::SkipNeReg { x, y })
    } else if a == 0xA {
        Some(Instruction::LoadIndex { addr })
    } else if a == 0xB {
        Some(Instruction::JumpOffset { addr })
    } else if a == 0xC {
        Some(Instruction::Random { x, nn })
    } else if a == 0xD {
        Some(Instruction::Draw { x, y, n })
    } else if a == 0xE && nn == 0x9E {
        Some(Instruction::SkipKeyDown { x })
    } else if a == 0xE && nn == 0xA1 {
        Some(Instruction::SkipKeyUp { x })
    } else if a == 0xF && nn == 0x07 {
        Some(Instruction::ReadDelay { x })
    } else if a == 0xF && nn == 0x0A {
        Some(Instruction::WaitKey { x })
    } else if a == 0xF && nn == 0x15 {
        Some(Instruction::SetDelay { x })
    } else if a == 0xF && nn == 0x18 {
        Some(Instruction::SetSound { x })
    } else if a == 0xF && nn == 0x1E {
        Some(Instruction::AddIndex { x })
    } else if a == 0xF && nn == 0x29 {
        Some(Instruction::FontAddr { x })
    } else if a == 0xF && nn == 0x33 {
        Some(Instruction::StoreBcd { x })
    } else if a == 0xF && nn == 0x55 {
        Some(Instruction::StoreRegs { x })
    } else if a == 0xF && nn == 0x65 {
        Some(Instruction::LoadRegs { x })
    } else {
        None
    }
}

/// Masks and shifts pick out the same fields as division and remainder.
proof fn lemma_fields(op: u16)
    ensures
        (op & 0xF000) >> 12 == op / 4096,
        (op & 0x0F00) >> 8 == op / 256 % 16,
        (op & 0x00F0) >> 4 == op / 16 % 16,
        op & 0x000F == op % 16,
        op & 0x00FF == op % 256,
        op & 0x0FFF == op % 4096,
{
    assert((op & 0xF000) >> 12 == op / 4096) by (bit_vector);
    assert((op & 0x0F00) >> 8 == op / 256 % 16) by (bit_vector);
    assert((op & 0x00F0) >> 4 == op / 16 % 16) by (bit_vector);
    assert(op & 0x000F == op % 16) by (bit_vector);
    assert(op & 0x00FF == op % 256) by (bit_vector);
    assert(op & 0x0FFF == op % 4096) by (bit_vector);
}

/// Decodes one instruction word.
///
/// Decoding reads nothing but the word itself. A word outside the
/// instruction set gives `None`.
pub fn decode(op: u16) -> (r: Option<Instruction>)
    ensures
        r == decode_spec(op),
        r matches Some(instr) ==> instr.wf(),
{
    proof {
        lemma_fields(op);
    }
    let a: u8 = ((op & 0xF000) >> 12) as u8;
    let x: u8 = ((op & 0x0F00) >> 8) as u8;
    let y: u8 = ((op & 0x00F0) >> 4) as u8;
    let n: u8 = (op & 0x000F) as u8;
    let nn: u8 = (op & 0x00FF) as u8;
    let addr: u16 = op & 0x0FFF;
    match (a, x, y, n) {
        (0x0, 0x0, 0xE, 0x0) => Some(Instruction::ClearScreen),
        (0x0, 0x0, 0xE, 0xE) => Some(Instruction::Return),
        (0x1, _, _, _) => Some(Instruction::Jump { addr }),
        (0x2, _, _, _) => Some(Instruction::Call { addr }),
        (0x3, _, _, _) => Some(Instruction::SkipEqImm { x, nn }),
        (0x4, _, _, _) => Some(Instruction::SkipNeImm { x, nn }),
        (0x5, _, _, 0x0) => Some(Instruction::SkipEqReg { x, y }),
        (0x6, _, _, _) => Some(Instruction::LoadImm { x, nn }),
        (0x7, _, _, _) => Some(Instruction::AddImm { x, nn }),
        (0x8, _, _, 0x0) => Some(Instruction::Move { x, y }),
        (0x8, _, _, 0x1) => Some(Instruction::Or { x, y }),
        (0x8, _, _, 0x2) => Some(Instruction::And { x, y }),
        (0x8, _, _, 0x3) => Some(Instruction::Xor { x, y }),
        (0x8, _, _, 0x4) => Some(Instruction::AddReg { x, y }),
        (0x8, _, _, 0x5) => Some(Instruction::SubReg { x, y }),
        (0x8, _, _, 0x6) => Some(Instruction::ShiftRight { x }),
        (0x8, _, _, 0x7) => Some(Instruction::SubFrom { x, y }),
        (0x8, _, _, 0xE) => Some(Instruction::ShiftLeft { x }),
        (0x9, _, _, 0x0) => Some(Instruction::SkipNeReg { x, y }),
        (0xA, _, _, _) => Some(Instruction::LoadIndex { addr }),
        (0xB, _, _, _) => Some(Instruction::JumpOffset { addr }),
        (0xC, _, _, _) => Some(Instruction::Random { x, nn }),
        (0xD, _, _, _) => Some(Instruction::Draw { x, y, n }),
        (0xE, _, 0x9, 0xE) => Some(Instruction::SkipKeyDown { x }),
        (0xE, _, 0xA, 0x1) => Some(Instruction::SkipKeyUp { x }),
        (0xF, _, 0x0, 0x7) => Some(Instruction::ReadDelay { x }),
        (0xF, _, 0x0, 0xA) => Some(Instruction::WaitKey { x }),
        (0xF, _, 0x1, 0x5) => Some(Instruction::SetDelay { x }),
        (0xF, _, 0x1, 0x8) => Some(Instruction::SetSound { x }),
        (0xF, _, 0x1, 0xE) => Some(Instruction::AddIndex { x }),
        (0xF, _, 0x2, 0x9) => Some(Instruction::FontAddr { x }),
        (0xF, _, 0x3, 0x3) => Some(Instruction::StoreBcd { x }),
        (0xF, _, 0x5, 0x5) => Some(Instruction::StoreRegs { x }),
        (0xF, _, 0x6, 0x5) => Some(Instruction::LoadRegs { x }),
        _ => None,
    }
}

} // verus!

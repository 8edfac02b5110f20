use vstd::prelude::*;
use crate::state::Fault;

verus! {

/// A decoded instruction. `x` and `y` name registers, `kk` is an immediate
/// byte, `n` a nibble and `nnn` a 12-bit address.
#[derive(Clone, Copy, Debug, PartialEq, Eq, Structural)]
pub enum Instruction {
    /// 00E0
    Clear,
    /// 00EE
    Return,
    /// 1nnn
    Jump { nnn: u16 },
    /// 2nnn
    Call { nnn: u16 },
    /// 3xkk
    SkipEqImm { x: u8, kk: u8 },
    /// 4xkk
    SkipNeImm { x: u8, kk: u8 },
    /// 5xy0
    SkipEqReg { x: u8, y: u8 },
    /// 6xkk
    LoadImm { x: u8, kk: u8 },
    /// 7xkk
    AddImm { x: u8, kk: u8 },
    /// 8xy0
    Copy { x: u8, y: u8 },
    /// 8xy1
    Or { x: u8, y: u8 },
    /// 8xy2
    And { x: u8, y: u8 },
    /// 8xy3
    Xor { x: u8, y: u8 },
    /// 8xy4
    Add { x: u8, y: u8 },
    /// 8xy5
    Sub { x: u8, y: u8 },
    /// 8xy6
    ShiftRight { x: u8, y: u8 },
    /// 8xy7
    SubFrom { x: u8, y: u8 },
    /// 8xyE
    ShiftLeft { x: u8, y: u8 },
    /// 9xy0
    SkipNeReg { x: u8, y: u8 },
    /// Annn
    LoadAddr { nnn: u16 },
    /// Bnnn
    JumpOffset { nnn: u16 },
    /// Cxkk
    Random { x: u8, kk: u8 },
    /// Dxyn
    Draw { x: u8, y: u8, n: u8 },
    /// Ex9E
    SkipKeyDown { x: u8 },
    /// ExA1
    SkipKeyUp { x: u8 },
    /// Fx07
    ReadDelay { x: u8 },
    /// Fx0A
    WaitKey { x: u8 },
    /// Fx15
    SetDelay { x: u8 },
    /// Fx18
    SetSound { x: u8 },
    /// Fx1E
    AddAddr { x: u8 },
    /// Fx29
    LoadFont { x: u8 },
    /// Fx33
    StoreBcd { x: u8 },
    /// Fx55
    StoreRegs { x: u8 },
    /// Fx65
    LoadRegs { x: u8 },
}

impl Instruction {
    /// Every operand fits its field: nibbles below 16, addresses below 0x1000.
    pub open spec fn wf(self) -> bool {
        match self {
            Instruction::Clear | Instruction::Return => true,
            Instruction::Jump { nnn } | Instruction::Call { nnn } | Instruction::LoadAddr { nnn }
            | Instruction::JumpOffset { nnn } => nnn < 0x1000,
            Instruction::SkipEqImm { x, .. } | Instruction::SkipNeImm { x, .. }
            | Instruction::LoadImm { x, .. } | Instruction::AddImm { x, .. }
            | Instruction::Random { x, .. } => x < 16,
            Instruction::SkipEqReg { x, y } | Instruction::Copy { x, y } | Instruction::Or { x, y }
            | Instruction::And { x, y } | Instruction::Xor { x, y } | Instruction::Add { x, y }
            | Instruction::Sub { x, y } | Instruction::ShiftRight { x, y }
            | Instruction::SubFrom { x, y } | Instruction::ShiftLeft { x, y }
            | Instruction::SkipNeReg { x, y } => x < 16 && y < 16,
            Instruction::Draw { x, y, n } => x < 16 && y < 16 && n < 16,
            Instruction::SkipKeyDown { x } | Instruction::SkipKeyUp { x }
            | Instruction::ReadDelay { x } | Instruction::WaitKey { x }
            | Instruction::SetDelay { x } | Instruction::SetSound { x }
            | Instruction::AddAddr { x } | Instruction::LoadFont { x }
            | Instruction::StoreBcd { x } | Instruction::StoreRegs { x }
            | Instruction::LoadRegs { x } => x < 16,
        }
    }
}

/// The word with top nibble `op`, register fields `x` and `y`, low nibble `n`.
pub open spec fn word_xyn(op: int, x: u8, y: u8, n: int) -> u16 {
    (op * 0x1000 + x * 0x100 + y * 0x10 + n) as u16
}

/// The word with top nibble `op`, register field `x` and low byte `kk`.
pub open spec fn word_xkk(op: int, x: u8, kk: int) -> u16 {
    (op * 0x1000 + x * 0x100 + kk) as u16
}

/// The instruction word that encodes `ins`.
pub open spec fn encode(ins: Instruction) -> u16 {
    match ins {
        Instruction::Clear => 0x00E0,
        Instruction::Return => 0x00EE,
        Instruction::Jump { nnn } => (0x1000 + nnn) as u16,
        Instruction::Call { nnn } => (0x2000 + nnn) as u16,
        Instruction::SkipEqImm { x, kk } => word_xkk(0x3, x, kk as int),
        Instruction::SkipNeImm { x, kk } => word_xkk(0x4, x, kk as int),
        Instruction::SkipEqReg { x, y } => word_xyn(0x5, x, y, 0x0),
        Instruction::LoadImm { x, kk } => word_xkk(0x6, x, kk as int),
        Instruction::AddImm { x, kk } => word_xkk(0x7, x, kk as int),
        Instruction::Copy { x, y } => word_xyn(0x8, x, y, 0x0),
        Instruction::Or { x, y } => word_xyn(0x8, x, y, 0x1),
        Instruction::And { x, y } => word_xyn(0x8, x, y, 0x2),
        Instruction::Xor { x, y } => word_xyn(0x8, x, y, 0x3),
        Instruction::Add { x, y } => word_xyn(0x8, x, y, 0x4),
        Instruction::Sub { x, y } => word_xyn(0x8, x, y, 0x5),
        Instruction::ShiftRight { x, y } => word_xyn(0x8, x, y, 0x6),
        Instruction::SubFrom { x, y } => word_xyn(0x8, x, y, 0x7),
        Instruction::ShiftLeft { x, y } => word_xyn(0x8, x, y, 0xE),
        Instruction::SkipNeReg { x, y } => word_xyn(0x9, x, y, 0x0),
        Instruction::LoadAddr { nnn } => (0xA000 + nnn) as u16,
        Instruction::JumpOffset { nnn } => (0xB000 + nnn) as u16,
        Instruction::Random { x, kk } => word_xkk(0xC, x, kk as int),
        Instruction::Draw { x, y, n } => word_xyn(0xD, x, y, n as int),
        Instruction::SkipKeyDown { x } => word_xkk(0xE, x, 0x9E),
        Instruction::SkipKeyUp { x } => word_xkk(0xE, x, 0xA1),
        Instruction::ReadDelay { x } => word_xkk(0xF, x, 0x07),
        Instruction::WaitKey { x } => word_xkk(0xF, x, 0x0A),
        Instruction::SetDelay { x } => word_xkk(0xF, x, 0x15),
        Instruction::SetSound { x } => word_xkk(0xF, x, 0x18),
        Instruction::AddAddr { x } => word_xkk(0xF, x, 0x1E),
        Instruction::LoadFont { x } => word_xkk(0xF, x, 0x29),
        Instruction::StoreBcd { x } => word_xkk(0xF, x, 0x33),
        Instruction::StoreRegs { x } => word_xkk(0xF, x, 0x55),
        Instruction::LoadRegs { x } => word_xkk(0xF, x, 0x65),
    }
}

/// A word is its four nibbles.
pub proof fn lemma_nibbles(w: u16)
    ensures
        w == (w / 0x1000) * 0x1000 + ((w / 0x100) % 16) * 0x100 + ((w / 0x10) % 16) * 0x10 + w % 16,
        w % 0x100 == ((w / 0x10) % 16) * 0x10 + w % 16,
        w % 0x1000 == ((w / 0x100) % 16) * 0x100 + w % 0x100,
        w / 0x1000 < 16,
{
    let a = w as int;
    assert(a == (a / 0x1000) * 0x1000 + ((a / 0x100) % 16) * 0x100 + ((a / 0x10) % 16) * 0x10 + a % 16
        && a % 0x100 == ((a / 0x10) % 16) * 0x10 + a % 16
        && a % 0x1000 == ((a / 0x100) % 16) * 0x100 + a % 0x100) by (nonlinear_arith)
        requires
            0 <= a < 0x10000,
    ;
}

/// The fields read back from a word built from nibbles.
proof fn lemma_word_fields(op: int, x: int, y: int, n: int)
    requires
        0 <= op < 16,
        0 <= x < 16,
        0 <= y < 16,
        0 <= n < 16,
    ensures
        ({
            let w = op * 0x1000 + x * 0x100 + y * 0x10 + n;
            &&& 0 <= w < 0x10000
            &&& w / 0x1000 == op
            &&& (w / 0x100) % 16 == x
            &&& (w / 0x10) % 16 == y
            &&& w % 16 == n
            &&& w % 0x100 == y * 0x10 + n
            &&& w % 0x1000 == x * 0x100 + y * 0x10 + n
        }),
{
    let w = op * 0x1000 + x * 0x100 + y * 0x10 + n;
    assert(w / 0x1000 == op && (w / 0x100) % 16 == x && (w / 0x10) % 16 == y && w % 16 == n
        && w % 0x100 == y * 0x10 + n && w % 0x1000 == x * 0x100 + y * 0x10 + n) by (nonlinear_arith)
        requires
            0 <= op < 16,
            0 <= x < 16,
            0 <= y < 16,
            0 <= n < 16,
            w == op * 0x1000 + x * 0x100 + y * 0x10 + n,
    ;
}

/// The top nibble of a valid instruction's encoding, and the fields
/// below it, are those the instruction holds.
pub proof fn lemma_encode_fields(ins: Instruction)
    requires
        ins.wf(),
    ensures
        ({
            let e = encode(ins) as int;
            let op = e / 0x1000;
            let x = (e / 0x100) % 16;
            let y = (e / 0x10) % 16;
            let n = e % 16;
            let kk = e % 0x100;
            let nnn = e % 0x1000;
            match ins {
                Instruction::Clear => e == 0x00E0,
                Instruction::Return => e == 0x00EE,
                Instruction::Jump { nnn: a } => op == 0x1 && nnn == a,
                Instruction::Call { nnn: a } => op == 0x2 && nnn == a,
                Instruction::SkipEqImm { x: a, kk: b } => op == 0x3 && x == a && kk == b,
                Instruction::SkipNeImm { x: a, kk: b } => op == 0x4 && x == a && kk == b,
                Instruction::SkipEqReg { x: a, y: b } => op == 0x5 && x == a && y == b && n == 0,
                Instruction::LoadImm { x: a, kk: b } => op == 0x6 && x == a && kk == b,
                Instruction::AddImm { x: a, kk: b } => op == 0x7 && x == a && kk == b,
                Instruction::Copy { x: a, y: b } => op == 0x8 && x == a && y == b && n == 0x0,
                Instruction::Or { x: a, y: b } => op == 0x8 && x == a && y == b && n == 0x1,
                Instruction::And { x: a, y: b } => op == 0x8 && x == a && y == b && n == 0x2,
                Instruction::Xor { x: a, y: b } => op == 0x8 && x == a && y == b && n == 0x3,
                Instruction::Add { x: a, y: b } => op == 0x8 && x == a && y == b && n == 0x4,
                Instruction::Sub { x: a, y: b } => op == 0x8 && x == a && y == b && n == 0x5,
                Instruction::ShiftRight { x: a, y: b } => op == 0x8 && x == a && y == b && n == 0x6,
                Instruction::SubFrom { x: a, y: b } => op == 0x8 && x == a && y == b && n == 0x7,
                Instruction::ShiftLeft { x: a, y: b } => op == 0x8 && x == a && y == b && n == 0xE,
                Instruction::SkipNeReg { x: a, y: b } => op == 0x9 && x == a && y == b && n == 0,
                Instruction::LoadAddr { nnn: a } => op == 0xA && nnn == a,
                Instruction::JumpOffset { nnn: a } => op == 0xB && nnn == a,
                Instruction::Random { x: a, kk: b } => op == 0xC && x == a && kk == b,
                Instruction::Draw { x: a, y: b, n: c } => op == 0xD && x == a && y == b && n == c,
                Instruction::SkipKeyDown { x: a } => op == 0xE && x == a && kk == 0x9E,
                Instruction::SkipKeyUp { x: a } => op == 0xE && x == a && kk == 0xA1,
                Instruction::ReadDelay { x: a } => op == 0xF && x == a && kk == 0x07,
                Instruction::WaitKey { x: a } => op == 0xF && x == a && kk == 0x0A,
                Instruction::SetDelay { x: a } => op == 0xF && x == a && kk == 0x15,
                Instruction::SetSound { x: a } => op == 0xF && x == a && kk == 0x18,
                Instruction::AddAddr { x: a } => op == 0xF && x == a && kk == 0x1E,
                Instruction::LoadFont { x: a } => op == 0xF && x == a && kk == 0x29,
                Instruction::StoreBcd { x: a } => op == 0xF && x == a && kk == 0x33,
                Instruction::StoreRegs { x: a } => op == 0xF && x == a && kk == 0x55,
                Instruction::LoadRegs { x: a } => op == 0xF && x == a && kk == 0x65,
            }
        }),
{
    match ins {
        Instruction::Clear | Instruction::Return => {},
        Instruction::Jump { nnn } | Instruction::Call { nnn } | Instruction::LoadAddr { nnn }
        | Instruction::JumpOffset { nnn } => {
            let v = nnn as int;
            lemma_word_fields(0, v / 0x100, (v / 0x10) % 16, v % 16);
            let op: int = match ins {
                Instruction::Jump { .. } => 1,
                Instruction::Call { .. } => 2,
                Instruction::LoadAddr { .. } => 0xA,
                _ => 0xB,
            };
            lemma_word_fields(op, v / 0x100, (v / 0x10) % 16, v % 16);
        },
        Instruction::SkipEqImm { x, kk } | Instruction::SkipNeImm { x, kk }
        | Instruction::LoadImm { x, kk } | Instruction::AddImm { x, kk }
        | Instruction::Random { x, kk } => {
            let op: int = match ins {
                Instruction::SkipEqImm { .. } => 3,
                Instruction::SkipNeImm { .. } => 4,
                Instruction::LoadImm { .. } => 6,
                Instruction::AddImm { .. } => 7,
                _ => 0xC,
            };
            lemma_word_fields(op, x as int, kk as int / 16, kk as int % 16);
        },
        Instruction::SkipEqReg { x, y } | Instruction::SkipNeReg { x, y } => {
            lemma_word_fields(5, x as int, y as int, 0);
            lemma_word_fields(9, x as int, y as int, 0);
        },
        Instruction::Copy { x, y } => lemma_word_fields(8, x as int, y as int, 0),
        Instruction::Or { x, y } => lemma_word_fields(8, x as int, y as int, 1),
        Instruction::And { x, y } => lemma_word_fields(8, x as int, y as int, 2),
        Instruction::Xor { x, y } => lemma_word_fields(8, x as int, y as int, 3),
        Instruction::Add { x, y } => lemma_word_fields(8, x as int, y as int, 4),
        Instruction::Sub { x, y } => lemma_word_fields(8, x as int, y as int, 5),
        Instruction::ShiftRight { x, y } => lemma_word_fields(8, x as int, y as int, 6),
        Instruction::SubFrom { x, y } => lemma_word_fields(8, x as int, y as int, 7),
        Instruction::ShiftLeft { x, y } => lemma_word_fields(8, x as int, y as int, 0xE),
        Instruction::Draw { x, y, n } => lemma_word_fields(0xD, x as int, y as int, n as int),
        Instruction::SkipKeyDown { x } => lemma_word_fields(0xE, x as int, 0x9, 0xE),
        Instruction::SkipKeyUp { x } => lemma_word_fields(0xE, x as int, 0xA, 0x1),
        Instruction::ReadDelay { x } => lemma_word_fields(0xF, x as int, 0x0, 0x7),
        Instruction::WaitKey { x } => lemma_word_fields(0xF, x as int, 0x0, 0xA),
        Instruction::SetDelay { x } => lemma_word_fields(0xF, x as int, 0x1, 0x5),
        Instruction::SetSound { x } => lemma_word_fields(0xF, x as int, 0x1, 0x8),
        Instruction::AddAddr { x } => lemma_word_fields(0xF, x as int, 0x1, 0xE),
        Instruction::LoadFont { x } => lemma_word_fields(0xF, x as int, 0x2, 0x9),
        Instruction::StoreBcd { x } => lemma_word_fields(0xF, x as int, 0x3, 0x3),
        Instruction::StoreRegs { x } => lemma_word_fields(0xF, x as int, 0x5, 0x5),
        Instruction::LoadRegs { x } => lemma_word_fields(0xF, x as int, 0x6, 0x5),
    }
}

/// `r` is what decoding `w` must give: the valid instruction encoded as
/// `w`, or an unknown-opcode fault when no valid instruction is.
pub open spec fn decodes_to(w: u16, r: Result<Instruction, Fault>) -> bool {
    match r {
        Ok(ins) => ins.wf() && encode(ins) == w,
        Err(e) => e == Fault::UnknownOpcode(w) && forall|ins: Instruction| #[trigger]
            ins.wf() ==> encode(ins) != w,
    }
}

/// The valid instruction whose encoding is `w`, or an unknown-opcode fault
/// when there is none.
pub open spec fn decode_spec(w: u16) -> Result<Instruction, Fault> {
    if exists|ins: Instruction| ins.wf() && encode(ins) == w {
        Ok(choose|ins: Instruction| ins.wf() && encode(ins) == w)
    } else {
        Err(Fault::UnknownOpcode(w))
    }
}

/// Decode an instruction word.
pub fn decode(w: u16) -> (r: Result<Instruction, Fault>)
    ensures
        decodes_to(w, r),
        r == decode_spec(w),
{
    let op = w / 0x1000;
    let x = ((w / 0x100) % 16) as u8;
    let y = ((w / 0x10) % 16) as u8;
    let n = (w % 16) as u8;
    let kk = (w % 0x100) as u8;
    let nnn = w % 0x1000;
    let unknown = Err(Fault::UnknownOpcode(w));
    let r = match op {
        0x0 => if w == 0x00E0 {
            Ok(Instruction::Clear)
        } else if w == 0x00EE {
            Ok(Instruction::Return)
        } else {
            unknown
        },
        0x1 => Ok(Instruction::Jump { nnn }),
        0x2 => Ok(Instruction::Call { nnn }),
        0x3 => Ok(Instruction::SkipEqImm { x, kk }),
        0x4 => Ok(Instruction::SkipNeImm { x, kk }),
        0x5 => if n == 0 {
            Ok(Instruction::SkipEqReg { x, y })
        } else {
            unknown
        },
        0x6 => Ok(Instruction::LoadImm { x, kk }),
        0x7 => Ok(Instruction::AddImm { x, kk }),
        0x8 => match n {
            0x0 => Ok(Instruction::Copy { x, y }),
            0x1 => Ok(Instruction::Or { x, y }),
            0x2 => Ok(Instruction::And { x, y }),
            0x3 => Ok(Instruction::Xor { x, y }),
            0x4 => Ok(Instruction::Add { x, y }),
            0x5 => Ok(Instruction::Sub { x, y }),
            0x6 => Ok(Instruction::ShiftRight { x, y }),
            0x7 => Ok(Instruction::SubFrom { x, y }),
            0xE => Ok(Instruction::ShiftLeft { x, y }),
            _ => unknown,
        },
        0x9 => if n == 0 {
            Ok(Instruction::SkipNeReg { x, y })
        } else {
            unknown
        },
        0xA => Ok(Instruction::LoadAddr { nnn }),
        0xB => Ok(Instruction::JumpOffset { nnn }),
        0xC => Ok(Instruction::Random { x, kk }),
        0xD => Ok(Instruction::Draw { x, y, n }),
        0xE => match kk {
            0x9E => Ok(Instruction::SkipKeyDown { x }),
            0xA1 => Ok(Instruction::SkipKeyUp { x }),
            _ => unknown,
        },
        _ => match kk {
            0x07 => Ok(Instruction::ReadDelay { x }),
            0x0A => Ok(Instruction::WaitKey { x }),
            0x15 => Ok(Instruction::SetDelay { x }),
            0x18 => Ok(Instruction::SetSound { x }),
            0x1E => Ok(Instruction::AddAddr { x }),
            0x29 => Ok(Instruction::LoadFont { x }),
            0x33 => Ok(Instruction::StoreBcd { x }),
            0x55 => Ok(Instruction::StoreRegs { x }),
            0x65 => Ok(Instruction::LoadRegs { x }),
            _ => unknown,
        },
    };
    proof {
        lemma_nibbles(w);
        match r {
            Ok(ins) => {
                lemma_encode_fields(ins);
                lemma_nibbles(encode(ins));
                let c = choose|c: Instruction| c.wf() && encode(c) == w;
                lemma_encode_injective(ins, c);
            },
            Err(_) => {
                assert forall|ins: Instruction| #[trigger] ins.wf() implies encode(ins) != w by {
                    lemma_encode_fields(ins);
                }
            },
        }
    }
    r
}

/// Distinct valid instructions have distinct encodings, so a word decodes
/// to at most one instruction.
pub proof fn lemma_encode_injective(a: Instruction, b: Instruction)
    requires
        a.wf(),
        b.wf(),
        encode(a) == encode(b),
    ensures
        a == b,
{
    lemma_encode_fields(a);
    lemma_encode_fields(b);
}

} // verus!

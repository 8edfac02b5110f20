use chip8_cpu::decode::{decode, Instruction};
use chip8_cpu::state::Fault;

#[test]
fn decode_every_class() {
    let table: Vec<(u16, Instruction)> = vec![
        (0x00E0, Instruction::Clear),
        (0x00EE, Instruction::Return),
        (0x1ABC, Instruction::Jump { nnn: 0xABC }),
        (0x2ABC, Instruction::Call { nnn: 0xABC }),
        (0x3A12, Instruction::SkipEqImm { x: 0xA, kk: 0x12 }),
        (0x4B34, Instruction::SkipNeImm { x: 0xB, kk: 0x34 }),
        (0x5120, Instruction::SkipEqReg { x: 1, y: 2 }),
        (0x6CFF, Instruction::LoadImm { x: 0xC, kk: 0xFF }),
        (0x7D01, Instruction::AddImm { x: 0xD, kk: 0x01 }),
        (0x8120, Instruction::Copy { x: 1, y: 2 }),
        (0x8121, Instruction::Or { x: 1, y: 2 }),
        (0x8122, Instruction::And { x: 1, y: 2 }),
        (0x8123, Instruction::Xor { x: 1, y: 2 }),
        (0x8124, Instruction::Add { x: 1, y: 2 }),
        (0x8125, Instruction::Sub { x: 1, y: 2 }),
        (0x8126, Instruction::ShiftRight { x: 1, y: 2 }),
        (0x8127, Instruction::SubFrom { x: 1, y: 2 }),
        (0x812E, Instruction::ShiftLeft { x: 1, y: 2 }),
        (0x9EF0, Instruction::SkipNeReg { x: 0xE, y: 0xF }),
        (0xA123, Instruction::LoadAddr { nnn: 0x123 }),
        (0xBFFF, Instruction::JumpOffset { nnn: 0xFFF }),
        (0xC30F, Instruction::Random { x: 3, kk: 0x0F }),
        (0xD12F, Instruction::Draw { x: 1, y: 2, n: 0xF }),
        (0xE59E, Instruction::SkipKeyDown { x: 5 }),
        (0xE5A1, Instruction::SkipKeyUp { x: 5 }),
        (0xF607, Instruction::ReadDelay { x: 6 }),
        (0xF60A, Instruction::WaitKey { x: 6 }),
        (0xF615, Instruction::SetDelay { x: 6 }),
        (0xF618, Instruction::SetSound { x: 6 }),
        (0xF61E, Instruction::AddAddr { x: 6 }),
        (0xF629, Instruction::LoadFont { x: 6 }),
        (0xF633, Instruction::StoreBcd { x: 6 }),
        (0xF655, Instruction::StoreRegs { x: 6 }),
        (0xF665, Instruction::LoadRegs { x: 6 }),
    ];
    for (w, ins) in table {
        assert_eq!(decode(w), Ok(ins), "word {:04X}", w);
    }
}

#[test]
fn decode_unknown_words() {
    for w in [0x0000u16, 0x0123, 0x00E1, 0x5121, 0x8008, 0x800F, 0x9001, 0xE000, 0xE09F, 0xF000, 0xF0FF, 0xF066] {
        assert_eq!(decode(w), Err(Fault::UnknownOpcode(w)), "word {:04X}", w);
    }
}

#[test]
fn decode_is_total() {
    let mut known = 0u32;
    for w in 0..=0xFFFFu16 {
        match decode(w) {
            Ok(_) => known += 1,
            Err(e) => assert_eq!(e, Fault::UnknownOpcode(w)),
        }
    }
    // 2 fixed words, 10 classes with 4096 words each, 2 register-pair
    // classes and nine 8xy forms with 256 each, 2 + 9 key/timer forms with
    // 16 each.
    assert_eq!(known, 2 + 10 * 4096 + 11 * 256 + 11 * 16);
}

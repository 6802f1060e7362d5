use chip8::instruction::Instruction;

fn a(group: u8, addr: usize) -> (u8, u8) {
    ((group << 4) | ((addr >> 8) as u8 & 0x0F), (addr & 0xFF) as u8)
}

fn xb(group: u8, x: usize, b: u8) -> (u8, u8) {
    ((group << 4) | x as u8, b)
}

fn xy(group: u8, x: usize, y: usize, low: u8) -> (u8, u8) {
    ((group << 4) | x as u8, ((y as u8) << 4) | low)
}

/// The opcode of an instruction, written down independently of the decoder.
fn encode(i: Instruction) -> (u8, u8) {
    match i {
        Instruction::Clear => (0x00, 0xE0),
        Instruction::Return => (0x00, 0xEE),
        Instruction::Jump(addr) => a(0x1, addr),
        Instruction::Call(addr) => a(0x2, addr),
        Instruction::SkipEqByte(x, b) => xb(0x3, x, b),
        Instruction::SkipNeByte(x, b) => xb(0x4, x, b),
        Instruction::SkipEq(x, y) => xy(0x5, x, y, 0),
        Instruction::LoadByte(x, b) => xb(0x6, x, b),
        Instruction::AddByte(x, b) => xb(0x7, x, b),
        Instruction::Copy(x, y) => xy(0x8, x, y, 0x0),
        Instruction::Or(x, y) => xy(0x8, x, y, 0x1),
        Instruction::And(x, y) => xy(0x8, x, y, 0x2),
        Instruction::Xor(x, y) => xy(0x8, x, y, 0x3),
        Instruction::Add(x, y) => xy(0x8, x, y, 0x4),
        Instruction::Sub(x, y) => xy(0x8, x, y, 0x5),
        Instruction::Shr(x) => xy(0x8, x, 0, 0x6),
        Instruction::Subn(x, y) => xy(0x8, x, y, 0x7),
        Instruction::Shl(x) => xy(0x8, x, 0, 0xE),
        Instruction::SkipNe(x, y) => xy(0x9, x, y, 0),
        Instruction::LoadI(addr) => a(0xA, addr),
        Instruction::JumpPlus(addr) => a(0xB, addr),
        Instruction::LoadRandom(x, b) => xb(0xC, x, b),
        Instruction::Draw(x, y, n) => xy(0xD, x, y, n),
        Instruction::SkipPressed(x) => xb(0xE, x, 0x9E),
        Instruction::SkipNPressed(x) => xb(0xE, x, 0xA1),
        Instruction::LoadDelay(x) => xb(0xF, x, 0x07),
        Instruction::LoadPressed(x) => xb(0xF, x, 0x0A),
        Instruction::SetDelay(x) => xb(0xF, x, 0x15),
        Instruction::SetSound(x) => xb(0xF, x, 0x18),
        Instruction::AddToI(x) => xb(0xF, x, 0x1E),
        Instruction::SetSprite(x) => xb(0xF, x, 0x29),
        Instruction::StoreBCD(x) => xb(0xF, x, 0x33),
        Instruction::StoreRegisters(x) => xb(0xF, x, 0x55),
        Instruction::RestoreRegisters(x) => xb(0xF, x, 0x65),
    }
}

/// Whether a byte pair is an instruction, written down independently of
/// the decoder.
fn is_instruction(op1: u8, op2: u8) -> bool {
    match op1 >> 4 {
        0x0 => op2 == 0xE0 || op2 == 0xEE,
        0x5 => op2 & 0x0F == 0,
        0x8 => matches!(op2 & 0x0F, 0..=7 | 0xE),
        0xE => op2 == 0x9E || op2 == 0xA1,
        0xF => matches!(op2, 0x07 | 0x0A | 0x15 | 0x18 | 0x1E | 0x29 | 0x33 | 0x55 | 0x65),
        _ => true,
    }
}

#[test]
fn parse_is_total_and_fails_exactly_on_unknown_opcodes() {
    let mut known = 0u32;
    for op1 in 0..=255u8 {
        for op2 in 0..=255u8 {
            let parsed = Instruction::parse(op1, op2);
            assert_eq!(parsed.is_some(), is_instruction(op1, op2), "{:02X}{:02X}", op1, op2);
            if parsed.is_some() {
                known += 1;
            }
        }
    }
    // Eleven groups (1-4, 6, 7, 9-D) take all 4096 opcodes, group 5 one
    // low nibble in sixteen, group 8 nine low nibbles in sixteen; groups 0
    // and E have two second bytes and group F nine, each for any nibble in
    // the register's place.
    let whole = 11 * 4096;
    let group5 = 4096 / 16;
    let group8 = 9 * 256;
    let group0 = 2 * 16;
    let group_e = 2 * 16;
    let group_f = 9 * 16;
    assert_eq!(known, whole + group5 + group8 + group0 + group_e + group_f);
}

#[test]
fn parse_inverts_encode_on_every_opcode() {
    for op1 in 0..=255u8 {
        for op2 in 0..=255u8 {
            if let Some(i) = Instruction::parse(op1, op2) {
                let (e1, e2) = encode(i);
                match i {
                    // The register nibble of these two is not part of the
                    // instruction.
                    Instruction::Clear | Instruction::Return => {
                        assert_eq!(e2, op2);
                        assert_eq!(op1 >> 4, 0);
                    },
                    // Shifts ignore the second register, and `SkipNe` its
                    // low nibble.
                    Instruction::Shr(_) | Instruction::Shl(_) => {
                        assert_eq!(e1, op1);
                        assert_eq!(e2 & 0x0F, op2 & 0x0F);
                    },
                    Instruction::SkipNe(_, _) => {
                        assert_eq!(e1, op1);
                        assert_eq!(e2 & 0xF0, op2 & 0xF0);
                    },
                    _ => assert_eq!((e1, e2), (op1, op2)),
                }
            }
        }
    }
}

#[test]
fn parse_gives_each_instruction() {
    let cases: Vec<(u8, u8, Instruction)> = vec![
        (0x00, 0xE0, Instruction::Clear),
        (0x00, 0xEE, Instruction::Return),
        (0x12, 0x34, Instruction::Jump(0x234)),
        (0x2F, 0xFF, Instruction::Call(0xFFF)),
        (0x3A, 0x42, Instruction::SkipEqByte(0xA, 0x42)),
        (0x4B, 0x00, Instruction::SkipNeByte(0xB, 0x00)),
        (0x51, 0x20, Instruction::SkipEq(1, 2)),
        (0x6C, 0xFF, Instruction::LoadByte(0xC, 0xFF)),
        (0x7D, 0x01, Instruction::AddByte(0xD, 0x01)),
        (0x81, 0x20, Instruction::Copy(1, 2)),
        (0x81, 0x21, Instruction::Or(1, 2)),
        (0x81, 0x22, Instruction::And(1, 2)),
        (0x81, 0x23, Instruction::Xor(1, 2)),
        (0x8A, 0xB4, Instruction::Add(0xA, 0xB)),
        (0x81, 0x25, Instruction::Sub(1, 2)),
        (0x81, 0x26, Instruction::Shr(1)),
        (0x81, 0x27, Instruction::Subn(1, 2)),
        (0x81, 0x2E, Instruction::Shl(1)),
        (0x91, 0x20, Instruction::SkipNe(1, 2)),
        (0xA0, 0x50, Instruction::LoadI(0x050)),
        (0xB2, 0x00, Instruction::JumpPlus(0x200)),
        (0xC3, 0x0F, Instruction::LoadRandom(3, 0x0F)),
        (0xD1, 0x25, Instruction::Draw(1, 2, 5)),
        (0xE4, 0x9E, Instruction::SkipPressed(4)),
        (0xE4, 0xA1, Instruction::SkipNPressed(4)),
        (0xF5, 0x07, Instruction::LoadDelay(5)),
        (0xF5, 0x0A, Instruction::LoadPressed(5)),
        (0xF5, 0x15, Instruction::SetDelay(5)),
        (0xF5, 0x18, Instruction::SetSound(5)),
        (0xF5, 0x1E, Instruction::AddToI(5)),
        (0xF5, 0x29, Instruction::SetSprite(5)),
        (0xF5, 0x33, Instruction::StoreBCD(5)),
        (0xF5, 0x55, Instruction::StoreRegisters(5)),
        (0xF5, 0x65, Instruction::RestoreRegisters(5)),
    ];
    for (op1, op2, expected) in cases {
        assert_eq!(Instruction::parse(op1, op2), Some(expected), "{:02X}{:02X}", op1, op2);
    }
}

#[test]
fn parse_rejects_unknown_opcodes() {
    assert_eq!(Instruction::parse(0x00, 0x00), None);
    assert_eq!(Instruction::parse(0x00, 0xE1), None);
    assert_eq!(Instruction::parse(0x01, 0x23), None);
    assert_eq!(Instruction::parse(0x51, 0x21), None);
    assert_eq!(Instruction::parse(0x81, 0x28), None);
    assert_eq!(Instruction::parse(0x81, 0x2D), None);
    assert_eq!(Instruction::parse(0x81, 0x2F), None);
    assert_eq!(Instruction::parse(0xE1, 0x9F), None);
    assert_eq!(Instruction::parse(0xF1, 0x00), None);
    assert_eq!(Instruction::parse(0xF1, 0x66), None);
}

#[test]
fn parse_ignores_the_low_nibble_of_skip_ne() {
    assert_eq!(Instruction::parse(0x91, 0x2F), Some(Instruction::SkipNe(1, 2)));
}

#[test]
fn parse_keeps_operands_in_range() {
    for op1 in 0..=255u8 {
        for op2 in 0..=255u8 {
            match Instruction::parse(op1, op2) {
                Some(Instruction::Jump(a))
                | Some(Instruction::JumpPlus(a))
                | Some(Instruction::Call(a))
                | Some(Instruction::LoadI(a)) => assert!(a < 4096),
                Some(Instruction::Draw(x, y, n)) => assert!(x < 16 && y < 16 && n < 16),
                Some(Instruction::SkipEq(x, y)) | Some(Instruction::Add(x, y)) => {
                    assert!(x < 16 && y < 16)
                },
                Some(Instruction::LoadByte(x, _)) | Some(Instruction::Shr(x)) => assert!(x < 16),
                _ => {},
            }
        }
    }
}

use chip8::instruction::Instruction;

#[test]
fn disassemble_prints_addresses_in_three_digits() {
    assert_eq!(Instruction::Jump(0x02A).disassemble(), "JP   0x02A");
    assert_eq!(Instruction::JumpPlus(0xFFF).disassemble(), "JP   V0, 0xFFF");
    assert_eq!(Instruction::Call(0x300).disassemble(), "CALL 0x300");
    assert_eq!(Instruction::LoadI(0x000).disassemble(), "LD   I, 0x000");
}

#[test]
fn disassemble_prints_bytes_in_two_digits() {
    assert_eq!(Instruction::SkipEqByte(0xA, 0x0F).disassemble(), "SE   VA, 0x0F");
    assert_eq!(Instruction::SkipNeByte(0x0, 0x00).disassemble(), "SNE  V0, 0x00");
    assert_eq!(Instruction::LoadByte(0xF, 0xFF).disassemble(), "LD   VF, 0xFF");
    assert_eq!(Instruction::LoadRandom(0x3, 0x7C).disassemble(), "RND  V3, 0x7C");
    assert_eq!(Instruction::AddByte(0x9, 0x10).disassemble(), "ADD  V9, 0x10");
}

#[test]
fn disassemble_prints_register_pairs() {
    assert_eq!(Instruction::SkipEq(1, 2).disassemble(), "SE   V1, V2");
    assert_eq!(Instruction::SkipNe(0xB, 0xC).disassemble(), "SNE  VB, VC");
    assert_eq!(Instruction::Copy(1, 2).disassemble(), "LD   V1, V2");
    assert_eq!(Instruction::Or(1, 2).disassemble(), "OR   V1, V2");
    assert_eq!(Instruction::And(1, 2).disassemble(), "AND  V1, V2");
    assert_eq!(Instruction::Xor(1, 2).disassemble(), "XOR  V1, V2");
    assert_eq!(Instruction::Add(0xA, 0xB).disassemble(), "ADD  VA, VB");
    assert_eq!(Instruction::Sub(1, 2).disassemble(), "SUB  V1, V2");
    assert_eq!(Instruction::Subn(1, 2).disassemble(), "SUBN V1, V2");
}

#[test]
fn disassemble_prints_single_registers() {
    assert_eq!(Instruction::SkipPressed(4).disassemble(), "SKP  V4");
    assert_eq!(Instruction::SkipNPressed(4).disassemble(), "SKNP V4");
    assert_eq!(Instruction::Shr(0xE).disassemble(), "SHR  VE");
    assert_eq!(Instruction::Shl(0xD).disassemble(), "SHL  VD");
    assert_eq!(Instruction::LoadDelay(5).disassemble(), "LD   V5, DT");
    assert_eq!(Instruction::LoadPressed(5).disassemble(), "LD   V5, K");
    assert_eq!(Instruction::SetDelay(5).disassemble(), "LD   DT, V5");
    assert_eq!(Instruction::SetSound(5).disassemble(), "LD   ST, V5");
    assert_eq!(Instruction::AddToI(5).disassemble(), "ADD  I, V5");
    assert_eq!(Instruction::SetSprite(5).disassemble(), "LD   F, V5");
    assert_eq!(Instruction::StoreBCD(5).disassemble(), "LD   B, V5");
    assert_eq!(Instruction::StoreRegisters(0xF).disassemble(), "LD   [I], F");
    assert_eq!(Instruction::RestoreRegisters(0x0).disassemble(), "LD   0, [I]");
}

#[test]
fn disassemble_prints_the_rest() {
    assert_eq!(Instruction::Return.disassemble(), "RET");
    assert_eq!(Instruction::Clear.disassemble(), "CLS");
    assert_eq!(Instruction::Draw(1, 2, 5).disassemble(), "DRW  V1, V2, 5");
    assert_eq!(Instruction::Draw(0xA, 0xB, 0xF).disassemble(), "DRW  VA, VB, F");
}

#[test]
fn disassemble_agrees_with_std_formatting_on_every_opcode() {
    for op1 in 0..=255u8 {
        for op2 in 0..=255u8 {
            if let Some(i) = Instruction::parse(op1, op2) {
                let expected = match i {
                    Instruction::Jump(a) => format!("JP   0x{:03X}", a),
                    Instruction::JumpPlus(a) => format!("JP   V0, 0x{:03X}", a),
                    Instruction::Call(a) => format!("CALL 0x{:03X}", a),
                    Instruction::Return => format!("RET"),
                    Instruction::SkipEqByte(x, b) => format!("SE   V{:X}, 0x{:02X}", x, b),
                    Instruction::SkipNeByte(x, b) => format!("SNE  V{:X}, 0x{:02X}", x, b),
                    Instruction::SkipEq(x, y) => format!("SE   V{:X}, V{:X}", x, y),
                    Instruction::SkipNe(x, y) => format!("SNE  V{:X}, V{:X}", x, y),
                    Instruction::SkipPressed(x) => format!("SKP  V{:X}", x),
                    Instruction::SkipNPressed(x) => format!("SKNP V{:X}", x),
                    Instruction::LoadByte(x, b) => format!("LD   V{:X}, 0x{:02X}", x, b),
                    Instruction::LoadRandom(x, b) => format!("RND  V{:X}, 0x{:02X}", x, b),
                    Instruction::AddByte(x, b) => format!("ADD  V{:X}, 0x{:02X}", x, b),
                    Instruction::Copy(x, y) => format!("LD   V{:X}, V{:X}", x, y),
                    Instruction::Or(x, y) => format!("OR   V{:X}, V{:X}", x, y),
                    Instruction::And(x, y) => format!("AND  V{:X}, V{:X}", x, y),
                    Instruction::Xor(x, y) => format!("XOR  V{:X}, V{:X}", x, y),
                    Instruction::Add(x, y) => format!("ADD  V{:X}, V{:X}", x, y),
                    Instruction::Sub(x, y) => format!("SUB  V{:X}, V{:X}", x, y),
                    Instruction::Subn(x, y) => format!("SUBN V{:X}, V{:X}", x, y),
                    Instruction::Shr(x) => format!("SHR  V{:X}", x),
                    Instruction::Shl(x) => format!("SHL  V{:X}", x),
                    Instruction::LoadDelay(x) => format!("LD   V{:X}, DT", x),
                    Instruction::LoadPressed(x) => format!("LD   V{:X}, K", x),
                    Instruction::SetDelay(x) => format!("LD   DT, V{:X}", x),
                    Instruction::SetSound(x) => format!("LD   ST, V{:X}", x),
                    Instruction::LoadI(a) => format!("LD   I, 0x{:03X}", a),
                    Instruction::AddToI(x) => format!("ADD  I, V{:X}", x),
                    Instruction::SetSprite(x) => format!("LD   F, V{:X}", x),
                    Instruction::StoreBCD(x) => format!("LD   B, V{:X}", x),
                    Instruction::StoreRegisters(x) => format!("LD   [I], {:X}", x),
                    Instruction::RestoreRegisters(x) => format!("LD   {:X}, [I]", x),
                    Instruction::Clear => format!("CLS"),
                    Instruction::Draw(x, y, n) => format!("DRW  V{:X}, V{:X}, {:X}", x, y, n),
                };
                assert_eq!(i.disassemble(), expected);
            }
        }
    }
}

#[test]
fn disassemble_widens_for_operands_out_of_range() {
    assert_eq!(Instruction::Jump(0x12345).disassemble(), format!("JP   0x{:03X}", 0x12345));
    assert_eq!(Instruction::Shr(0x1F).disassemble(), format!("SHR  V{:X}", 0x1F));
    assert_eq!(Instruction::Shr(usize::MAX).disassemble(), format!("SHR  V{:X}", usize::MAX));
}

#[test]
fn trace_announces_the_next_instruction() {
    // LD VA, 0xFF; ADD VA, VA; then an unknown opcode.
    let mut m = chip8::machine::Machine::new(10, &[0x6A, 0xFF, 0x8A, 0xA4, 0x00, 0x01]).unwrap();
    assert_eq!(m.trace(), Some("0x200: (6AFF) LD   VA, 0xFF".to_string()));
    assert_eq!(m.next_instruction(), Some(Instruction::LoadByte(0xA, 0xFF)));
    m.step([false; 16]).unwrap();
    assert_eq!(m.trace(), Some("0x202: (8AA4) ADD  VA, VA".to_string()));
    m.step([false; 16]).unwrap();
    assert_eq!(m.trace(), None);
    assert_eq!(m.next_instruction(), None);
    assert!(m.step([false; 16]).is_err());
    assert_eq!(m.trace(), None);
}

#[test]
fn trace_is_silent_while_waiting_for_a_key() {
    // LD V0, K; CLS
    let mut m = chip8::machine::Machine::new(10, &[0xF0, 0x0A, 0x00, 0xE0]).unwrap();
    assert_eq!(m.trace(), Some("0x200: (F00A) LD   V0, K".to_string()));
    m.step([false; 16]).unwrap();
    assert_eq!(m.trace(), None);
    let mut down = [false; 16];
    down[4] = true;
    m.step(down).unwrap();
    assert_eq!(m.trace(), None);
    m.step([false; 16]).unwrap();
    assert_eq!(m.trace(), Some("0x202: (00E0) CLS".to_string()));
}

#[test]
fn trace_is_silent_past_the_end_of_memory() {
    // JP 0xFFF
    let mut m = chip8::machine::Machine::new(10, &[0x1F, 0xFF]).unwrap();
    m.step([false; 16]).unwrap();
    assert_eq!(m.trace(), None);
}

//! Instructions as text, in the usual assembler notation.

use crate::instruction::Instruction;
use crate::machine::Machine;
use crate::state::State;
use vstd::prelude::*;
use vstd::string::StringExecFns;

verus! {

/// The character for one hexadecimal digit, in upper case.
pub open spec fn hex_digit(d: int) -> Seq<char> {
    if d == 0 {
        "0"@
    } else if d == 1 {
        "1"@
    } else if d == 2 {
        "2"@
    } else if d == 3 {
        "3"@
    } else if d == 4 {
        "4"@
    } else if d == 5 {
        "5"@
    } else if d == 6 {
        "6"@
    } else if d == 7 {
        "7"@
    } else if d == 8 {
        "8"@
    } else if d == 9 {
        "9"@
    } else if d == 10 {
        "A"@
    } else if d == 11 {
        "B"@
    } else if d == 12 {
        "C"@
    } else if d == 13 {
        "D"@
    } else if d == 14 {
        "E"@
    } else {
        "F"@
    }
}

/// `v` in upper-case hexadecimal, with zeros in front up to `width` digits
/// and more digits than `width` where `v` needs them.
pub open spec fn hex(v: nat, width: nat) -> Seq<char>
    decreases v, width,
{
    if v < 16 && width <= 1 {
        hex_digit(v as int)
    } else {
        hex(v / 16, if width == 0 { 0 } else { (width - 1) as nat }) + hex_digit((v % 16) as int)
    }
}

/// The text of one hexadecimal digit.
fn hex_digit_str(d: usize) -> (r: &'static str)
    requires
        d < 16,
    ensures
        r@ == hex_digit(d as int),
{
    match d {
        0 => "0",
        1 => "1",
        2 => "2",
        3 => "3",
        4 => "4",
        5 => "5",
        6 => "6",
        7 => "7",
        8 => "8",
        9 => "9",
        10 => "A",
        11 => "B",
        12 => "C",
        13 => "D",
        14 => "E",
        _ => "F",
    }
}

/// Appends `v` in hexadecimal to `out`.
fn push_hex(out: &mut String, v: usize, width: usize)
    ensures
        final(out)@ == old(out)@ + hex(v as nat, width as nat),
    decreases v, width,
{
    if v >= 16 || width > 1 {
        push_hex(out, v / 16, if width == 0 { 0 } else { width - 1 });
    }
    out.append(hex_digit_str(v % 16));
}

/// An operation on an address: `op`, then the address in three digits.
pub open spec fn with_address(op: Seq<char>, a: usize) -> Seq<char> {
    op + hex(a as nat, 3)
}

/// An operation on one register: `op`, the register's digit, then `tail`.
pub open spec fn with_register(op: Seq<char>, x: usize, tail: Seq<char>) -> Seq<char> {
    op + hex(x as nat, 0) + tail
}

/// An operation on a register and a byte: `op`, the register's digit, a
/// comma, then the byte in two digits.
pub open spec fn with_register_and_byte(op: Seq<char>, x: usize, b: u8) -> Seq<char> {
    op + hex(x as nat, 0) + ", 0x"@ + hex(b as nat, 2)
}

/// An operation on two registers: `op`, the first register's digit, a
/// comma, then the second register.
pub open spec fn with_registers(op: Seq<char>, x: usize, y: usize) -> Seq<char> {
    op + hex(x as nat, 0) + ", V"@ + hex(y as nat, 0)
}

fn format_address(op: &str, a: usize) -> (r: String)
    ensures
        r@ == with_address(op@, a),
{
    let mut out = String::from_str(op);
    push_hex(&mut out, a, 3);
    out
}

fn format_register(op: &str, x: usize, tail: &str) -> (r: String)
    ensures
        r@ == with_register(op@, x, tail@),
{
    let mut out = String::from_str(op);
    push_hex(&mut out, x, 0);
    out.append(tail);
    out
}

fn format_register_and_byte(op: &str, x: usize, b: u8) -> (r: String)
    ensures
        r@ == with_register_and_byte(op@, x, b),
{
    let mut out = String::from_str(op);
    push_hex(&mut out, x, 0);
    out.append(", 0x");
    push_hex(&mut out, b as usize, 2);
    out
}

fn format_registers(op: &str, x: usize, y: usize) -> (r: String)
    ensures
        r@ == with_registers(op@, x, y),
{
    let mut out = String::from_str(op);
    push_hex(&mut out, x, 0);
    out.append(", V");
    push_hex(&mut out, y, 0);
    out
}

impl Instruction {
    /// This instruction in assembler notation: a mnemonic padded to five
    /// columns, then the operands, registers as `V` and a hexadecimal digit,
    /// bytes and addresses as `0x` and two or three hexadecimal digits.
    pub open spec fn text(self) -> Seq<char> {
        match self {
            Instruction::Jump(a) => with_address("JP   0x"@, a),
            Instruction::JumpPlus(a) => with_address("JP   V0, 0x"@, a),
            Instruction::Call(a) => with_address("CALL 0x"@, a),
            Instruction::Return => "RET"@,
            Instruction::SkipEqByte(x, b) => with_register_and_byte("SE   V"@, x, b),
            Instruction::SkipNeByte(x, b) => with_register_and_byte("SNE  V"@, x, b),
            Instruction::SkipEq(x, y) => with_registers("SE   V"@, x, y),
            Instruction::SkipNe(x, y) => with_registers("SNE  V"@, x, y),
            Instruction::SkipPressed(x) => with_register("SKP  V"@, x, ""@),
            Instruction::SkipNPressed(x) => with_register("SKNP V"@, x, ""@),
            Instruction::LoadByte(x, b) => with_register_and_byte("LD   V"@, x, b),
            Instruction::LoadRandom(x, b) => with_register_and_byte("RND  V"@, x, b),
            Instruction::AddByte(x, b) => with_register_and_byte("ADD  V"@, x, b),
            Instruction::Copy(x, y) => with_registers("LD   V"@, x, y),
            Instruction::Or(x, y) => with_registers("OR   V"@, x, y),
            Instruction::And(x, y) => with_registers("AND  V"@, x, y),
            Instruction::Xor(x, y) => with_registers("XOR  V"@, x, y),
            Instruction::Add(x, y) => with_registers("ADD  V"@, x, y),
            Instruction::Sub(x, y) => with_registers("SUB  V"@, x, y),
            Instruction::Subn(x, y) => with_registers("SUBN V"@, x, y),
            Instruction::Shr(x) => with_register("SHR  V"@, x, ""@),
            Instruction::Shl(x) => with_register("SHL  V"@, x, ""@),
            Instruction::LoadDelay(x) => with_register("LD   V"@, x, ", DT"@),
            Instruction::LoadPressed(x) => with_register("LD   V"@, x, ", K"@),
            Instruction::SetDelay(x) => with_register("LD   DT, V"@, x, ""@),
            Instruction::SetSound(x) => with_register("LD   ST, V"@, x, ""@),
            Instruction::LoadI(a) => with_address("LD   I, 0x"@, a),
            Instruction::AddToI(x) => with_register("ADD  I, V"@, x, ""@),
            Instruction::SetSprite(x) => with_register("LD   F, V"@, x, ""@),
            Instruction::StoreBCD(x) => with_register("LD   B, V"@, x, ""@),
            Instruction::StoreRegisters(x) => with_register("LD   [I], "@, x, ""@),
            Instruction::RestoreRegisters(x) => with_register("LD   "@, x, ", [I]"@),
            Instruction::Clear => "CLS"@,
            Instruction::Draw(x, y, n) => with_registers("DRW  V"@, x, y) + ", "@ + hex(
                n as nat,
                0,
            ),
        }
    }

    /// This instruction as a line of assembler.
    pub fn disassemble(&self) -> (r: String)
        ensures
            r@ == self.text(),
    {
        match *self {
            Instruction::Jump(a) => format_address("JP   0x", a),
            Instruction::JumpPlus(a) => format_address("JP   V0, 0x", a),
            Instruction::Call(a) => format_address("CALL 0x", a),
            Instruction::Return => String::from_str("RET"),
            Instruction::SkipEqByte(x, b) => format_register_and_byte("SE   V", x, b),
            Instruction::SkipNeByte(x, b) => format_register_and_byte("SNE  V", x, b),
            Instruction::SkipEq(x, y) => format_registers("SE   V", x, y),
            Instruction::SkipNe(x, y) => format_registers("SNE  V", x, y),
            Instruction::SkipPressed(x) => format_register("SKP  V", x, ""),
            Instruction::SkipNPressed(x) => format_register("SKNP V", x, ""),
            Instruction::LoadByte(x, b) => format_register_and_byte("LD   V", x, b),
            Instruction::LoadRandom(x, b) => format_register_and_byte("RND  V", x, b),
            Instruction::AddByte(x, b) => format_register_and_byte("ADD  V", x, b),
            Instruction::Copy(x, y) => format_registers("LD   V", x, y),
            Instruction::Or(x, y) => format_registers("OR   V", x, y),
            Instruction::And(x, y) => format_registers("AND  V", x, y),
            Instruction::Xor(x, y) => format_registers("XOR  V", x, y),
            Instruction::Add(x, y) => format_registers("ADD  V", x, y),
            Instruction::Sub(x, y) => format_registers("SUB  V", x, y),
            Instruction::Subn(x, y) => format_registers("SUBN V", x, y),
            Instruction::Shr(x) => format_register("SHR  V", x, ""),
            Instruction::Shl(x) => format_register("SHL  V", x, ""),
            Instruction::LoadDelay(x) => format_register("LD   V", x, ", DT"),
            Instruction::LoadPressed(x) => format_register("LD   V", x, ", K"),
            Instruction::SetDelay(x) => format_register("LD   DT, V", x, ""),
            Instruction::SetSound(x) => format_register("LD   ST, V", x, ""),
            Instruction::LoadI(a) => format_address("LD   I, 0x", a),
            Instruction::AddToI(x) => format_register("ADD  I, V", x, ""),
            Instruction::SetSprite(x) => format_register("LD   F, V", x, ""),
            Instruction::StoreBCD(x) => format_register("LD   B, V", x, ""),
            Instruction::StoreRegisters(x) => format_register("LD   [I], ", x, ""),
            Instruction::RestoreRegisters(x) => format_register("LD   ", x, ", [I]"),
            Instruction::Clear => String::from_str("CLS"),
            Instruction::Draw(x, y, n) => {
                let mut out = format_registers("DRW  V", x, y);
                out.append(", ");
                push_hex(&mut out, n as usize, 0);
                out
            },
        }
    }
}

/// The line that announces the instruction `instr`, fetched as the bytes
/// `op1 op2` from `address`: the address in three digits, the two bytes in
/// brackets, and the instruction in assembler notation.
pub open spec fn trace_text(address: u16, op1: u8, op2: u8, instr: Instruction) -> Seq<char> {
    "0x"@ + hex(address as nat, 3) + ": ("@ + hex(op1 as nat, 2) + hex(op2 as nat, 2) + ") "@
        + instr.text()
}

/// The line that announces the next step of a machine in state `s`, if
/// that step executes an instruction.
pub open spec fn trace_of(s: State) -> Option<Seq<char>> {
    match s.next_instruction() {
        Some(instr) => Some(
            trace_text(s.pc, s.memory[s.pc as int], s.memory[s.pc + 1], instr),
        ),
        None => None,
    }
}

impl Machine {
    /// A line that announces the instruction that the next step will
    /// execute, for a log of the run; none if the next step executes no
    /// instruction.
    pub fn trace(&self) -> (line: Option<String>)
        ensures
            match line {
                Some(text) => trace_of(self@) == Some(text@),
                None => trace_of(self@) is None,
            },
    {
        match self.next_instruction() {
            Some(instr) => {
                let address = self.program_counter();
                let memory = self.memory();
                let op1 = memory[address as usize];
                let op2 = memory[address as usize + 1];
                let mut out = String::from_str("0x");
                push_hex(&mut out, address as usize, 3);
                out.append(": (");
                push_hex(&mut out, op1 as usize, 2);
                push_hex(&mut out, op2 as usize, 2);
                out.append(") ");
                let text = instr.disassemble();
                out.append(text.as_str());
                Some(out)
            },
            None => None,
        }
    }
}

} // verus!

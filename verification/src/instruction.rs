//! The instruction set and its decoder.
//!
//! An opcode is two bytes. The high nibble of the first byte selects a group;
//! the remaining three nibbles carry operands or select an instruction within
//! the group.

use vstd::prelude::*;

verus! {

/// One decoded instruction.
///
/// Operands named `x` and `y` below are register numbers, `a` is an address,
/// `b` an immediate byte and `n` a sprite height.
#[derive(Clone, Copy, Debug, PartialEq, Eq, Structural)]
pub enum Instruction {
    /// Continue at `a`.
    Jump(usize),
    /// Continue at `a + V0`.
    JumpPlus(usize),
    /// Call the subroutine at `a`.
    Call(usize),
    /// Return from the current subroutine.
    Return,
    /// Skip the next instruction if `Vx == b`.
    SkipEqByte(usize, u8),
    /// Skip the next instruction if `Vx != b`.
    SkipNeByte(usize, u8),
    /// Skip the next instruction if `Vx == Vy`.
    SkipEq(usize, usize),
    /// Skip the next instruction if `Vx != Vy`.
    SkipNe(usize, usize),
    /// Skip the next instruction if the key numbered `Vx` is down.
    SkipPressed(usize),
    /// Skip the next instruction if the key numbered `Vx` is up.
    SkipNPressed(usize),
    /// `Vx = b`.
    LoadByte(usize, u8),
    /// `Vx = random & b`.
    LoadRandom(usize, u8),
    /// `Vx = Vx + b`, wrapping, flag untouched.
    AddByte(usize, u8),
    /// `Vx = Vy`.
    Copy(usize, usize),
    /// `Vx = Vx | Vy`.
    Or(usize, usize),
    /// `Vx = Vx & Vy`.
    And(usize, usize),
    /// `Vx = Vx ^ Vy`.
    Xor(usize, usize),
    /// `Vx = Vx + Vy`, wrapping; `VF` is the carry.
    Add(usize, usize),
    /// `Vx = Vx - Vy`, wrapping; `VF` is 1 unless a borrow occurred.
    Sub(usize, usize),
    /// `Vx = Vy - Vx`, wrapping; `VF` is 1 unless a borrow occurred.
    Subn(usize, usize),
    /// `VF` = lowest bit of `Vx`, then `Vx` is halved.
    Shr(usize),
    /// `VF` = highest bit of `Vx`, then `Vx` is doubled, wrapping.
    Shl(usize),
    /// `Vx = delay timer`.
    LoadDelay(usize),
    /// Wait for a key to be pressed and released, then `Vx = key`.
    LoadPressed(usize),
    /// `delay timer = Vx`.
    SetDelay(usize),
    /// `sound timer = Vx`.
    SetSound(usize),
    /// `I = a`.
    LoadI(usize),
    /// `I = I + Vx`.
    AddToI(usize),
    /// `I` = address of the glyph for the hexadecimal digit `Vx mod 16`.
    SetSprite(usize),
    /// Store the three decimal digits of `Vx` at `I`, `I + 1`, `I + 2`.
    StoreBCD(usize),
    /// Store `V0..=Vx` at `I..=I + x`.
    StoreRegisters(usize),
    /// Load `V0..=Vx` from `I..=I + x`.
    RestoreRegisters(usize),
    /// Blank the display.
    Clear,
    /// Draw the `n`-row sprite at `I` at position `(Vx, Vy)`; `VF` is the
    /// collision flag.
    Draw(usize, usize, u8),
}

/// The instruction that the opcode `op1 op2` stands for, if any.
///
/// Written over the four nibbles of the opcode: `op1 / 16` is the group,
/// `op1 % 16` the register `x` or the top of an address, `op2 / 16` the
/// register `y`, and `op2 % 16` a sub-opcode or a sprite height.
pub open spec fn decode(op1: u8, op2: u8) -> Option<Instruction> {
    let x = (op1 % 16) as usize;
    let y = (op2 / 16) as usize;
    let low = op2 % 16;
    let a = ((op1 % 16) * 256 + op2) as usize;
    match op1 / 16 {
        0 => if op2 == 0xE0 {
            Some(Instruction::Clear)
        } else if op2 == 0xEE {
            Some(Instruction::Return)
        } else {
            None
        },
        1 => Some(Instruction::Jump(a)),
        2 => Some(Instruction::Call(a)),
        3 => Some(Instruction::SkipEqByte(x, op2)),
        4 => Some(Instruction::SkipNeByte(x, op2)),
        5 => if low == 0 {
            Some(Instruction::SkipEq(x, y))
        } else {
            None
        },
        6 => Some(Instruction::LoadByte(x, op2)),
        7 => Some(Instruction::AddByte(x, op2)),
        8 => match low {
            0 => Some(Instruction::Copy(x, y)),
            1 => Some(Instruction::Or(x, y)),
            2 => Some(Instruction::And(x, y)),
            3 => Some(Instruction::Xor(x, y)),
            4 => Some(Instruction::Add(x, y)),
            5 => Some(Instruction::Sub(x, y)),
            6 => Some(Instruction::Shr(x)),
            7 => Some(Instruction::Subn(x, y)),
            0xE => Some(Instruction::Shl(x)),
            _ => None,
        },
        9 => Some(Instruction::SkipNe(x, y)),
        0xA => Some(Instruction::LoadI(a)),
        0xB => Some(Instruction::JumpPlus(a)),
        0xC => Some(Instruction::LoadRandom(x, op2)),
        0xD => Some(Instruction::Draw(x, y, low)),
        0xE => if op2 == 0x9E {
            Some(Instruction::SkipPressed(x))
        } else if op2 == 0xA1 {
            Some(Instruction::SkipNPressed(x))
        } else {
            None
        },
        _ => match op2 {
            0x07 => Some(Instruction::LoadDelay(x)),
            0x0A => Some(Instruction::LoadPressed(x)),
            0x15 => Some(Instruction::SetDelay(x)),
            0x18 => Some(Instruction::SetSound(x)),
            0x1E => Some(Instruction::AddToI(x)),
            0x29 => Some(Instruction::SetSprite(x)),
            0x33 => Some(Instruction::StoreBCD(x)),
            0x55 => Some(Instruction::StoreRegisters(x)),
            0x65 => Some(Instruction::RestoreRegisters(x)),
            _ => None,
        },
    }
}

/// Every instruction that `decode` gives has its operands in range.
pub proof fn lemma_decode_well_formed(op1: u8, op2: u8)
    ensures
        decode(op1, op2) matches Some(i) ==> i.well_formed(),
{
}

/// How masks and shifts on a byte read as division and remainder.
proof fn lemma_nibbles(b: u8)
    by (bit_vector)
    ensures
        b & 0xF0 == (b / 16) * 16,
        b & 0x0F == b % 16,
        (b & 0xF0) >> 4 == b / 16,
{
}

/// A nibble moved one byte up is that nibble times 256.
proof fn lemma_high_nibble(v: usize)
    by (bit_vector)
    requires
        v < 256,
    ensures
        (v & 0x0F) << 8 == (v % 16) * 256,
{
}

/// The twelve-bit address in the low three nibbles of an opcode.
fn addr(op1: u8, op2: u8) -> (a: usize)
    ensures
        a == (op1 % 16) * 256 + op2,
{
    proof {
        lemma_high_nibble(op1 as usize);
    }
    ((op1 as usize & 0x0F) << 8) + op2 as usize
}

/// The register number in the low nibble of the first byte.
fn reg_x(op1: u8) -> (x: usize)
    ensures
        x == op1 % 16,
{
    proof {
        lemma_nibbles(op1);
    }
    (op1 & 0x0F) as usize
}

/// The register number in the high nibble of the second byte.
fn reg_y(op2: u8) -> (y: usize)
    ensures
        y == op2 / 16,
{
    proof {
        lemma_nibbles(op2);
    }
    ((op2 & 0xF0) >> 4) as usize
}

impl Instruction {
    /// Whether every operand is in range: register numbers below 16,
    /// addresses below 4096 and sprite heights below 16.
    pub open spec fn well_formed(self) -> bool {
        match self {
            Instruction::Jump(a) | Instruction::JumpPlus(a) | Instruction::Call(a)
            | Instruction::LoadI(a) => a < 4096,
            Instruction::Return | Instruction::Clear => true,
            Instruction::SkipEqByte(x, _) | Instruction::SkipNeByte(x, _)
            | Instruction::LoadByte(x, _) | Instruction::LoadRandom(x, _)
            | Instruction::AddByte(x, _) => x < 16,
            Instruction::SkipEq(x, y) | Instruction::SkipNe(x, y) | Instruction::Copy(x, y)
            | Instruction::Or(x, y) | Instruction::And(x, y) | Instruction::Xor(x, y)
            | Instruction::Add(x, y) | Instruction::Sub(x, y) | Instruction::Subn(x, y) => x < 16
                && y < 16,
            Instruction::SkipPressed(x) | Instruction::SkipNPressed(x) | Instruction::Shr(x)
            | Instruction::Shl(x) | Instruction::LoadDelay(x) | Instruction::LoadPressed(x)
            | Instruction::SetDelay(x) | Instruction::SetSound(x) | Instruction::AddToI(x)
            | Instruction::SetSprite(x) | Instruction::StoreBCD(x)
            | Instruction::StoreRegisters(x) | Instruction::RestoreRegisters(x) => x < 16,
            Instruction::Draw(x, y, n) => x < 16 && y < 16 && n < 16,
        }
    }

    /// Decodes the opcode whose first byte is `op1` and second byte is `op2`.
    ///
    /// Returns `None` for a byte pair that is no instruction. Every
    /// instruction that comes out has its operands in range.
    pub fn parse(op1: u8, op2: u8) -> (r: Option<Self>)
        ensures
            r == decode(op1, op2),
            r matches Some(i) ==> i.well_formed(),
    {
        proof {
            lemma_nibbles(op1);
            lemma_nibbles(op2);
        }
        match op1 & 0xF0 {
            0x00 => match op2 {
                0xE0 => Some(Instruction::Clear),
                0xEE => Some(Instruction::Return),
                _ => None,
            },
            0x10 => Some(Instruction::Jump(addr(op1, op2))),
            0x20 => Some(Instruction::Call(addr(op1, op2))),
            0x30 => Some(Instruction::SkipEqByte(reg_x(op1), op2)),
            0x40 => Some(Instruction::SkipNeByte(reg_x(op1), op2)),
            0x50 => if op2 & 0x0F == 0x0 {
                Some(Instruction::SkipEq(reg_x(op1), reg_y(op2)))
            } else {
                None
            },
            0x60 => Some(Instruction::LoadByte(reg_x(op1), op2)),
            0x70 => Some(Instruction::AddByte(reg_x(op1), op2)),
            0x80 => match op2 & 0x0F {
                0x0 => Some(Instruction::Copy(reg_x(op1), reg_y(op2))),
                0x1 => Some(Instruction::Or(reg_x(op1), reg_y(op2))),
                0x2 => Some(Instruction::And(reg_x(op1), reg_y(op2))),
                0x3 => Some(Instruction::Xor(reg_x(op1), reg_y(op2))),
                0x4 => Some(Instruction::Add(reg_x(op1), reg_y(op2))),
                0x5 => Some(Instruction::Sub(reg_x(op1), reg_y(op2))),
                0x6 => Some(Instruction::Shr(reg_x(op1))),
                0x7 => Some(Instruction::Subn(reg_x(op1), reg_y(op2))),
                0xE => Some(Instruction::Shl(reg_x(op1))),
                _ => None,
            },
            0x90 => Some(Instruction::SkipNe(reg_x(op1), reg_y(op2))),
            0xA0 => Some(Instruction::LoadI(addr(op1, op2))),
            0xB0 => Some(Instruction::JumpPlus(addr(op1, op2))),
            0xC0 => Some(Instruction::LoadRandom(reg_x(op1), op2)),
            0xD0 => Some(Instruction::Draw(reg_x(op1), reg_y(op2), op2 & 0x0F)),
            0xE0 => match op2 {
                0x9E => Some(Instruction::SkipPressed(reg_x(op1))),
                0xA1 => Some(Instruction::SkipNPressed(reg_x(op1))),
                _ => None,
            },
            0xF0 => match op2 {
                0x07 => Some(Instruction::LoadDelay(reg_x(op1))),
                0x0A => Some(Instruction::LoadPressed(reg_x(op1))),
                0x15 => Some(Instruction::SetDelay(reg_x(op1))),
                0x18 => Some(Instruction::SetSound(reg_x(op1))),
                0x1E => Some(Instruction::AddToI(reg_x(op1))),
                0x29 => Some(Instruction::SetSprite(reg_x(op1))),
                0x33 => Some(Instruction::StoreBCD(reg_x(op1))),
                0x55 => Some(Instruction::StoreRegisters(reg_x(op1))),
                0x65 => Some(Instruction::RestoreRegisters(reg_x(op1))),
                _ => None,
            },
            _ => None,
        }
    }
}

} // verus!

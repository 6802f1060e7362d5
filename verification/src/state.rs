//! The machine as a mathematical object: what it holds, and what one
//! instruction and one step make of it.
//!
//! `Machine` in the module `machine` is the executable engine; its contracts
//! are stated over the `State` defined here. Apart from the two small enums
//! that both share, everything in this module is specification.

use crate::instruction::{decode, Instruction};
use crate::screen::{blank, draw_collides, draw_rows, grid_wf, has_ink, ScreenView, SPRITES};
use vstd::prelude::*;

verus! {

/// Address at which a program is loaded and starts.
pub const PROGRAM_START: u16 = 0x200;

/// Why a machine could not be built, or why it stopped.
#[derive(Clone, Copy, Debug, PartialEq, Eq, Structural)]
pub enum MachineError {
    /// The frequency multiplier was zero.
    ZeroFrequency,
    /// The program does not fit between the load address and the end of
    /// memory.
    ProgramTooLarge,
    /// The two bytes at `address` are no instruction.
    UnknownOpcode { address: u16, op1: u8, op2: u8 },
    /// A call was made with the call stack full.
    StackOverflow,
    /// A return was made with the call stack empty.
    StackUnderflow,
    /// An instruction was fetched, or memory was read or written, past the
    /// end of memory.
    AddressOutOfRange,
    /// A key test named a key that the keypad does not have.
    KeyOutOfRange,
}

/// Where the machine stands in waiting for a keystroke.
#[derive(Clone, Copy, Debug, PartialEq, Eq, Structural)]
pub enum InputWait {
    /// Not waiting: instructions are being executed.
    Idle,
    /// Waiting for any key to go down; register `reg` will take its number.
    AwaitingPress { reg: usize },
    /// Key `key` went down; waiting for it to come up again.
    AwaitingRelease { reg: usize, key: usize },
}

/// The whole state of a machine.
#[verifier::ext_equal]
pub struct State {
    /// Steps per tick of the timers.
    pub freq_multiplier: u8,
    /// Steps left before the timers tick next; they tick when it is zero.
    pub countdown: u8,
    /// The 4096 bytes of memory.
    pub memory: Seq<u8>,
    /// Address of the next instruction.
    pub pc: u16,
    /// The return addresses of the calls in progress, the innermost last.
    pub stack: Seq<u16>,
    /// The registers `V0` to `VF`.
    pub registers: Seq<u8>,
    /// The index register `I`.
    pub index: u16,
    /// The delay timer.
    pub delay: u8,
    /// The sound timer.
    pub sound: u8,
    /// Progress of a wait for a keystroke.
    pub wait: InputWait,
    /// The display.
    pub screen: ScreenView,
    /// The error that stopped the machine, if it has stopped.
    pub fault: Option<MachineError>,
}

/// `v` reduced to sixteen bits.
pub open spec fn wrap16(v: int) -> u16 {
    (v % 0x1_0000) as u16
}

/// `v` reduced to eight bits.
pub open spec fn wrap8(v: int) -> u8 {
    (v % 0x100) as u8
}

/// One for true, zero for false: how a flag is kept in `VF`.
pub open spec fn flag(b: bool) -> u8 {
    if b {
        1
    } else {
        0
    }
}

/// The lowest-numbered key that is down, if any is.
pub open spec fn first_pressed(keys: Seq<bool>) -> Option<nat>
    decreases keys.len(),
{
    if keys.len() == 0 {
        None
    } else {
        match first_pressed(keys.drop_last()) {
            Some(k) => Some(k),
            None => if keys.last() {
                Some((keys.len() - 1) as nat)
            } else {
                None
            },
        }
    }
}

/// Memory as it is when a machine has been built: the digit glyphs at the
/// bottom, the program from the load address on, zero elsewhere.
pub open spec fn initial_memory(program: Seq<u8>) -> Seq<u8> {
    Seq::new(
        4096,
        |a: int|
            if a < 80 {
                SPRITES[a]
            } else if 0x200 <= a < 0x200 + program.len() {
                program[a - 0x200]
            } else {
                0u8
            },
    )
}

impl State {
    /// What holds of every state that a machine can be in.
    pub open spec fn wf(self) -> bool {
        &&& self.freq_multiplier >= 1
        &&& self.countdown < self.freq_multiplier
        &&& self.memory.len() == 4096
        &&& self.registers.len() == 16
        &&& self.stack.len() <= 16
        &&& grid_wf(self.screen.pixels)
        &&& match self.wait {
            InputWait::Idle => true,
            InputWait::AwaitingPress { reg } => reg < 16,
            InputWait::AwaitingRelease { reg, key } => reg < 16 && key < 16,
        }
    }

    /// The state of a machine that has just been built for `program`.
    pub open spec fn initial(freq_multiplier: u8, program: Seq<u8>) -> State {
        State {
            freq_multiplier,
            countdown: 0,
            memory: initial_memory(program),
            pc: PROGRAM_START,
            stack: Seq::empty(),
            registers: Seq::new(16, |k: int| 0u8),
            index: 0,
            delay: 0,
            sound: 0,
            wait: InputWait::Idle,
            screen: ScreenView { pixels: blank(), dirty: true },
            fault: None,
        }
    }

    /// What a step or an instruction reports: the fault, if there is one.
    pub open spec fn outcome(self) -> Result<(), MachineError> {
        match self.fault {
            Some(e) => Err(e),
            None => Ok(()),
        }
    }

    /// This state, stopped by `e`.
    pub open spec fn halt(self, e: MachineError) -> State {
        State { fault: Some(e), ..self }
    }

    /// The timers after one step's worth of time: when the countdown has
    /// run out, each timer that is not zero falls by one and the countdown
    /// starts again from the frequency multiplier.
    pub open spec fn tick(self) -> State {
        if self.countdown == 0 {
            State {
                delay: if self.delay != 0 {
                    (self.delay - 1) as u8
                } else {
                    0
                },
                sound: if self.sound != 0 {
                    (self.sound - 1) as u8
                } else {
                    0
                },
                countdown: (self.freq_multiplier - 1) as u8,
                ..self
            }
        } else {
            State { countdown: (self.countdown - 1) as u8, ..self }
        }
    }

    /// The timers after `n` steps' worth of time.
    pub open spec fn ticks(self, n: nat) -> State
        decreases n,
    {
        if n == 0 {
            self
        } else {
            self.tick().ticks((n - 1) as nat)
        }
    }

    /// The value of register `x`.
    pub open spec fn v(self, x: usize) -> u8 {
        self.registers[x as int]
    }

    /// This state with `value` in register `x`.
    pub open spec fn set_v(self, x: usize, value: u8) -> State {
        State { registers: self.registers.update(x as int, value), ..self }
    }

    /// This state with the program counter on the next instruction.
    pub open spec fn next(self) -> State {
        State { pc: wrap16(self.pc + 2), ..self }
    }

    /// This state with the program counter on the next instruction, or on
    /// the one after it if `skip` holds.
    pub open spec fn skip_if(self, skip: bool) -> State {
        State { pc: wrap16(self.pc + if skip { 4int } else { 2int }), ..self }
    }

    /// Memory after `V0..=Vx` have been stored from the index register on.
    pub open spec fn memory_with_registers(self, x: usize) -> Seq<u8> {
        Seq::new(
            4096,
            |a: int|
                if self.index <= a <= self.index + x {
                    self.registers[a - self.index]
                } else {
                    self.memory[a]
                },
        )
    }

    /// The registers after `V0..=Vx` have been loaded from the index
    /// register on.
    pub open spec fn registers_from_memory(self, x: usize) -> Seq<u8> {
        Seq::new(
            16,
            |k: int|
                if k <= x {
                    self.memory[self.index + k]
                } else {
                    self.registers[k]
                },
        )
    }

    /// The state after `instr` has been executed with the keys in `keys`
    /// down, `random` being the byte that a random draw gives.
    ///
    /// A machine that has stopped stays as it is. An instruction that cannot
    /// be carried out stops the machine and changes nothing else.
    pub open spec fn execute(self, instr: Instruction, keys: Seq<bool>, random: u8) -> State {
        if self.fault is Some {
            self
        } else {
            match instr {
                Instruction::Jump(a) => State { pc: a as u16, ..self },
                Instruction::JumpPlus(a) => State { pc: wrap16(self.v(0) + a), ..self },
                Instruction::Call(a) => if self.stack.len() >= 16 {
                    self.halt(MachineError::StackOverflow)
                } else {
                    State { stack: self.stack.push(wrap16(self.pc + 2)), pc: a as u16, ..self }
                },
                Instruction::Return => if self.stack.len() == 0 {
                    self.halt(MachineError::StackUnderflow)
                } else {
                    State { pc: self.stack.last(), stack: self.stack.drop_last(), ..self }
                },
                Instruction::SkipEqByte(x, b) => self.skip_if(self.v(x) == b),
                Instruction::SkipNeByte(x, b) => self.skip_if(self.v(x) != b),
                Instruction::SkipEq(x, y) => self.skip_if(self.v(x) == self.v(y)),
                Instruction::SkipNe(x, y) => self.skip_if(self.v(x) != self.v(y)),
                Instruction::SkipPressed(x) => if self.v(x) >= 16 {
                    self.halt(MachineError::KeyOutOfRange)
                } else {
                    self.skip_if(keys[self.v(x) as int])
                },
                Instruction::SkipNPressed(x) => if self.v(x) >= 16 {
                    self.halt(MachineError::KeyOutOfRange)
                } else {
                    self.skip_if(!keys[self.v(x) as int])
                },
                Instruction::LoadByte(x, b) => self.set_v(x, b).next(),
                Instruction::LoadRandom(x, b) => self.set_v(x, random & b).next(),
                Instruction::AddByte(x, b) => self.set_v(x, wrap8(self.v(x) + b)).next(),
                Instruction::Copy(x, y) => self.set_v(x, self.v(y)).next(),
                Instruction::Or(x, y) => self.set_v(x, self.v(x) | self.v(y)).next(),
                Instruction::And(x, y) => self.set_v(x, self.v(x) & self.v(y)).next(),
                Instruction::Xor(x, y) => self.set_v(x, self.v(x) ^ self.v(y)).next(),
                Instruction::Add(x, y) => {
                    let sum = self.v(x) + self.v(y);
                    self.set_v(x, wrap8(sum)).set_v(0xF, flag(sum > 255)).next()
                },
                Instruction::Sub(x, y) => {
                    let difference = self.v(x) - self.v(y);
                    self.set_v(x, wrap8(difference)).set_v(0xF, flag(difference >= 0)).next()
                },
                Instruction::Subn(x, y) => {
                    let difference = self.v(y) - self.v(x);
                    self.set_v(x, wrap8(difference)).set_v(0xF, flag(difference >= 0)).next()
                },
                Instruction::Shr(x) => {
                    let flagged = self.set_v(0xF, self.v(x) % 2);
                    flagged.set_v(x, flagged.v(x) / 2).next()
                },
                Instruction::Shl(x) => {
                    let flagged = self.set_v(0xF, self.v(x) / 128);
                    flagged.set_v(x, wrap8(flagged.v(x) * 2)).next()
                },
                Instruction::LoadDelay(x) => self.set_v(x, self.delay).next(),
                Instruction::LoadPressed(x) => State {
                    wait: InputWait::AwaitingPress { reg: x },
                    ..self
                }.next(),
                Instruction::SetDelay(x) => State { delay: self.v(x), ..self }.next(),
                Instruction::SetSound(x) => State { sound: self.v(x), ..self }.next(),
                Instruction::LoadI(a) => State { index: a as u16, ..self }.next(),
                Instruction::AddToI(x) => State {
                    index: wrap16(self.index + self.v(x)),
                    ..self
                }.next(),
                Instruction::SetSprite(x) => State {
                    index: ((self.v(x) % 16) * 5) as u16,
                    ..self
                }.next(),
                Instruction::StoreBCD(x) => if self.index + 2 >= 4096 {
                    self.halt(MachineError::AddressOutOfRange)
                } else {
                    State {
                        memory: self.memory.update(self.index as int, self.v(x) / 100).update(
                            self.index + 1,
                            self.v(x) / 10 % 10,
                        ).update(self.index + 2, self.v(x) % 10),
                        ..self
                    }.next()
                },
                Instruction::StoreRegisters(x) => if self.index + x >= 4096 {
                    self.halt(MachineError::AddressOutOfRange)
                } else {
                    State { memory: self.memory_with_registers(x), ..self }.next()
                },
                Instruction::RestoreRegisters(x) => if self.index + x >= 4096 {
                    self.halt(MachineError::AddressOutOfRange)
                } else {
                    State { registers: self.registers_from_memory(x), ..self }.next()
                },
                Instruction::Clear => State {
                    screen: ScreenView { pixels: blank(), dirty: true },
                    ..self
                }.next(),
                Instruction::Draw(x, y, n) => if self.index + n > 4096 {
                    self.halt(MachineError::AddressOutOfRange)
                } else {
                    let sprite = self.memory.subrange(self.index as int, self.index + n);
                    let hit = draw_collides(self.screen.pixels, self.v(x), self.v(y), sprite);
                    State {
                        screen: ScreenView {
                            pixels: draw_rows(self.screen.pixels, self.v(x), self.v(y), sprite),
                            dirty: self.screen.dirty || has_ink(sprite),
                        },
                        ..self
                    }.set_v(0xF, flag(hit)).next()
                },
            }
        }
    }

    /// The instruction that the next step will execute: the one at the
    /// program counter, if the machine is running, is not waiting for a key,
    /// and the two bytes there are an instruction.
    pub open spec fn next_instruction(self) -> Option<Instruction> {
        if self.fault is None && self.wait is Idle && self.pc + 1 < 4096 {
            decode(self.memory[self.pc as int], self.memory[self.pc + 1])
        } else {
            None
        }
    }

    /// Whether the next step draws a random byte.
    pub open spec fn draws_random(self) -> bool {
        self.next_instruction() matches Some(Instruction::LoadRandom(_, _))
    }

    /// Whether the next step executes an instruction to its end: the machine
    /// is running, is not waiting for a key, and the step does not stop it.
    pub open spec fn completes(self, keys: Seq<bool>, random: u8) -> bool {
        self.fault is None && self.wait is Idle && self.step(keys, random).fault is None
    }

    /// The state after one step for each entry of `inputs`, in order. An
    /// entry holds the keys that are down at its step and the byte that a
    /// random draw gives there.
    pub open spec fn run(self, inputs: Seq<(Seq<bool>, u8)>) -> State
        decreases inputs.len(),
    {
        if inputs.len() == 0 {
            self
        } else {
            self.run(inputs.drop_last()).step(inputs.last().0, inputs.last().1)
        }
    }

    /// The state after one step with the keys in `keys` down, `random` being
    /// the byte that a random draw gives.
    ///
    /// A machine that has stopped stays as it is. A machine that is not
    /// waiting for a key lets time pass for the timers, then executes the
    /// instruction at the program counter; if there is none, or it cannot be
    /// carried out, the machine stops and nothing else changes, the timers
    /// included. A machine that waits for a keystroke only looks at the keys.
    pub open spec fn step(self, keys: Seq<bool>, random: u8) -> State {
        if self.fault is Some {
            self
        } else {
            match self.wait {
                InputWait::Idle => if self.pc + 1 >= 4096 {
                    self.halt(MachineError::AddressOutOfRange)
                } else {
                    let op1 = self.memory[self.pc as int];
                    let op2 = self.memory[self.pc + 1];
                    match decode(op1, op2) {
                        None => self.halt(
                            MachineError::UnknownOpcode { address: self.pc, op1, op2 },
                        ),
                        Some(instr) => {
                            let done = self.tick().execute(instr, keys, random);
                            match done.fault {
                                Some(e) => self.halt(e),
                                None => done,
                            }
                        },
                    }
                },
                InputWait::AwaitingPress { reg } => match first_pressed(keys) {
                    Some(key) => State {
                        wait: InputWait::AwaitingRelease { reg, key: key as usize },
                        ..self
                    },
                    None => self,
                },
                InputWait::AwaitingRelease { reg, key } => if keys[key as int] {
                    self
                } else {
                    State { wait: InputWait::Idle, ..self }.set_v(reg, key as u8)
                },
            }
        }
    }
}

/// `first_pressed` names a key that is down and has no key below it down,
/// and names none only if no key is down.
pub proof fn lemma_first_pressed(keys: Seq<bool>)
    ensures
        match first_pressed(keys) {
            Some(k) => k < keys.len() && keys[k as int] && forall|j: int| 0 <= j < k ==> !keys[j],
            None => forall|j: int| 0 <= j < keys.len() ==> !keys[j],
        },
    decreases keys.len(),
{
    if keys.len() > 0 {
        let init = keys.drop_last();
        lemma_first_pressed(init);
        assert forall|j: int| 0 <= j < init.len() implies init[j] == keys[j] by {}
    }
}

/// An instruction that stops the machine changes nothing but that.
pub proof fn lemma_execute_fault(s: State, instr: Instruction, keys: Seq<bool>, random: u8)
    requires
        s.fault is None,
    ensures
        s.execute(instr, keys, random).fault matches Some(e) ==> s.execute(instr, keys, random)
            == s.halt(e),
{
}

/// Only `LoadRandom` looks at the random byte.
pub proof fn lemma_execute_ignores_random(
    s: State,
    instr: Instruction,
    keys: Seq<bool>,
    random: u8,
    other: u8,
)
    requires
        !(instr is LoadRandom),
    ensures
        s.execute(instr, keys, random) == s.execute(instr, keys, other),
{
}

/// A step that does not execute `LoadRandom` is the same whatever the
/// random byte.
pub proof fn lemma_step_ignores_random(s: State, keys: Seq<bool>, random: u8, other: u8)
    requires
        !s.draws_random(),
    ensures
        s.step(keys, random) == s.step(keys, other),
{
    if s.fault is None && s.wait is Idle && s.pc + 1 < 4096 {
        match decode(s.memory[s.pc as int], s.memory[s.pc + 1]) {
            Some(instr) => {
                lemma_execute_ignores_random(s.tick(), instr, keys, random, other);
            },
            None => {},
        }
    }
}

} // verus!

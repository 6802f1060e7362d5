//! The execution engine: memory, registers, call stack, timers, the wait
//! for a keystroke and the display, advanced one step at a time.

use crate::instruction::Instruction;
use crate::screen::{blank, draw_collides, draw_rows, has_ink, Screen, ScreenView, SPRITES};
use crate::machine_proofs::{lemma_execute_keeps_wf, lemma_step_keeps_wf};
use crate::random::random_byte;
use crate::state::{
    first_pressed, lemma_execute_fault, lemma_first_pressed, lemma_step_ignores_random, wrap16, wrap8,
    InputWait, MachineError, State, PROGRAM_START,
};
use vstd::prelude::*;
use vstd::slice::slice_subrange;

verus! {

/// Everything in a machine but its display.
struct Cpu {
    freq_multiplier: u8,
    timer_decrease: u8,
    memory: [u8; 4096],
    memory_pos: u16,
    stack: [u16; 16],
    stack_pos: usize,
    registers: [u8; 16],
    i: u16,
    delay: u8,
    sound: u8,
    load_key: InputWait,
    fault: Option<MachineError>,
}

impl Cpu {
    #[verifier::type_invariant]
    spec fn inv(self) -> bool {
        &&& self.freq_multiplier >= 1
        &&& self.timer_decrease < self.freq_multiplier
        &&& self.stack_pos <= 16
        &&& match self.load_key {
            InputWait::Idle => true,
            InputWait::AwaitingPress { reg } => reg < 16,
            InputWait::AwaitingRelease { reg, key } => reg < 16 && key < 16,
        }
    }
}

/// A CHIP-8 machine.
pub struct Machine {
    cpu: Cpu,
    screen: Screen,
}

impl View for Machine {
    type V = State;

    closed spec fn view(&self) -> State {
        State {
            freq_multiplier: self.cpu.freq_multiplier,
            countdown: self.cpu.timer_decrease,
            memory: self.cpu.memory@,
            pc: self.cpu.memory_pos,
            stack: self.cpu.stack@.take(self.cpu.stack_pos as int),
            registers: self.cpu.registers@,
            index: self.cpu.i,
            delay: self.cpu.delay,
            sound: self.cpu.sound,
            wait: self.cpu.load_key,
            screen: self.screen@,
            fault: self.cpu.fault,
        }
    }
}

/// How shifts and masks on a register read as arithmetic.
proof fn lemma_shifts(v: u8)
    by (bit_vector)
    ensures
        v & 0x1 == v % 2,
        v >> 1 == v / 2,
        (v & 0x80) >> 7 == v / 128,
        v << 1 == (v % 128) * 2,
{
}

/// The sum of two bytes reduced to eight bits, and whether it did not fit.
fn overflowing_add(a: u8, b: u8) -> (r: (u8, bool))
    ensures
        r.0 == wrap8(a + b),
        r.1 == (a + b > 255),
{
    (a.wrapping_add(b), b > 255 - a)
}

/// The difference of two bytes reduced to eight bits, and whether it was
/// negative.
fn overflowing_sub(a: u8, b: u8) -> (r: (u8, bool))
    ensures
        r.0 == wrap8(a - b),
        r.1 == (a - b < 0),
{
    (a.wrapping_sub(b), a < b)
}

/// Copies `registers[0..=x]` to `memory[base..=base + x]`.
fn store_registers(memory: &mut [u8; 4096], registers: &[u8; 16], base: usize, x: usize)
    requires
        x < 16,
        base + x < 4096,
    ensures
        final(memory)@ == Seq::new(
            4096,
            |a: int|
                if base <= a <= base + x {
                    registers@[a - base]
                } else {
                    old(memory)@[a]
                },
        ),
    no_unwind
{
    let mut k: usize = 0;
    while k <= x
        invariant
            k <= x + 1,
            x < 16,
            base + x < 4096,
            forall|a: int|
                0 <= a < 4096 ==> memory[a] == if base <= a < base + k {
                    registers@[a - base]
                } else {
                    old(memory)@[a]
                },
        decreases x + 1 - k,
    {
        memory[base + k] = registers[k];
        k += 1;
    }
    assert(memory@ =~= Seq::new(
        4096,
        |a: int|
            if base <= a <= base + x {
                registers@[a - base]
            } else {
                old(memory)@[a]
            },
    ));
}

/// Copies `memory[base..=base + x]` to `registers[0..=x]`.
fn restore_registers(registers: &mut [u8; 16], memory: &[u8; 4096], base: usize, x: usize)
    requires
        x < 16,
        base + x < 4096,
    ensures
        final(registers)@ == Seq::new(
            16,
            |k: int|
                if k <= x {
                    memory@[base + k]
                } else {
                    old(registers)@[k]
                },
        ),
    no_unwind
{
    let mut k: usize = 0;
    while k <= x
        invariant
            k <= x + 1,
            x < 16,
            base + x < 4096,
            forall|j: int|
                0 <= j < 16 ==> registers[j] == if j < k {
                    memory@[base + j]
                } else {
                    old(registers)@[j]
                },
        decreases x + 1 - k,
    {
        registers[k] = memory[base + k];
        k += 1;
    }
    assert(registers@ =~= Seq::new(
        16,
        |k: int|
            if k <= x {
                memory@[base + k]
            } else {
                old(registers)@[k]
            },
    ));
}

/// The lowest-numbered key that is down, if any is.
fn first_pressed_key(keys: &[bool; 16]) -> (r: Option<usize>)
    ensures
        match r {
            Some(k) => first_pressed(keys@) == Some(k as nat),
            None => first_pressed(keys@) is None,
        },
{
    let mut k: usize = 0;
    while k < 16
        invariant
            k <= 16,
            forall|j: int| 0 <= j < k ==> !keys@[j],
        decreases 16 - k,
    {
        if keys[k] {
            proof {
                lemma_first_pressed(keys@);
            }
            return Some(k);
        }
        k += 1;
    }
    proof {
        lemma_first_pressed(keys@);
    }
    None
}

impl Machine {
    /// Builds a machine that runs `program` and executes `freq_multiplier`
    /// steps per tick of its timers.
    ///
    /// Fails with `ZeroFrequency` if `freq_multiplier` is zero, else with
    /// `ProgramTooLarge` if the program is longer than the memory from the
    /// load address on.
    pub fn new(freq_multiplier: u8, program: &[u8]) -> (r: Result<Self, MachineError>)
        ensures
            match r {
                Ok(m) => freq_multiplier != 0 && program@.len() <= 4096 - 0x200 && m@
                    == State::initial(freq_multiplier, program@) && m@.wf(),
                Err(e) => if freq_multiplier == 0 {
                    e == MachineError::ZeroFrequency
                } else {
                    program@.len() > 4096 - 0x200 && e == MachineError::ProgramTooLarge
                },
            },
    {
        if freq_multiplier == 0 {
            return Err(MachineError::ZeroFrequency);
        }
        if program.len() > 4096 - 0x200 {
            return Err(MachineError::ProgramTooLarge);
        }
        let mut memory = [0u8; 4096];
        let mut k: usize = 0;
        while k < 80
            invariant
                k <= 80,
                forall|a: int| 0 <= a < k ==> memory[a] == SPRITES[a],
                forall|a: int| k <= a < 4096 ==> memory[a] == 0,
            decreases 80 - k,
        {
            memory[k] = SPRITES[k];
            k += 1;
        }
        let mut k: usize = 0;
        while k < program.len()
            invariant
                k <= program.len() <= 4096 - 0x200,
                forall|a: int| 0 <= a < 80 ==> memory[a] == SPRITES[a],
                forall|a: int| 0x200 <= a < 0x200 + k ==> memory[a] == program[a - 0x200],
                forall|a: int| 80 <= a < 0x200 || 0x200 + k <= a < 4096 ==> memory[a] == 0,
            decreases program.len() - k,
        {
            memory[0x200 + k] = program[k];
            k += 1;
        }
        let screen = Screen::new();
        proof {
            screen.lemma_shape();
        }
        let cpu = Cpu {
            freq_multiplier,
            timer_decrease: 0,
            memory,
            memory_pos: PROGRAM_START,
            stack: [0; 16],
            stack_pos: 0,
            registers: [0; 16],
            i: 0,
            delay: 0,
            sound: 0,
            load_key: InputWait::Idle,
            fault: None,
        };
        let m = Self { cpu, screen };
        assert(m@ =~= State::initial(freq_multiplier, program@));
        Ok(m)
    }

    /// Address of the next instruction.
    pub fn program_counter(&self) -> (pc: u16)
        ensures
            pc == self@.pc,
    {
        self.cpu.memory_pos
    }

    /// The index register `I`.
    pub fn index(&self) -> (i: u16)
        ensures
            i == self@.index,
    {
        self.cpu.i
    }

    /// The registers `V0` to `VF`.
    pub fn registers(&self) -> (v: [u8; 16])
        ensures
            v@ == self@.registers,
    {
        self.cpu.registers
    }

    /// The 4096 bytes of memory.
    pub fn memory(&self) -> (m: &[u8; 4096])
        ensures
            m@ == self@.memory,
    {
        &self.cpu.memory
    }

    /// Number of calls in progress.
    pub fn call_depth(&self) -> (n: usize)
        ensures
            n == self@.stack.len(),
    {
        proof {
            use_type_invariant(&self.cpu);
        }
        self.cpu.stack_pos
    }

    /// The delay timer.
    pub fn delay_timer(&self) -> (t: u8)
        ensures
            t == self@.delay,
    {
        self.cpu.delay
    }

    /// The sound timer.
    pub fn sound_timer(&self) -> (t: u8)
        ensures
            t == self@.sound,
    {
        self.cpu.sound
    }

    /// Where the machine stands in waiting for a keystroke.
    pub fn input_wait(&self) -> (w: InputWait)
        ensures
            w == self@.wait,
    {
        self.cpu.load_key
    }

    /// The error that stopped the machine, if it has stopped.
    pub fn fault(&self) -> (e: Option<MachineError>)
        ensures
            e == self@.fault,
    {
        self.cpu.fault
    }

    /// Steps per tick of the timers.
    pub fn freq_multiplier(&self) -> (f: u8)
        ensures
            f == self@.freq_multiplier,
            f >= 1,
    {
        proof {
            use_type_invariant(&self.cpu);
        }
        self.cpu.freq_multiplier
    }

    /// The display that this machine draws on.
    pub closed spec fn display(self) -> Screen {
        self.screen
    }

    /// The display, to read its pixels and to acknowledge them. Whatever
    /// the caller does to the display is done to the machine's display;
    /// nothing else in the machine changes.
    pub fn screen(&mut self) -> (s: &mut Screen)
        ensures
            *s == old(self).display(),
            final(self).display() == *final(s),
            final(self)@ == (State { screen: final(s)@, ..old(self)@ }),
            final(self)@.wf(),
    {
        proof {
            use_type_invariant(&self.cpu);
        }
        let s = &mut self.screen;
        proof {
            final(s).lemma_shape();
        }
        s
    }

    /// Stops the machine with `e`.
    fn fail(&mut self, e: MachineError) -> (r: Result<(), MachineError>)
        ensures
            final(self)@ == old(self)@.halt(e),
            r == Err::<(), MachineError>(e),
    {
        proof {
            use_type_invariant(&self.cpu);
        }
        self.cpu.fault = Some(e);
        Err(e)
    }

    /// Moves the program counter `by` bytes on.
    fn advance(&mut self, by: u16)
        ensures
            final(self)@ == (State { pc: wrap16(old(self)@.pc + by), ..old(self)@ }),
    {
        proof {
            use_type_invariant(&self.cpu);
        }
        self.cpu.memory_pos = self.cpu.memory_pos.wrapping_add(by);
    }

    /// Puts `value` in register `x`.
    fn set_register(&mut self, x: usize, value: u8)
        requires
            x < 16,
        ensures
            final(self)@ == old(self)@.set_v(x, value),
    {
        proof {
            use_type_invariant(&self.cpu);
        }
        self.cpu.registers[x] = value;
    }

    /// Continues at `target`.
    fn jump_to(&mut self, target: u16)
        ensures
            final(self)@ == (State { pc: target, ..old(self)@ }),
    {
        proof {
            use_type_invariant(&self.cpu);
        }
        self.cpu.memory_pos = target;
    }

    /// Puts the address of the instruction after this one on the call stack.
    fn push_return(&mut self)
        requires
            old(self)@.stack.len() < 16,
        ensures
            final(self)@ == (State {
                stack: old(self)@.stack.push(wrap16(old(self)@.pc + 2)),
                ..old(self)@
            }),
    {
        proof {
            use_type_invariant(&self.cpu);
        }
        self.cpu.stack[self.cpu.stack_pos] = self.cpu.memory_pos.wrapping_add(2);
        self.cpu.stack_pos += 1;
        assert(self@.stack =~= old(self)@.stack.push(wrap16(old(self)@.pc + 2)));
    }

    /// Takes the innermost return address off the call stack and continues
    /// there.
    fn pop_return(&mut self)
        requires
            old(self)@.stack.len() > 0,
        ensures
            final(self)@ == (State {
                pc: old(self)@.stack.last(),
                stack: old(self)@.stack.drop_last(),
                ..old(self)@
            }),
    {
        proof {
            use_type_invariant(&self.cpu);
        }
        self.cpu.stack_pos -= 1;
        self.cpu.memory_pos = self.cpu.stack[self.cpu.stack_pos];
        assert(self@.stack =~= old(self)@.stack.drop_last());
    }

    /// Starts the wait for a keystroke that register `x` will receive.
    fn await_key(&mut self, x: usize)
        requires
            x < 16,
        ensures
            final(self)@ == (State { wait: InputWait::AwaitingPress { reg: x }, ..old(self)@ }),
    {
        proof {
            use_type_invariant(&self.cpu);
        }
        self.cpu.load_key = InputWait::AwaitingPress { reg: x };
    }

    /// Sets the delay timer.
    fn set_delay(&mut self, value: u8)
        ensures
            final(self)@ == (State { delay: value, ..old(self)@ }),
    {
        proof {
            use_type_invariant(&self.cpu);
        }
        self.cpu.delay = value;
    }

    /// Sets the sound timer.
    fn set_sound(&mut self, value: u8)
        ensures
            final(self)@ == (State { sound: value, ..old(self)@ }),
    {
        proof {
            use_type_invariant(&self.cpu);
        }
        self.cpu.sound = value;
    }

    /// Sets the index register.
    fn set_index(&mut self, value: u16)
        ensures
            final(self)@ == (State { index: value, ..old(self)@ }),
    {
        proof {
            use_type_invariant(&self.cpu);
        }
        self.cpu.i = value;
    }

    /// Writes the hundreds, tens and ones of `Vx` at the index register.
    fn store_bcd(&mut self, x: usize)
        requires
            x < 16,
            old(self)@.index + 2 < 4096,
        ensures
            final(self)@ == (State {
                memory: old(self)@.memory.update(
                    old(self)@.index as int,
                    old(self)@.v(x) / 100,
                ).update(old(self)@.index + 1, old(self)@.v(x) / 10 % 10).update(
                    old(self)@.index + 2,
                    old(self)@.v(x) % 10,
                ),
                ..old(self)@
            }),
    {
        proof {
            use_type_invariant(&self.cpu);
        }
        let base = self.cpu.i as usize;
        let value = self.cpu.registers[x];
        self.cpu.memory[base] = value / 100;
        self.cpu.memory[base + 1] = value / 10 % 10;
        self.cpu.memory[base + 2] = value % 10;
    }

    /// Writes `V0..=Vx` to memory from the index register on.
    fn store(&mut self, x: usize)
        requires
            x < 16,
            old(self)@.index + x < 4096,
        ensures
            final(self)@ == (State { memory: old(self)@.memory_with_registers(x), ..old(self)@ }),
    {
        proof {
            use_type_invariant(&self.cpu);
        }
        let base = self.cpu.i as usize;
        store_registers(&mut self.cpu.memory, &self.cpu.registers, base, x);
        assert(self@.memory =~= old(self)@.memory_with_registers(x));
    }

    /// Reads `V0..=Vx` from memory from the index register on.
    fn restore(&mut self, x: usize)
        requires
            x < 16,
            old(self)@.index + x < 4096,
        ensures
            final(self)@ == (State {
                registers: old(self)@.registers_from_memory(x),
                ..old(self)@
            }),
    {
        proof {
            use_type_invariant(&self.cpu);
        }
        let base = self.cpu.i as usize;
        restore_registers(&mut self.cpu.registers, &self.cpu.memory, base, x);
        assert(self@.registers =~= old(self)@.registers_from_memory(x));
    }

    /// Blanks the display.
    fn clear_screen(&mut self)
        ensures
            final(self)@ == (State {
                screen: ScreenView { pixels: blank(), dirty: true },
                ..old(self)@
            }),
    {
        self.screen.clear();
    }

    /// Draws the `n` bytes at the index register as a sprite at
    /// `(Vx, Vy)` and returns whether a lit pixel was turned off.
    fn draw_sprite(&mut self, x: usize, y: usize, n: u8) -> (hit: bool)
        requires
            x < 16,
            y < 16,
            old(self)@.index + n <= 4096,
        ensures
            ({
                let was = old(self)@;
                let sprite = was.memory.subrange(was.index as int, was.index + n);
                &&& hit == draw_collides(was.screen.pixels, was.v(x), was.v(y), sprite)
                &&& final(self)@ == (State {
                    screen: ScreenView {
                        pixels: draw_rows(was.screen.pixels, was.v(x), was.v(y), sprite),
                        dirty: was.screen.dirty || has_ink(sprite),
                    },
                    ..was
                })
            }),
    {
        let base = self.cpu.i as usize;
        let vx = self.cpu.registers[x];
        let vy = self.cpu.registers[y];
        let sprite = slice_subrange(self.cpu.memory.as_slice(), base, base + n as usize);
        self.screen.draw(vx, vy, sprite)
    }

    /// Executes a jump, a call or a return.
    fn execute_flow(
        &mut self,
        instr: Instruction,
        Ghost(keys): Ghost<Seq<bool>>,
        Ghost(random): Ghost<u8>,
    ) -> (r: Result<(), MachineError>)
        requires
            instr.well_formed(),
            old(self)@.fault is None,
            instr is Jump || instr is JumpPlus || instr is Call || instr is Return,
        ensures
            final(self)@ == old(self)@.execute(instr, keys, random),
            r == final(self)@.outcome(),
    {
        proof {
            use_type_invariant(&self.cpu);
        }
        match instr {
            Instruction::Jump(a) => {
                self.jump_to(a as u16);
            },
            Instruction::JumpPlus(a) => {
                let target = self.cpu.registers[0] as u16 + a as u16;
                self.jump_to(target);
            },
            Instruction::Call(a) => {
                if self.cpu.stack_pos >= 16 {
                    return self.fail(MachineError::StackOverflow);
                }
                self.push_return();
                self.jump_to(a as u16);
            },
            Instruction::Return => {
                if self.cpu.stack_pos == 0 {
                    return self.fail(MachineError::StackUnderflow);
                }
                self.pop_return();
            },
            _ => {},
        }
        Ok(())
    }

    /// Executes a conditional skip.
    fn execute_skip(
        &mut self,
        instr: Instruction,
        pressed_keys: &[bool; 16],
        Ghost(random): Ghost<u8>,
    ) -> (r: Result<(), MachineError>)
        requires
            instr.well_formed(),
            old(self)@.fault is None,
            instr is SkipEqByte || instr is SkipNeByte || instr is SkipEq || instr is SkipNe
                || instr is SkipPressed || instr is SkipNPressed,
        ensures
            final(self)@ == old(self)@.execute(instr, pressed_keys@, random),
            r == final(self)@.outcome(),
    {
        let skip = match instr {
            Instruction::SkipEqByte(x, b) => self.cpu.registers[x] == b,
            Instruction::SkipNeByte(x, b) => self.cpu.registers[x] != b,
            Instruction::SkipEq(x, y) => self.cpu.registers[x] == self.cpu.registers[y],
            Instruction::SkipNe(x, y) => self.cpu.registers[x] != self.cpu.registers[y],
            Instruction::SkipPressed(x) => {
                let key = self.cpu.registers[x] as usize;
                if key >= 16 {
                    return self.fail(MachineError::KeyOutOfRange);
                }
                pressed_keys[key]
            },
            Instruction::SkipNPressed(x) => {
                let key = self.cpu.registers[x] as usize;
                if key >= 16 {
                    return self.fail(MachineError::KeyOutOfRange);
                }
                !pressed_keys[key]
            },
            _ => false,
        };
        self.advance(if skip { 4 } else { 2 });
        Ok(())
    }

    /// Executes an instruction that puts a value in `Vx` and leaves the flag
    /// alone.
    fn execute_load(
        &mut self,
        instr: Instruction,
        Ghost(keys): Ghost<Seq<bool>>,
        random: u8,
    ) -> (r: Result<(), MachineError>)
        requires
            instr.well_formed(),
            old(self)@.fault is None,
            instr is LoadByte || instr is LoadRandom || instr is AddByte || instr is Copy
                || instr is Or || instr is And || instr is Xor || instr is LoadDelay,
        ensures
            final(self)@ == old(self)@.execute(instr, keys, random),
            r == final(self)@.outcome(),
    {
        match instr {
            Instruction::LoadByte(x, b) => {
                self.set_register(x, b);
            },
            Instruction::LoadRandom(x, b) => {
                self.set_register(x, random & b);
            },
            Instruction::AddByte(x, b) => {
                let value = self.cpu.registers[x].wrapping_add(b);
                self.set_register(x, value);
            },
            Instruction::Copy(x, y) => {
                let value = self.cpu.registers[y];
                self.set_register(x, value);
            },
            Instruction::Or(x, y) => {
                let value = self.cpu.registers[x] | self.cpu.registers[y];
                self.set_register(x, value);
            },
            Instruction::And(x, y) => {
                let value = self.cpu.registers[x] & self.cpu.registers[y];
                self.set_register(x, value);
            },
            Instruction::Xor(x, y) => {
                let value = self.cpu.registers[x] ^ self.cpu.registers[y];
                self.set_register(x, value);
            },
            Instruction::LoadDelay(x) => {
                let value = self.cpu.delay;
                self.set_register(x, value);
            },
            _ => {},
        }
        self.advance(2);
        Ok(())
    }

    /// Executes an addition or a subtraction that sets the flag.
    fn execute_sum(
        &mut self,
        instr: Instruction,
        Ghost(keys): Ghost<Seq<bool>>,
        Ghost(random): Ghost<u8>,
    ) -> (r: Result<(), MachineError>)
        requires
            instr.well_formed(),
            old(self)@.fault is None,
            instr is Add || instr is Sub || instr is Subn,
        ensures
            final(self)@ == old(self)@.execute(instr, keys, random),
            r == final(self)@.outcome(),
    {
        match instr {
            Instruction::Add(x, y) => {
                let (value, overflow) = overflowing_add(self.cpu.registers[x], self.cpu.registers[y]);
                self.set_register(x, value);
                self.set_register(0xF, if overflow { 1 } else { 0 });
            },
            Instruction::Sub(x, y) => {
                let (value, overflow) = overflowing_sub(self.cpu.registers[x], self.cpu.registers[y]);
                self.set_register(x, value);
                self.set_register(0xF, if overflow { 0 } else { 1 });
            },
            Instruction::Subn(x, y) => {
                let (value, overflow) = overflowing_sub(self.cpu.registers[y], self.cpu.registers[x]);
                self.set_register(x, value);
                self.set_register(0xF, if overflow { 0 } else { 1 });
            },
            _ => {},
        }
        self.advance(2);
        Ok(())
    }

    /// Executes a shift.
    fn execute_shift(
        &mut self,
        instr: Instruction,
        Ghost(keys): Ghost<Seq<bool>>,
        Ghost(random): Ghost<u8>,
    ) -> (r: Result<(), MachineError>)
        requires
            instr.well_formed(),
            old(self)@.fault is None,
            instr is Shr || instr is Shl,
        ensures
            final(self)@ == old(self)@.execute(instr, keys, random),
            r == final(self)@.outcome(),
    {
        match instr {
            Instruction::Shr(x) => {
                let before = self.cpu.registers[x];
                proof {
                    lemma_shifts(before);
                }
                self.set_register(0xF, before & 0x1);
                let value = self.cpu.registers[x];
                proof {
                    lemma_shifts(value);
                }
                self.set_register(x, value >> 1);
            },
            Instruction::Shl(x) => {
                let before = self.cpu.registers[x];
                proof {
                    lemma_shifts(before);
                }
                self.set_register(0xF, (before & 0x80) >> 7);
                let value = self.cpu.registers[x];
                proof {
                    lemma_shifts(value);
                }
                self.set_register(x, value << 1);
            },
            _ => {},
        }
        self.advance(2);
        Ok(())
    }

    /// Executes an instruction that sets a timer or the index register, or
    /// starts the wait for a keystroke.
    fn execute_control(
        &mut self,
        instr: Instruction,
        Ghost(keys): Ghost<Seq<bool>>,
        Ghost(random): Ghost<u8>,
    ) -> (r: Result<(), MachineError>)
        requires
            instr.well_formed(),
            old(self)@.fault is None,
            instr is LoadPressed || instr is SetDelay || instr is SetSound || instr is LoadI
                || instr is AddToI || instr is SetSprite,
        ensures
            final(self)@ == old(self)@.execute(instr, keys, random),
            r == final(self)@.outcome(),
    {
        match instr {
            Instruction::LoadPressed(x) => {
                self.await_key(x);
            },
            Instruction::SetDelay(x) => {
                let value = self.cpu.registers[x];
                self.set_delay(value);
            },
            Instruction::SetSound(x) => {
                let value = self.cpu.registers[x];
                self.set_sound(value);
            },
            Instruction::LoadI(a) => {
                self.set_index(a as u16);
            },
            Instruction::AddToI(x) => {
                let value = self.cpu.i.wrapping_add(self.cpu.registers[x] as u16);
                self.set_index(value);
            },
            Instruction::SetSprite(x) => {
                let value = (self.cpu.registers[x] as u16 % 0x10) * 5;
                self.set_index(value);
            },
            _ => {},
        }
        self.advance(2);
        Ok(())
    }

    /// Executes an instruction that moves data between registers and
    /// memory.
    fn execute_memory(
        &mut self,
        instr: Instruction,
        Ghost(keys): Ghost<Seq<bool>>,
        Ghost(random): Ghost<u8>,
    ) -> (r: Result<(), MachineError>)
        requires
            instr.well_formed(),
            old(self)@.fault is None,
            instr is StoreBCD || instr is StoreRegisters || instr is RestoreRegisters,
        ensures
            final(self)@ == old(self)@.execute(instr, keys, random),
            r == final(self)@.outcome(),
    {
        match instr {
            Instruction::StoreBCD(x) => {
                if self.cpu.i as usize + 2 >= 4096 {
                    return self.fail(MachineError::AddressOutOfRange);
                }
                self.store_bcd(x);
            },
            Instruction::StoreRegisters(x) => {
                if self.cpu.i as usize + x >= 4096 {
                    return self.fail(MachineError::AddressOutOfRange);
                }
                self.store(x);
            },
            Instruction::RestoreRegisters(x) => {
                if self.cpu.i as usize + x >= 4096 {
                    return self.fail(MachineError::AddressOutOfRange);
                }
                self.restore(x);
            },
            _ => {},
        }
        self.advance(2);
        Ok(())
    }

    /// Executes an instruction that changes the display.
    fn execute_display(
        &mut self,
        instr: Instruction,
        Ghost(keys): Ghost<Seq<bool>>,
        Ghost(random): Ghost<u8>,
    ) -> (r: Result<(), MachineError>)
        requires
            instr.well_formed(),
            old(self)@.fault is None,
            instr is Clear || instr is Draw,
        ensures
            final(self)@ == old(self)@.execute(instr, keys, random),
            r == final(self)@.outcome(),
    {
        match instr {
            Instruction::Clear => {
                self.clear_screen();
            },
            Instruction::Draw(x, y, n) => {
                if self.cpu.i as usize + n as usize > 4096 {
                    return self.fail(MachineError::AddressOutOfRange);
                }
                let hit = self.draw_sprite(x, y, n);
                self.set_register(0xF, if hit { 1 } else { 0 });
            },
            _ => {},
        }
        self.advance(2);
        Ok(())
    }

    /// Executes `instr` with the keys in `pressed_keys` down. `random` is the
    /// byte that `LoadRandom` masks; no other instruction looks at it.
    ///
    /// Returns the error that stopped the machine, now or earlier, if it has
    /// stopped.
    pub fn execute_instruction(
        &mut self,
        instr: Instruction,
        pressed_keys: [bool; 16],
        random: u8,
    ) -> (r: Result<(), MachineError>)
        requires
            instr.well_formed(),
        ensures
            final(self)@ == old(self)@.execute(instr, pressed_keys@, random),
            r == final(self)@.outcome(),
            final(self)@.wf(),
    {
        proof {
            use_type_invariant(&self.cpu);
            self.screen.lemma_shape();
            lemma_execute_keeps_wf(self@, instr, pressed_keys@, random);
        }
        if let Some(e) = self.cpu.fault {
            return Err(e);
        }
        let ghost keys = pressed_keys@;
        match instr {
            Instruction::Jump(_)
            | Instruction::JumpPlus(_)
            | Instruction::Call(_)
            | Instruction::Return => self.execute_flow(instr, Ghost(keys), Ghost(random)),
            Instruction::SkipEqByte(_, _)
            | Instruction::SkipNeByte(_, _)
            | Instruction::SkipEq(_, _)
            | Instruction::SkipNe(_, _)
            | Instruction::SkipPressed(_)
            | Instruction::SkipNPressed(_) => self.execute_skip(
                instr,
                &pressed_keys,
                Ghost(random),
            ),
            Instruction::LoadByte(_, _)
            | Instruction::LoadRandom(_, _)
            | Instruction::AddByte(_, _)
            | Instruction::Copy(_, _)
            | Instruction::Or(_, _)
            | Instruction::And(_, _)
            | Instruction::Xor(_, _)
            | Instruction::LoadDelay(_) => self.execute_load(instr, Ghost(keys), random),
            Instruction::Add(_, _) | Instruction::Sub(_, _) | Instruction::Subn(_, _) => {
                self.execute_sum(instr, Ghost(keys), Ghost(random))
            },
            Instruction::Shr(_) | Instruction::Shl(_) => self.execute_shift(
                instr,
                Ghost(keys),
                Ghost(random),
            ),
            Instruction::LoadPressed(_)
            | Instruction::SetDelay(_)
            | Instruction::SetSound(_)
            | Instruction::LoadI(_)
            | Instruction::AddToI(_)
            | Instruction::SetSprite(_) => self.execute_control(instr, Ghost(keys), Ghost(random)),
            Instruction::StoreBCD(_)
            | Instruction::StoreRegisters(_)
            | Instruction::RestoreRegisters(_) => self.execute_memory(
                instr,
                Ghost(keys),
                Ghost(random),
            ),
            Instruction::Clear | Instruction::Draw(_, _, _) => self.execute_display(
                instr,
                Ghost(keys),
                Ghost(random),
            ),
        }
    }

    /// Lets one step's worth of time pass for the timers.
    fn tick(&mut self)
        ensures
            final(self)@ == old(self)@.tick(),
    {
        proof {
            use_type_invariant(&self.cpu);
        }
        if self.cpu.timer_decrease == 0 {
            if self.cpu.delay != 0 {
                self.cpu.delay -= 1;
            }
            if self.cpu.sound != 0 {
                self.cpu.sound -= 1;
            }
            self.cpu.timer_decrease = self.cpu.freq_multiplier - 1;
        } else {
            self.cpu.timer_decrease -= 1;
        }
    }

    /// Puts the timers back to what they were before a tick.
    fn untick(&mut self, delay: u8, sound: u8, countdown: u8)
        requires
            countdown < old(self)@.freq_multiplier,
        ensures
            final(self)@ == (State { delay, sound, countdown, ..old(self)@ }),
    {
        proof {
            use_type_invariant(&self.cpu);
        }
        self.cpu.delay = delay;
        self.cpu.sound = sound;
        self.cpu.timer_decrease = countdown;
    }

    /// A step of a machine that is not waiting for a key: time passes for
    /// the timers and the instruction at the program counter is executed.
    fn step_idle(&mut self, pressed_keys: [bool; 16], random: u8) -> (r: Result<
        (),
        MachineError,
    >)
        requires
            old(self)@.fault is None,
            old(self)@.wait is Idle,
        ensures
            final(self)@ == old(self)@.step(pressed_keys@, random),
            r == final(self)@.outcome(),
    {
        proof {
            use_type_invariant(&self.cpu);
        }
        let address = self.cpu.memory_pos;
        if address as usize + 1 >= 4096 {
            return self.fail(MachineError::AddressOutOfRange);
        }
        let op1 = self.cpu.memory[address as usize];
        let op2 = self.cpu.memory[address as usize + 1];
        match Instruction::parse(op1, op2) {
            None => self.fail(MachineError::UnknownOpcode { address, op1, op2 }),
            Some(instr) => {
                let delay = self.cpu.delay;
                let sound = self.cpu.sound;
                let countdown = self.cpu.timer_decrease;
                self.tick();
                proof {
                    lemma_execute_fault(self@, instr, pressed_keys@, random);
                }
                let r = self.execute_instruction(instr, pressed_keys, random);
                if r.is_err() {
                    self.untick(delay, sound, countdown);
                }
                r
            },
        }
    }

    /// A step of a machine that waits for a key to go down.
    fn step_awaiting_press(&mut self, reg: usize, pressed_keys: &[bool; 16])
        requires
            old(self)@.fault is None,
            old(self)@.wait == (InputWait::AwaitingPress { reg }),
        ensures
            forall|random: u8| final(self)@ == #[trigger] old(self)@.step(pressed_keys@, random),
            final(self)@.fault is None,
    {
        proof {
            use_type_invariant(&self.cpu);
            lemma_first_pressed(pressed_keys@);
        }
        match first_pressed_key(pressed_keys) {
            Some(key) => {
                self.cpu.load_key = InputWait::AwaitingRelease { reg, key };
            },
            None => {},
        }
    }

    /// A step of a machine that waits for key `key` to come up.
    fn step_awaiting_release(&mut self, reg: usize, key: usize, pressed_keys: &[bool; 16])
        requires
            old(self)@.fault is None,
            old(self)@.wait == (InputWait::AwaitingRelease { reg, key }),
        ensures
            forall|random: u8| final(self)@ == #[trigger] old(self)@.step(pressed_keys@, random),
            final(self)@.fault is None,
    {
        proof {
            use_type_invariant(&self.cpu);
        }
        if !pressed_keys[key] {
            self.cpu.load_key = InputWait::Idle;
            self.cpu.registers[reg] = key as u8;
        }
    }

    /// Advances the machine by one step with the keys in `pressed_keys`
    /// down, using `random` where the step calls for a random byte.
    ///
    /// Returns the error that stopped the machine, now or earlier, if it has
    /// stopped.
    pub fn step_with(&mut self, pressed_keys: [bool; 16], random: u8) -> (r: Result<
        (),
        MachineError,
    >)
        ensures
            final(self)@ == old(self)@.step(pressed_keys@, random),
            r == final(self)@.outcome(),
            final(self)@.wf(),
    {
        proof {
            use_type_invariant(&self.cpu);
            self.screen.lemma_shape();
            lemma_step_keeps_wf(self@, pressed_keys@, random);
        }
        if let Some(e) = self.cpu.fault {
            return Err(e);
        }
        match self.cpu.load_key {
            InputWait::Idle => self.step_idle(pressed_keys, random),
            InputWait::AwaitingPress { reg } => {
                self.step_awaiting_press(reg, &pressed_keys);
                Ok(())
            },
            InputWait::AwaitingRelease { reg, key } => {
                self.step_awaiting_release(reg, key, &pressed_keys);
                Ok(())
            },
        }
    }

    /// The instruction that the next step will execute, if it will execute
    /// one: none if the machine has stopped or waits for a key, or if there
    /// is no instruction at the program counter.
    pub fn next_instruction(&self) -> (r: Option<Instruction>)
        ensures
            r == self@.next_instruction(),
    {
        if self.cpu.fault.is_some() {
            return None;
        }
        match self.cpu.load_key {
            InputWait::Idle => {},
            _ => {
                return None;
            },
        }
        let address = self.cpu.memory_pos as usize;
        if address + 1 >= 4096 {
            return None;
        }
        Instruction::parse(self.cpu.memory[address], self.cpu.memory[address + 1])
    }

    /// Whether the next step will draw a random byte.
    fn draws_random(&self) -> (b: bool)
        ensures
            b == self@.draws_random(),
    {
        match self.next_instruction() {
            Some(Instruction::LoadRandom(_, _)) => true,
            _ => false,
        }
    }

    /// Advances the machine by one step with the keys in `pressed_keys`
    /// down: executes one instruction, or moves a wait for a keystroke on.
    ///
    /// The step is the one that `step_with` makes. Where it executes
    /// `LoadRandom` it draws the byte itself, so that the outcome is that of
    /// `step_with` for some byte; any other step is the same whatever byte
    /// is given.
    ///
    /// Returns the error that stopped the machine, now or earlier, if it has
    /// stopped.
    pub fn step(&mut self, pressed_keys: [bool; 16]) -> (r: Result<(), MachineError>)
        ensures
            exists|random: u8| final(self)@ == #[trigger] old(self)@.step(pressed_keys@, random),
            !old(self)@.draws_random() ==> forall|random: u8|
                final(self)@ == #[trigger] old(self)@.step(pressed_keys@, random),
            r == final(self)@.outcome(),
            final(self)@.wf(),
    {
        let random = if self.draws_random() {
            random_byte()
        } else {
            0
        };
        proof {
            assert forall|other: u8| !self@.draws_random() implies self@.step(
                pressed_keys@,
                random,
            ) == #[trigger] self@.step(pressed_keys@, other) by {
                lemma_step_ignores_random(self@, pressed_keys@, random, other);
            }
        }
        self.step_with(pressed_keys, random)
    }
}

} // verus!

//! Theorems about the machine: what stays true of every state, and what the
//! instructions and the steps do.

use crate::instruction::{decode, lemma_decode_well_formed, Instruction};
use crate::screen::{blank, grid_wf};
use crate::screen_proofs::lemma_draw_keeps_shape;
use crate::state::{
    first_pressed, flag, lemma_first_pressed, wrap16, InputWait, MachineError, State,
};
use vstd::prelude::*;

verus! {

/// Executing an instruction whose operands are in range keeps a valid state
/// valid.
pub proof fn lemma_execute_keeps_wf(s: State, instr: Instruction, keys: Seq<bool>, random: u8)
    requires
        s.wf(),
        instr.well_formed(),
    ensures
        s.execute(instr, keys, random).wf(),
{
    match instr {
        Instruction::Draw(x, y, n) => {
            if s.index + n <= 4096 {
                let sprite = s.memory.subrange(s.index as int, s.index + n);
                lemma_draw_keeps_shape(s.screen.pixels, s.v(x), s.v(y), sprite);
            }
        },
        Instruction::Clear => {
            assert(grid_wf(blank()));
        },
        _ => {},
    }
}

/// Letting time pass for the timers keeps a valid state valid.
pub proof fn lemma_tick_keeps_wf(s: State)
    requires
        s.wf(),
    ensures
        s.tick().wf(),
{
}

/// A step keeps a valid state valid.
pub proof fn lemma_step_keeps_wf(s: State, keys: Seq<bool>, random: u8)
    requires
        s.wf(),
        keys.len() == 16,
    ensures
        s.step(keys, random).wf(),
{
    if s.fault is None {
        match s.wait {
            InputWait::Idle => {
                if s.pc + 1 < 4096 {
                    let op1 = s.memory[s.pc as int];
                    let op2 = s.memory[s.pc + 1];
                    lemma_decode_well_formed(op1, op2);
                    match decode(op1, op2) {
                        Some(instr) => {
                            lemma_execute_keeps_wf(s.tick(), instr, keys, random);
                        },
                        None => {},
                    }
                }
            },
            InputWait::AwaitingPress { reg } => {
                lemma_first_pressed(keys);
            },
            InputWait::AwaitingRelease { reg, key } => {},
        }
    }
}

/// A machine that has stopped stays exactly as it is.
pub proof fn lemma_stopped_stays(
    s: State,
    instr: Instruction,
    keys: Seq<bool>,
    random: u8,
)
    requires
        s.fault is Some,
    ensures
        s.step(keys, random) == s,
        s.execute(instr, keys, random) == s,
{
}

/// A step that stops the machine changes nothing else.
pub proof fn lemma_failed_step(s: State, keys: Seq<bool>, random: u8)
    requires
        s.fault is None,
    ensures
        s.step(keys, random).fault matches Some(e) ==> s.step(keys, random) == s.halt(e),
{
}

/// How the arithmetic on a register reads as shifts and masks.
proof fn lemma_shift_forms(v: u8)
    by (bit_vector)
    ensures
        v % 2 == v & 1,
        v / 2 == v >> 1,
        v / 128 == (v & 0x80) >> 7,
        (v % 128) * 2 == v << 1,
{
}

/// `Add` leaves in `VF` one if the sum of the two registers is above 255 and
/// zero if it is not, and in `Vx`, unless `Vx` is `VF` itself, the sum
/// modulo 256. No other register changes, and the program counter moves to
/// the next instruction.
pub proof fn lemma_add(s: State, x: usize, y: usize, keys: Seq<bool>, random: u8)
    requires
        s.wf(),
        s.fault is None,
        x < 16,
        y < 16,
    ensures
        ({
            let t = s.execute(Instruction::Add(x, y), keys, random);
            &&& t.fault is None
            &&& t.v(0xF) == flag(s.v(x) + s.v(y) > 255)
            &&& x != 0xF ==> t.v(x) == (s.v(x) + s.v(y)) % 256
            &&& forall|k: usize| k < 16 && k != x && k != 0xF ==> t.v(k) == s.v(k)
            &&& t.pc == wrap16(s.pc + 2)
        }),
{
}

/// `Sub` leaves in `VF` one if `Vx >= Vy` and zero if not, and in `Vx`,
/// unless `Vx` is `VF` itself, the difference `Vx - Vy` modulo 256.
pub proof fn lemma_sub(s: State, x: usize, y: usize, keys: Seq<bool>, random: u8)
    requires
        s.wf(),
        s.fault is None,
        x < 16,
        y < 16,
    ensures
        ({
            let t = s.execute(Instruction::Sub(x, y), keys, random);
            &&& t.fault is None
            &&& t.v(0xF) == flag(s.v(x) >= s.v(y))
            &&& x != 0xF ==> t.v(x) == (s.v(x) - s.v(y)) % 256
            &&& forall|k: usize| k < 16 && k != x && k != 0xF ==> t.v(k) == s.v(k)
            &&& t.pc == wrap16(s.pc + 2)
        }),
{
}

/// `Subn` leaves in `VF` one if `Vy >= Vx` and zero if not, and in `Vx`,
/// unless `Vx` is `VF` itself, the difference `Vy - Vx` modulo 256.
pub proof fn lemma_subn(s: State, x: usize, y: usize, keys: Seq<bool>, random: u8)
    requires
        s.wf(),
        s.fault is None,
        x < 16,
        y < 16,
    ensures
        ({
            let t = s.execute(Instruction::Subn(x, y), keys, random);
            &&& t.fault is None
            &&& t.v(0xF) == flag(s.v(y) >= s.v(x))
            &&& x != 0xF ==> t.v(x) == (s.v(y) - s.v(x)) % 256
            &&& forall|k: usize| k < 16 && k != x && k != 0xF ==> t.v(k) == s.v(k)
            &&& t.pc == wrap16(s.pc + 2)
        }),
{
}

/// `Shr` on a register other than `VF` leaves in `VF` the lowest bit that
/// `Vx` had and in `Vx` the old value shifted one place right. On `VF`
/// itself the flag is written first and then shifted out, which leaves zero.
pub proof fn lemma_shr(s: State, x: usize, keys: Seq<bool>, random: u8)
    requires
        s.wf(),
        s.fault is None,
        x < 16,
    ensures
        ({
            let t = s.execute(Instruction::Shr(x), keys, random);
            &&& t.fault is None
            &&& x != 0xF ==> t.v(0xF) == s.v(x) & 1 && t.v(x) == s.v(x) >> 1
            &&& x == 0xF ==> t.v(0xF) == 0
            &&& forall|k: usize| k < 16 && k != x && k != 0xF ==> t.v(k) == s.v(k)
            &&& t.pc == wrap16(s.pc + 2)
        }),
{
    lemma_shift_forms(s.v(x));
}

/// `Shl` on a register other than `VF` leaves in `VF` the highest bit that
/// `Vx` had and in `Vx` the old value shifted one place left, the bit that
/// leaves the byte being dropped. On `VF` itself the flag is written first
/// and then shifted, which leaves twice the old highest bit.
pub proof fn lemma_shl(s: State, x: usize, keys: Seq<bool>, random: u8)
    requires
        s.wf(),
        s.fault is None,
        x < 16,
    ensures
        ({
            let t = s.execute(Instruction::Shl(x), keys, random);
            &&& t.fault is None
            &&& x != 0xF ==> t.v(0xF) == (s.v(x) & 0x80) >> 7 && t.v(x) == s.v(x) << 1
            &&& x == 0xF ==> t.v(0xF) == 2 * (s.v(x) / 128)
            &&& forall|k: usize| k < 16 && k != x && k != 0xF ==> t.v(k) == s.v(k)
            &&& t.pc == wrap16(s.pc + 2)
        }),
{
    let v = s.v(x);
    let flagged = s.set_v(0xF, v / 128);
    let shifted = flagged.v(x);
    lemma_shift_forms(v);
    assert(shifted == if x == 0xF {
        v / 128
    } else {
        v
    });
    assert((shifted * 2) % 256 == (shifted % 128) * 2);
    assert(s.execute(Instruction::Shl(x), keys, random) == flagged.set_v(
        x,
        ((shifted * 2) % 256) as u8,
    ).next());
}

/// Registers stored with `StoreRegisters(x)` come back with
/// `RestoreRegisters(x)`: whatever happened in between, if memory and the
/// index register are as the store left them, `V0..=Vx` are again what they
/// were at the store.
pub proof fn lemma_store_restore(
    s: State,
    t: State,
    x: usize,
    keys: Seq<bool>,
    random: u8,
    later_keys: Seq<bool>,
    later_random: u8,
)
    requires
        s.wf(),
        s.fault is None,
        x < 16,
        s.index + x < 4096,
        t.wf(),
        t.fault is None,
        t.memory == s.execute(Instruction::StoreRegisters(x), keys, random).memory,
        t.index == s.index,
    ensures
        s.execute(Instruction::StoreRegisters(x), keys, random).fault is None,
        t.execute(Instruction::RestoreRegisters(x), later_keys, later_random).fault is None,
        forall|k: usize|
            k <= x ==> t.execute(Instruction::RestoreRegisters(x), later_keys, later_random).v(k)
                == s.v(k),
{
}

/// `StoreBCD` writes the decimal digits of `Vx`: three bytes, each at most
/// nine, that read as hundreds, tens and ones give `Vx` back. Nothing else in
/// memory changes.
pub proof fn lemma_store_bcd(s: State, x: usize, keys: Seq<bool>, random: u8)
    requires
        s.wf(),
        s.fault is None,
        x < 16,
        s.index + 2 < 4096,
    ensures
        ({
            let t = s.execute(Instruction::StoreBCD(x), keys, random);
            let i = s.index as int;
            &&& t.fault is None
            &&& t.memory[i] <= 9 && t.memory[i + 1] <= 9 && t.memory[i + 2] <= 9
            &&& 100 * t.memory[i] + 10 * t.memory[i + 1] + t.memory[i + 2] == s.v(x)
            &&& forall|a: int| 0 <= a < 4096 && !(i <= a <= i + 2) ==> t.memory[a] == s.memory[a]
            &&& t.registers == s.registers
        }),
{
}

/// A machine that waits for a keystroke touches nothing but the wait and,
/// when the wait ends, the register that receives the key: memory, timers,
/// program counter, stack, index register and display stay as they are, and
/// the machine does not stop.
pub proof fn lemma_wait_is_quiet(s: State, keys: Seq<bool>, random: u8)
    requires
        s.wf(),
        s.fault is None,
        !(s.wait is Idle),
    ensures
        ({
            let t = s.step(keys, random);
            t == State { wait: t.wait, registers: t.registers, ..s }
        }),
{
}

/// One whole keystroke. `LoadPressed(x)` starts the wait and moves the
/// program counter on. A step that finds `key` the lowest key down notes it;
/// steps with `key` still down change nothing; the first step with `key` up
/// puts `key` in `Vx` and ends the wait. From the start of the wait to its
/// end nothing else changes, the program counter included.
pub proof fn lemma_keystroke(
    s: State,
    x: usize,
    key: nat,
    idle_keys: Seq<bool>,
    pressed: Seq<bool>,
    held: Seq<bool>,
    released: Seq<bool>,
    random: u8,
)
    requires
        s.wf(),
        s.fault is None,
        x < 16,
        pressed.len() == 16,
        held.len() == 16,
        released.len() == 16,
        first_pressed(pressed) == Some(key),
        held[key as int],
        !released[key as int],
    ensures
        ({
            let waiting = s.execute(Instruction::LoadPressed(x), idle_keys, random);
            let noted = waiting.step(pressed, random);
            let still = noted.step(held, random);
            let done = still.step(released, random);
            &&& waiting == State { wait: InputWait::AwaitingPress { reg: x }, ..s }.next()
            &&& noted == State {
                wait: InputWait::AwaitingRelease { reg: x, key: key as usize },
                ..waiting
            }
            &&& still == noted
            &&& done == State { wait: InputWait::Idle, ..waiting }.set_v(x, key as u8)
            &&& done.pc == waiting.pc
            &&& done.v(x) == key
        }),
{
    lemma_first_pressed(pressed);
}

/// While no key is down, a machine that waits for a key to go down stays
/// exactly as it is.
pub proof fn lemma_wait_without_key(s: State, reg: usize, keys: Seq<bool>, random: u8)
    requires
        s.fault is None,
        s.wait == (InputWait::AwaitingPress { reg }),
        forall|k: int| 0 <= k < keys.len() ==> !keys[k],
    ensures
        s.step(keys, random) == s,
{
    lemma_first_pressed(keys);
}

/// A call and the return that matches it: `Call(a)` continues at `a`, and a
/// `Return` executed when the call stack is again as the call left it
/// continues two bytes past the call and leaves the stack as it was before
/// the call.
pub proof fn lemma_call_return(
    s: State,
    t: State,
    a: usize,
    keys: Seq<bool>,
    random: u8,
    later_keys: Seq<bool>,
    later_random: u8,
)
    requires
        s.wf(),
        s.fault is None,
        a < 4096,
        s.stack.len() < 16,
        t.fault is None,
        t.stack == s.execute(Instruction::Call(a), keys, random).stack,
    ensures
        ({
            let called = s.execute(Instruction::Call(a), keys, random);
            let returned = t.execute(Instruction::Return, later_keys, later_random);
            &&& called.fault is None
            &&& called.pc == a
            &&& returned.fault is None
            &&& returned.pc == wrap16(s.pc + 2)
            &&& s.pc + 1 < 4096 ==> returned.pc == s.pc + 2
            &&& returned.stack == s.stack
        }),
{
    let called = s.execute(Instruction::Call(a), keys, random);
    assert(called.stack.drop_last() =~= s.stack);
}

/// The call stack holds sixteen return addresses: a call with sixteen calls
/// in progress stops the machine, and so does a return with none.
pub proof fn lemma_stack_limits(s: State, a: usize, keys: Seq<bool>, random: u8)
    requires
        s.fault is None,
    ensures
        s.stack.len() >= 16 ==> s.execute(Instruction::Call(a), keys, random) == s.halt(
            MachineError::StackOverflow,
        ),
        s.stack.len() == 0 ==> s.execute(Instruction::Return, keys, random) == s.halt(
            MachineError::StackUnderflow,
        ),
{
}

/// One byte less, but not below zero: what a tick of the timers makes of a
/// timer.
pub open spec fn decremented(timer: u8) -> u8 {
    if timer == 0 {
        0
    } else {
        (timer - 1) as u8
    }
}

/// Time passing touches nothing but the two timers and the countdown.
pub proof fn lemma_ticks_touch_timers(s: State, n: nat)
    ensures
        s.ticks(n) == (State {
            delay: s.ticks(n).delay,
            sound: s.ticks(n).sound,
            countdown: s.ticks(n).countdown,
            ..s
        }),
    decreases n,
{
    if n > 0 {
        lemma_ticks_touch_timers(s.tick(), (n - 1) as nat);
    }
}

/// Letting `a` steps' worth of time pass and then `b` more is letting
/// `a + b` pass.
pub proof fn lemma_ticks_add(s: State, a: nat, b: nat)
    ensures
        s.ticks(a + b) == s.ticks(a).ticks(b),
    decreases a,
{
    if a > 0 {
        lemma_ticks_add(s.tick(), (a - 1) as nat, b);
    }
}

/// While the countdown has not run out, time only runs it down.
pub proof fn lemma_ticks_count_down(s: State, n: nat)
    requires
        n <= s.countdown,
    ensures
        s.ticks(n) == (State { countdown: (s.countdown - n) as u8, ..s }),
    decreases n,
{
    if n > 0 {
        lemma_ticks_count_down(s.tick(), (n - 1) as nat);
    }
}

/// In as many steps' worth of time as the frequency multiplier says, each
/// timer falls by exactly one, or stays at zero, and the countdown comes
/// back to where it was, whatever point of the cycle it started from.
pub proof fn lemma_ticks_period(s: State)
    requires
        s.wf(),
    ensures
        s.ticks(s.freq_multiplier as nat) == (State {
            delay: decremented(s.delay),
            sound: decremented(s.sound),
            ..s
        }),
{
    let f = s.freq_multiplier as nat;
    let c = s.countdown as nat;
    let at_zero = s.ticks(c);
    lemma_ticks_count_down(s, c);
    let fired = at_zero.tick();
    let rest = (f - 1 - c) as nat;
    lemma_ticks_count_down(fired, rest);
    assert(at_zero.ticks(1) == fired) by {
        assert(at_zero.tick().ticks(0) == at_zero.tick());
    }
    lemma_ticks_add(s, c, 1);
    lemma_ticks_add(s, c + 1, rest);
}

/// A timer never rises and never falls by more than the time that has
/// passed allows: after `n` steps' worth of time it is at most what it was
/// and at least that less the number of ticks, which is at most `n`.
pub proof fn lemma_ticks_bounds(s: State, n: nat)
    ensures
        s.ticks(n).delay <= s.delay,
        s.ticks(n).delay >= s.delay - n,
        s.ticks(n).sound <= s.sound,
        s.ticks(n).sound >= s.sound - n,
    decreases n,
{
    if n > 0 {
        lemma_ticks_bounds(s.tick(), (n - 1) as nat);
    }
}

/// A step that executes an instruction to its end lets one step's worth of
/// time pass for the timers, and after that only `SetDelay` touches the
/// delay timer and only `SetSound` the sound timer.
pub proof fn lemma_step_ticks_once(s: State, keys: Seq<bool>, random: u8)
    requires
        s.completes(keys, random),
    ensures
        s.next_instruction() is Some,
        s.step(keys, random).countdown == s.tick().countdown,
        s.step(keys, random).freq_multiplier == s.freq_multiplier,
        !(s.next_instruction() matches Some(Instruction::SetDelay(_))) ==> s.step(
            keys,
            random,
        ).delay == s.tick().delay,
        !(s.next_instruction() matches Some(Instruction::SetSound(_))) ==> s.step(
            keys,
            random,
        ).sound == s.tick().sound,
{
}

/// Whether every step of a run executes an instruction to its end and none
/// of them is `SetDelay`.
pub open spec fn runs_without_set_delay(s: State, inputs: Seq<(Seq<bool>, u8)>) -> bool {
    forall|i: int|
        0 <= i < inputs.len() ==> {
            let before = #[trigger] s.run(inputs.take(i));
            &&& before.completes(inputs[i].0, inputs[i].1)
            &&& !(before.next_instruction() matches Some(Instruction::SetDelay(_)))
        }
}

/// Over a run of steps that all execute an instruction to its end, none of
/// them `SetDelay`, the delay timer and the countdown are what that many
/// steps' worth of time make of them.
pub proof fn lemma_run_delay(s: State, inputs: Seq<(Seq<bool>, u8)>)
    requires
        runs_without_set_delay(s, inputs),
    ensures
        s.run(inputs).delay == s.ticks(inputs.len()).delay,
        s.run(inputs).countdown == s.ticks(inputs.len()).countdown,
        s.run(inputs).freq_multiplier == s.freq_multiplier,
    decreases inputs.len(),
{
    if inputs.len() > 0 {
        let n = (inputs.len() - 1) as nat;
        let init = inputs.drop_last();
        assert forall|i: int| 0 <= i < init.len() implies {
            let before = #[trigger] s.run(init.take(i));
            &&& before.completes(init[i].0, init[i].1)
            &&& !(before.next_instruction() matches Some(Instruction::SetDelay(_)))
        } by {
            assert(init.take(i) =~= inputs.take(i));
            assert(s.run(inputs.take(i)).completes(inputs[i].0, inputs[i].1));
        }
        lemma_run_delay(s, init);
        let before = s.run(init);
        assert(inputs.take(n as int) =~= init);
        assert(s.run(inputs.take(n as int)).completes(inputs[n as int].0, inputs[n as int].1));
        lemma_step_ticks_once(before, inputs.last().0, inputs.last().1);
        let timed = s.ticks(n);
        lemma_ticks_touch_timers(s, n);
        lemma_ticks_add(s, n, 1);
        assert(timed.ticks(1) == timed.tick()) by {
            assert(timed.tick().ticks(0) == timed.tick());
        }
        assert(before.tick().delay == timed.tick().delay);
        assert(before.tick().countdown == timed.tick().countdown);
    }
}

/// The cadence of the delay timer: over as many steps in a row as the
/// frequency multiplier says, all of which execute an instruction to its
/// end and none of which is `SetDelay`, the delay timer falls by exactly
/// one, or stays at zero.
pub proof fn lemma_delay_cadence(s: State, inputs: Seq<(Seq<bool>, u8)>)
    requires
        s.wf(),
        inputs.len() == s.freq_multiplier,
        runs_without_set_delay(s, inputs),
    ensures
        s.run(inputs).delay == decremented(s.delay),
        s.run(inputs).countdown == s.countdown,
{
    lemma_run_delay(s, inputs);
    lemma_ticks_period(s);
}

} // verus!

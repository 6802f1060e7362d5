//! A CHIP-8 virtual machine: instruction decoder, display and execution
//! engine, with the behaviour of each stated in contracts and proved.
//!
//! - `instruction`: the instruction set and the decoder.
//! - `disassembly`: instructions as text.
//! - `screen`: the display and the drawing of sprites; `screen_proofs`:
//!   theorems about drawing.
//! - `state`: the machine as a mathematical object; `machine`: the engine
//!   that implements it; `machine_proofs`: theorems about the machine.
//! - `keypad`: the keys and the keyboard keys that stand for them.

pub mod disassembly;
pub mod instruction;
pub mod keypad;
pub mod machine;
pub mod machine_proofs;
mod random;
pub mod screen;
pub mod screen_proofs;
pub mod state;

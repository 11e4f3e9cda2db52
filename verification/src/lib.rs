//! A CHIP-8 virtual machine: memory, registers, call stack, display and
//! timers, with the full instruction set, verified against a mathematical
//! model of the machine.
//!
//! The host constructs an [`Emu`], loads a program, and then calls
//! [`Emu::tick`] at the emulation clock rate and [`Emu::tick_timers`] at
//! 60 Hz, forwarding key events with [`Emu::keypress`] and rendering
//! [`Emu::get_display`] in between.

pub mod display;
pub mod emu;
pub mod error;
pub mod instruction;
pub mod laws;
mod random;
pub mod semantics;
pub mod state;

pub use emu::Emu;
pub use error::EmuError;
pub use instruction::{decode, Instruction};
pub use state::{SCREEN_HEIGHT, SCREEN_WIDTH};

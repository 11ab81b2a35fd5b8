//! A CHIP-8 interpreter core whose instruction semantics are stated and proved.
//!
//! `spec` gives the mathematical model of a machine state and of every
//! instruction; `machine` holds the executable interpreter, each of whose
//! operations is proved to follow that model; `instruction_laws` states what
//! each instruction does directly over the state it reads and writes; `laws`
//! states properties that span several instructions; `rng` is the one call
//! into an outside crate.

pub mod spec;
pub mod rng;
pub mod machine;
pub mod laws;
pub mod instruction_laws;
mod lemmas;

pub use machine::emu;

use vstd::prelude::*;

verus! {

/// Width of the display in pixels.
pub const SCREEN_WIDTH: usize = 64;
/// Height of the display in pixels.
pub const SCREEN_HEIGHT: usize = 32;
/// Number of pixels on the display (`SCREEN_WIDTH * SCREEN_HEIGHT`).
pub const SCREEN_SIZE: usize = 2048;
/// Bytes of addressable memory.
pub const RAM_SIZE: usize = 4096;
/// Number of general purpose registers V0..=VF.
pub const REG_AMT: usize = 16;
/// Depth of the call stack.
pub const STACK_SIZE: usize = 16;
/// Number of keys on the hexadecimal keypad.
pub const NUM_OF_KEYS: usize = 16;
/// Address at which programs are loaded and execution starts.
pub const START_ADDRESS: u16 = 0x200;
/// Bytes of built-in font data stored at the start of memory.
pub const FONTSET_SIZE: usize = 80;

} // verus!

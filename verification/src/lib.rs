//! A verified CHIP-8 interpreter core: a fixed-size addressable memory, a
//! sixteen-register file, a bounded call stack, a monochrome display buffer,
//! a sixteen-key keypad and two countdown timers, driven by a
//! fetch-decode-execute cycle over the classic opcode table.
//!
//! The interpreter state and its transitions are modelled by the spec-level
//! [`state::EmuView`] and [`state::spec_tick`]; the executable [`emu::EMU`]
//! is proved to implement them step for step. Host-side adapters (a canvas,
//! a tone generator, a keyboard) drive the core through its public
//! operations and are not part of this crate's logic.

pub mod emu;
pub mod instr;
pub mod laws;
pub mod state;

pub use emu::EMU;
pub use instr::Instr;
pub use state::Chip8Error;

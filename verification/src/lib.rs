//! A CHIP-8 interpreter core, verified with Verus.
//!
//! The machine — 4096 bytes of memory with the hexadecimal font preloaded,
//! sixteen byte registers, a 16-bit index register, a 128-entry call stack,
//! a 64 x 32 monochrome framebuffer and two 60 Hz countdown timers — is
//! modeled in [`semantics`], and every instruction of [`emulator::Emulator`]
//! is proved to take exactly one step of that model. Rendering, input and
//! sound stay behind the [`frontend::Frontend`] capability; pacing and the
//! timer schedule belong to the program around the library.

pub mod config;
pub mod display;
pub mod emulator;
pub mod error;
pub mod frontend;
pub mod noop_frontend;
mod rng;
pub mod semantics;
pub mod timers;

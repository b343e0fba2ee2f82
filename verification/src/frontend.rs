use vstd::prelude::*;

use crate::display::Display;
use crate::error::Chip8Error;

verus! {

/// The frontend capability of the interpreter: a way to draw the display,
/// read keyboard input, start and stop a looping tone, and decide when the
/// run should end. Everything except `should_stop` may be a no-op, so the
/// emulator can run headless.
///
/// Nothing is promised of these operations: implementations live at the edge
/// of the system (a window, a keyboard, an audio device) and the core states
/// what holds of its own state whatever they return.
pub trait Frontend {
    /// Render the current state of the display.
    ///
    /// The whole display is passed; the implementation may redraw it in full,
    /// or use the display's redraw flag to update only what changed.
    fn draw(&mut self, display: &Display) -> Result<(), Chip8Error>;

    /// Whether the given logical key, a value between 0x0 and 0xF, is
    /// currently held. How keys map to actual input is the frontend's choice.
    fn check_key(&mut self, key: u8) -> Result<bool, Chip8Error>;

    /// Start an indefinitely looping tone, until `stop_sound` is called.
    fn play_sound(&mut self) -> Result<(), Chip8Error>;

    /// Stop the tone started by `play_sound`.
    fn stop_sound(&mut self) -> Result<(), Chip8Error>;

    /// Whether the run loop should end; polled once per iteration.
    fn should_stop(&mut self) -> bool;

    /// Called once per run-loop iteration for per-frame bookkeeping
    /// unrelated to emulation (keeping an externally looped tone alive).
    fn step(&mut self) -> Result<(), Chip8Error>;
}

} // verus!

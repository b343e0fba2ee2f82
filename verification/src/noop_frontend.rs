use vstd::prelude::*;

use crate::display::Display;
use crate::error::Chip8Error;
use crate::frontend::Frontend;

verus! {

/// An empty frontend to use when testing the emulator: it draws nowhere,
/// reports every key released, never fails, and asks to stop at once, so a
/// run with it makes no external effect and ends on the first poll.
pub struct NoOpFrontend {}

impl NoOpFrontend {
    pub fn new() -> Self {
        Self {}
    }
}

impl Frontend for NoOpFrontend {
    fn draw(&mut self, _display: &Display) -> (r: Result<(), Chip8Error>)
        ensures
            r == Ok::<(), Chip8Error>(()),
    {
        Ok(())
    }

    fn check_key(&mut self, _key: u8) -> (r: Result<bool, Chip8Error>)
        ensures
            r == Ok::<bool, Chip8Error>(false),
    {
        Ok(false)
    }

    fn play_sound(&mut self) -> (r: Result<(), Chip8Error>)
        ensures
            r == Ok::<(), Chip8Error>(()),
    {
        Ok(())
    }

    fn stop_sound(&mut self) -> (r: Result<(), Chip8Error>)
        ensures
            r == Ok::<(), Chip8Error>(()),
    {
        Ok(())
    }

    fn should_stop(&mut self) -> (r: bool)
        ensures
            r,
    {
        true
    }

    fn step(&mut self) -> (r: Result<(), Chip8Error>)
        ensures
            r == Ok::<(), Chip8Error>(()),
    {
        Ok(())
    }
}

} // verus!

use vstd::prelude::*;

verus! {

/// Errors raised by the interpreter core.
///
/// Bounds violations on memory, registers, the display or the call stack are
/// structural: they indicate a corrupted program or a bug, and callers are
/// expected to stop the run. `ProgramTooLarge` is a load-time error raised
/// before any execution begins. `Frontend` carries a failure reported by the
/// frontend capability (rendering, input or audio).
#[derive(Clone, Copy, Debug, PartialEq, Eq, Structural)]
pub enum Chip8Error {
    DisplayOutOfBounds,
    MemoryOutOfBounds,
    RegisterOutOfBounds,
    StackOverflow,
    StackUnderflow,
    ProgramTooLarge,
    Frontend,
}

} // verus!

use vstd::prelude::*;

use crate::error::Chip8Error;

verus! {

/// Number of pixel rows of the monochrome framebuffer.
pub const DISPLAY_ROWS: usize = 32;
/// Number of pixel columns of the monochrome framebuffer.
pub const DISPLAY_COLS: usize = 64;

/// A boolean matrix representing the state of the display, stored row major.
///
/// Its view is the flat row-major sequence of cells: the cell at `(row, col)`
/// is element `row * 64 + col`.
pub struct Display {
    /// Underlying cells of the display (row-major matrix).
    data: [bool; 2048],
    /// Whether the display changed since the renderer last looked at it.
    /// The core raises it; clearing it is the renderer's own bookkeeping.
    needs_redraw: bool,
}

impl Display {
    /// Whether the display changed since the renderer last looked at it.
    pub closed spec fn spec_redraw(&self) -> bool {
        self.needs_redraw
    }

    /// Whether the display changed since the renderer last looked at it.
    pub fn needs_redraw(&self) -> (r: bool)
        ensures
            r == self.spec_redraw(),
    {
        self.needs_redraw
    }

    /// Record whether the display changed: the core raises the flag after a
    /// change, the renderer lowers it as its own bookkeeping.
    pub fn set_redraw(&mut self, v: bool)
        ensures
            final(self)@ == old(self)@,
            final(self).spec_redraw() == v,
    {
        self.needs_redraw = v;
    }
}

impl View for Display {
    type V = Seq<bool>;

    closed spec fn view(&self) -> Seq<bool> {
        self.data@
    }
}

/// Every display holds exactly 32 x 64 cells.
pub broadcast proof fn lemma_display_len(d: &Display)
    ensures
        (#[trigger] d@).len() == 2048,
{
}

impl Default for Display {
    fn default() -> (r: Self)
        ensures
            r@.len() == 2048,
            forall|i: int| 0 <= i < 2048 ==> !r@[i],
            !r.spec_redraw(),
    {
        Self::new()
    }
}

impl Display {
    /// Create an empty display: every cell off, no redraw pending.
    pub fn new() -> (r: Self)
        ensures
            r@.len() == 2048,
            forall|i: int| 0 <= i < 2048 ==> !r@[i],
            !r.spec_redraw(),
    {
        Display { data: [false; 2048], needs_redraw: false }
    }

    /// Set the cell at the given row and column to `val`.
    ///
    /// Fails, leaving the display unchanged, exactly when the coordinates lie
    /// outside the 32 x 64 grid.
    pub fn set(&mut self, row: usize, col: usize, val: bool) -> (r: Result<(), Chip8Error>)
        ensures
            row < 32 && col < 64 ==> r == Ok::<(), Chip8Error>(())
                && final(self)@ == old(self)@.update(row * 64 + col, val)
                && final(self).spec_redraw() == old(self).spec_redraw(),
            !(row < 32 && col < 64) ==> r == Err::<(), Chip8Error>(Chip8Error::DisplayOutOfBounds)
                && *final(self) == *old(self),
    {
        if row >= DISPLAY_ROWS || col >= DISPLAY_COLS {
            return Err(Chip8Error::DisplayOutOfBounds);
        }
        self.data[row * DISPLAY_COLS + col] = val;
        Ok(())
    }

    /// Read the cell at the given row and column.
    ///
    /// Fails exactly when the coordinates lie outside the 32 x 64 grid.
    pub fn get(&self, row: usize, col: usize) -> (r: Result<bool, Chip8Error>)
        ensures
            row < 32 && col < 64 ==> r == Ok::<bool, Chip8Error>(self@[row * 64 + col]),
            !(row < 32 && col < 64) ==> r == Err::<bool, Chip8Error>(Chip8Error::DisplayOutOfBounds),
    {
        if row >= DISPLAY_ROWS || col >= DISPLAY_COLS {
            return Err(Chip8Error::DisplayOutOfBounds);
        }
        Ok(self.data[row * DISPLAY_COLS + col])
    }

    /// XOR the cell at the given row and column with `val`, returning true
    /// exactly when the cell went from on to off (a sprite collision).
    ///
    /// Fails, leaving the display unchanged, exactly when the coordinates lie
    /// outside the 32 x 64 grid.
    pub fn xor(&mut self, row: usize, col: usize, val: bool) -> (r: Result<bool, Chip8Error>)
        ensures
            row < 32 && col < 64 ==> r == Ok::<bool, Chip8Error>(old(self)@[row * 64 + col] && val)
                && final(self)@ == old(self)@.update(row * 64 + col, old(self)@[row * 64 + col] != val)
                && final(self).spec_redraw() == old(self).spec_redraw(),
            !(row < 32 && col < 64) ==> r == Err::<bool, Chip8Error>(Chip8Error::DisplayOutOfBounds)
                && *final(self) == *old(self),
    {
        if row >= DISPLAY_ROWS || col >= DISPLAY_COLS {
            return Err(Chip8Error::DisplayOutOfBounds);
        }
        let el = self.data[row * DISPLAY_COLS + col];
        self.data[row * DISPLAY_COLS + col] = el != val;
        Ok(el && val)
    }

    /// All cells of the display in row-major order, for rendering.
    pub fn iter_cells(&self) -> (r: &[bool; 2048])
        ensures
            r@ == self@,
    {
        &self.data
    }

    /// Clear the display: set every cell to off. The redraw flag is left to
    /// the caller, as the renderer owns its bookkeeping.
    pub fn clear(&mut self) -> (r: Result<(), Chip8Error>)
        ensures
            r == Ok::<(), Chip8Error>(()),
            final(self)@.len() == 2048,
            forall|i: int| 0 <= i < 2048 ==> !final(self)@[i],
            final(self).spec_redraw() == old(self).spec_redraw(),
    {
        self.data = [false; 2048];
        Ok(())
    }
}

/// Law: XOR is its own inverse on a cell. Writing the same value twice
/// restores the display to its original contents, and the two writes report
/// complementary transitions: the first reports the off-transition exactly
/// when the cell was on and the value set, the second exactly when the first
/// turned the cell on.
pub proof fn lemma_xor_involutive(d: Seq<bool>, i: int, v: bool)
    requires
        0 <= i < d.len(),
    ensures
        ({
            let d1 = d.update(i, d[i] != v);
            &&& d1.update(i, d1[i] != v) == d
            &&& (d1[i] && v) == (v && !d[i])
        }),
{
    let d1 = d.update(i, d[i] != v);
    assert(d1.update(i, d1[i] != v) =~= d);
}

} // verus!

use vstd::prelude::*;

use crate::config::EmulatorConfig;
use crate::display::Display;
use crate::error::Chip8Error;
use crate::frontend::Frontend;
use crate::rng::{fresh_rng, next_random};
use crate::timers::{sound_transition, SoundAction};
use crate::semantics::{initial_model, loaded_mem, font_bytes, EmuModel};
use crate::semantics::{
    draw_outcome, draw_disp, draw_cell_partial, draw_collision_partial, sprite_rows, sprite_bit,
    lemma_collision_empty, lemma_row_advance, lemma_collision_region_eq, lemma_cells_region_eq,
    lemma_col_advance, lemma_shift_step,
};
use crate::semantics::{step_spec, mem_with_regs, regs_from_mem, uses_key_input};

verus! {

broadcast use crate::display::lemma_display_len;

/// The CHIP-8 interpreter core: flat byte memory with the font preloaded,
/// the display, the program counter, the index register, the bounded return
/// stack, the sixteen general registers, the two countdown timers, the
/// frontend capability, and the configuration.
///
/// Its machine state is described by [`EmuModel`] through [`Self::model`],
/// and one instruction step by [`crate::semantics::step_spec`].
pub struct Emulator<F: Frontend> {
    /// Memory, holding the font, the loaded program, and its data.
    memory: [u8; 4096],
    /// Representation of the display (actual rendering is the frontend's).
    display: Display,
    /// Offset into memory of the current instruction.
    program_counter: usize,
    /// Index register (indexes memory).
    index_register: u16,
    /// Stack of return addresses for subroutine calls.
    stack: [u16; 128],
    /// Current top of the stack (indexes the stack; entries below are live).
    stack_top: usize,
    /// General purpose registers V0 through VF.
    registers: [u8; 16],
    /// Timer decremented at 60 Hz until it reaches zero.
    delay_timer: u8,
    /// Timer decremented at 60 Hz until it reaches zero; a tone plays while
    /// it is not zero.
    sound_timer: u8,
    /// The frontend capability: rendering, input, sound, stopping.
    frontend: F,
    /// Configuration, immutable for the lifetime of a run.
    config: EmulatorConfig,
    /// Random number generator for the random-byte instruction.
    rng: rand::rngs::ThreadRng,
}

impl<F: Frontend> Emulator<F> {
    /// The machine state of this interpreter.
    pub closed spec fn model(self) -> EmuModel {
        EmuModel {
            mem: self.memory@,
            disp: self.display@,
            redraw: self.display.spec_redraw(),
            pc: self.program_counter as int,
            index: self.index_register,
            stack: self.stack@,
            sp: self.stack_top as int,
            regs: self.registers@,
            delay: self.delay_timer,
            sound: self.sound_timer,
        }
    }

    /// The configuration the interpreter was built with.
    pub closed spec fn spec_config(self) -> EmulatorConfig {
        self.config
    }

    /// The frontend the interpreter was built with.
    pub closed spec fn spec_frontend(self) -> F {
        self.frontend
    }

    /// The random number generator of the interpreter.
    pub closed spec fn spec_rng(self) -> rand::rngs::ThreadRng {
        self.rng
    }

    /// Whether everything beside the machine state — the frontend, the
    /// configuration and the random number generator — is the same in two
    /// interpreter values.
    pub open spec fn same_env(pre: Self, post: Self) -> bool {
        &&& post.spec_config() == pre.spec_config()
        &&& post.spec_frontend() == pre.spec_frontend()
        &&& post.spec_rng() == pre.spec_rng()
    }

    /// Create a new interpreter with zeroed state, the program counter at
    /// 0x200, and the font loaded at 0x50.
    pub fn new(frontend: F, config: EmulatorConfig) -> (r: Result<Self, Chip8Error>)
        ensures
            r matches Ok(e) && e.model() == initial_model() && e.spec_config() == config
                && e.spec_frontend() == frontend,
    {
        let mut emulator = Self {
            memory: [0u8; 4096],
            display: Display::new(),
            program_counter: 0x200,
            index_register: 0,
            stack: [0u16; 128],
            stack_top: 0,
            registers: [0u8; 16],
            delay_timer: 0,
            sound_timer: 0,
            frontend,
            config,
            rng: fresh_rng(),
        };
        emulator.load_font()?;
        proof {
            assert(emulator.model().mem =~= initial_model().mem);
            assert(emulator.model().disp =~= initial_model().disp);
            assert(emulator.model().stack =~= initial_model().stack);
            assert(emulator.model().regs =~= initial_model().regs);
        }
        Ok(emulator)
    }

    /// Load the font into memory starting at 0x50.
    fn load_font(&mut self) -> (r: Result<(), Chip8Error>)
        ensures
            Self::same_env(*old(self), *final(self)),
            r == Ok::<(), Chip8Error>(()),
            final(self).model() == (EmuModel {
                mem: loaded_mem(old(self).model().mem, font_bytes(), 0x50),
                ..old(self).model()
            }),
    {
        let font: [u8; 80] = [
            0xF0, 0x90, 0x90, 0x90, 0xF0, // 0
            0x20, 0x60, 0x20, 0x20, 0x70, // 1
            0xF0, 0x10, 0xF0, 0x80, 0xF0, // 2
            0xF0, 0x10, 0xF0, 0x10, 0xF0, // 3
            0x90, 0x90, 0xF0, 0x10, 0x10, // 4
            0xF0, 0x80, 0xF0, 0x10, 0xF0, // 5
            0xF0, 0x80, 0xF0, 0x90, 0xF0, // 6
            0xF0, 0x10, 0x20, 0x40, 0x40, // 7
            0xF0, 0x90, 0xF0, 0x90, 0xF0, // 8
            0xF0, 0x90, 0xF0, 0x10, 0xF0, // 9
            0xF0, 0x90, 0xF0, 0x90, 0x90, // A
            0xE0, 0x90, 0xE0, 0x90, 0xE0, // B
            0xF0, 0x80, 0x80, 0x80, 0xF0, // C
            0xE0, 0x90, 0x90, 0x90, 0xE0, // D
            0xF0, 0x80, 0xF0, 0x80, 0xF0, // E
            0xF0, 0x80, 0xF0, 0x80, 0x80, // F
        ];
        proof {
            assert(font@ =~= font_bytes());
        }
        self.load_bytes(font.as_slice(), 0x50)
    }

    /// Load a block of bytes into memory at `start_position`, verbatim.
    ///
    /// Fails, leaving memory untouched, exactly when the block does not fit
    /// between `start_position` and the end of the 4096-byte memory.
    pub fn load_bytes(&mut self, bytes: &[u8], start_position: usize) -> (r: Result<(), Chip8Error>)
        ensures
            Self::same_env(*old(self), *final(self)),
            start_position + bytes@.len() <= 4096 ==> r == Ok::<(), Chip8Error>(())
                && final(self).model() == (EmuModel {
                    mem: loaded_mem(old(self).model().mem, bytes@, start_position as int),
                    ..old(self).model()
                }),
            start_position + bytes@.len() > 4096 ==> r == Err::<(), Chip8Error>(Chip8Error::ProgramTooLarge)
                && final(self).model() == old(self).model(),
    {
        if start_position > 4096 || bytes.len() > 4096 - start_position {
            return Err(Chip8Error::ProgramTooLarge);
        }
        let ghost pre = *self;
        let mut i: usize = 0;
        while i < bytes.len()
            invariant
                start_position + bytes@.len() <= 4096,
                i <= bytes@.len(),
                Self::same_env(pre, *self),
                self.model() == (EmuModel { mem: self.model().mem, ..pre.model() }),
                forall|a: int| start_position <= a < start_position + i
                    ==> self.model().mem[a] == bytes@[a - start_position],
                forall|a: int| 0 <= a < 4096 && !(start_position <= a < start_position + i)
                    ==> self.model().mem[a] == pre.model().mem[a],
            decreases bytes@.len() - i,
        {
            self.memory[start_position + i] = bytes[i];
            i += 1;
        }
        proof {
            assert(self.model().mem =~= loaded_mem(pre.model().mem, bytes@, start_position as int));
        }
        Ok(())
    }

    /// Read the value in register `register`; registers number 0 through 15.
    pub fn get_reg(&self, register: u8) -> (r: Result<u8, Chip8Error>)
        ensures
            register < 16 ==> r == Ok::<u8, Chip8Error>(self.model().regs[register as int]),
            register >= 16 ==> r == Err::<u8, Chip8Error>(Chip8Error::RegisterOutOfBounds),
    {
        if register >= 16 {
            return Err(Chip8Error::RegisterOutOfBounds);
        }
        Ok(self.registers[register as usize])
    }

    /// Set the value in register `register` to `value`.
    pub fn set_reg(&mut self, register: usize, value: u8) -> (r: Result<(), Chip8Error>)
        ensures
            Self::same_env(*old(self), *final(self)),
            register < 16 ==> r == Ok::<(), Chip8Error>(())
                && final(self).model() == (EmuModel {
                    regs: old(self).model().regs.update(register as int, value),
                    ..old(self).model()
                }),
            register >= 16 ==> r == Err::<(), Chip8Error>(Chip8Error::RegisterOutOfBounds)
                && final(self).model() == old(self).model(),
    {
        if register >= 16 {
            return Err(Chip8Error::RegisterOutOfBounds);
        }
        self.registers[register] = value;
        Ok(())
    }

    /// Set the index register.
    pub fn set_index(&mut self, value: u16) -> (r: Result<(), Chip8Error>)
        ensures
            Self::same_env(*old(self), *final(self)),
            r == Ok::<(), Chip8Error>(()),
            final(self).model() == (EmuModel { index: value, ..old(self).model() }),
    {
        self.index_register = value;
        Ok(())
    }

    /// Read the index register.
    pub fn get_index(&self) -> (r: Result<u16, Chip8Error>)
        ensures
            r == Ok::<u16, Chip8Error>(self.model().index),
    {
        Ok(self.index_register)
    }

    /// Jump: set the program counter to `dest`.
    fn jump(&mut self, dest: usize) -> (r: Result<(), Chip8Error>)
        ensures
            Self::same_env(*old(self), *final(self)),
            r == Ok::<(), Chip8Error>(()),
            final(self).model() == (EmuModel { pc: dest as int, ..old(self).model() }),
    {
        self.program_counter = dest;
        Ok(())
    }

    /// Push a return address onto the stack.
    ///
    /// Fails, leaving the stack untouched, exactly when the stack already
    /// holds its 128-entry capacity.
    pub fn stack_push(&mut self, value: u16) -> (r: Result<(), Chip8Error>)
        ensures
            Self::same_env(*old(self), *final(self)),
            old(self).model().sp < 128 ==> r == Ok::<(), Chip8Error>(())
                && final(self).model() == (EmuModel {
                    stack: old(self).model().stack.update(old(self).model().sp, value),
                    sp: old(self).model().sp + 1,
                    ..old(self).model()
                }),
            old(self).model().sp >= 128 ==> r == Err::<(), Chip8Error>(Chip8Error::StackOverflow)
                && final(self).model() == old(self).model(),
    {
        if self.stack_top >= 128 {
            return Err(Chip8Error::StackOverflow);
        }
        self.stack[self.stack_top] = value;
        self.stack_top = self.stack_top + 1;
        Ok(())
    }

    /// Pop the value off the top of the stack.
    ///
    /// Fails exactly when the stack is empty. The stack-top index is in
    /// [0, 128] in every reachable state; the bound is assumed here.
    pub fn stack_pop(&mut self) -> (r: Result<u16, Chip8Error>)
        requires
            old(self).model().sp <= 128,
        ensures
            Self::same_env(*old(self), *final(self)),
            old(self).model().sp == 0 ==> r == Err::<u16, Chip8Error>(Chip8Error::StackUnderflow)
                && final(self).model() == old(self).model(),
            old(self).model().sp > 0 ==> r == Ok::<u16, Chip8Error>(
                    old(self).model().stack[old(self).model().sp - 1],
                )
                && final(self).model() == (EmuModel {
                    sp: old(self).model().sp - 1,
                    ..old(self).model()
                }),
    {
        if self.stack_top == 0 {
            return Err(Chip8Error::StackUnderflow);
        }
        self.stack_top = self.stack_top - 1;
        Ok(self.stack[self.stack_top])
    }

    /// Read a stack entry; entries below the stack top are live.
    pub fn stack_at(&self, i: usize) -> (r: Option<u16>)
        ensures
            i < 128 ==> r == Some(self.model().stack[i as int]),
            i >= 128 ==> r is None,
    {
        if i >= 128 {
            return None;
        }
        Some(self.stack[i])
    }

    /// The current program counter.
    pub fn program_counter(&self) -> (r: usize)
        ensures
            r == self.model().pc,
    {
        self.program_counter
    }

    /// The current top-of-stack index.
    pub fn stack_top(&self) -> (r: usize)
        ensures
            r == self.model().sp,
    {
        self.stack_top
    }

    /// The display, for rendering.
    pub fn display(&self) -> (r: &Display)
        ensures
            r@ == self.model().disp,
            r.spec_redraw() == self.model().redraw,
    {
        &self.display
    }

    /// The display, writable, for a renderer's bookkeeping of the redraw
    /// flag and for tests.
    pub fn display_mut(&mut self) -> (r: &mut Display)
        ensures
            r@ == old(self).model().disp,
            r.spec_redraw() == old(self).model().redraw,
            Self::same_env(*old(self), *final(self)),
            final(self).model() == (EmuModel {
                disp: final(r)@,
                redraw: final(r).spec_redraw(),
                ..old(self).model()
            }),
    {
        &mut self.display
    }

    /// The frontend, for the run loop around the interpreter.
    pub fn frontend_mut(&mut self) -> (r: &mut F)
        ensures
            *r == old(self).spec_frontend(),
            final(self).model() == old(self).model(),
            final(self).spec_config() == old(self).spec_config(),
            final(self).spec_rng() == old(self).spec_rng(),
            final(self).spec_frontend() == *final(r),
    {
        &mut self.frontend
    }

    /// The delay timer's current value.
    pub fn delay_timer(&self) -> (r: u8)
        ensures
            r == self.model().delay,
    {
        self.delay_timer
    }

    /// The sound timer's current value.
    pub fn sound_timer(&self) -> (r: u8)
        ensures
            r == self.model().sound,
    {
        self.sound_timer
    }

    /// Overwrite the delay timer.
    pub fn set_delay_timer(&mut self, value: u8)
        ensures
            Self::same_env(*old(self), *final(self)),
            final(self).model() == (EmuModel { delay: value, ..old(self).model() }),
    {
        self.delay_timer = value;
    }

    /// Overwrite the sound timer.
    pub fn set_sound_timer(&mut self, value: u8)
        ensures
            Self::same_env(*old(self), *final(self)),
            final(self).model() == (EmuModel { sound: value, ..old(self).model() }),
    {
        self.sound_timer = value;
    }

    /// Draw a sprite to the screen: `sprite_length` rows of eight pixels
    /// read from memory at `sprite_index`, XOR-blitted starting at column
    /// `x_pos mod 64` and row `y_pos mod 32` (wraparound at draw start only),
    /// stopping at the display edges; VF records whether any cell turned
    /// from on to off, judged across the whole sprite, and the redraw flag
    /// is raised for the renderer.
    ///
    /// Fails, changing nothing, exactly when some row to be drawn would read
    /// a sprite byte past the end of memory.
    fn draw_sprite(&mut self, sprite_index: usize, sprite_length: usize, x_pos: usize, y_pos: usize) -> (r: Result<(), Chip8Error>)
        requires
            sprite_index < 65536,
            sprite_length < 16,
            x_pos < 256,
            y_pos < 256,
        ensures
            Self::same_env(*old(self), *final(self)),
            (final(self).model(), r) == draw_outcome(
                old(self).model(),
                sprite_index as int,
                sprite_length as int,
                x_pos as int,
                y_pos as int,
            ),
    {
        let x0 = x_pos % 64;
        let y0 = y_pos % 32;
        let rows = if sprite_length <= 32 - y0 {
            sprite_length
        } else {
            32 - y0
        };
        if rows > 0 && sprite_index + rows > 4096 {
            return Err(Chip8Error::MemoryOutOfBounds);
        }
        let ghost pre = *self;
        let ghost m0 = self.model();
        let ghost xi = x0 as int;
        let ghost yi = y0 as int;
        let ghost ii = sprite_index as int;
        proof {
            lemma_collision_empty(m0.disp, m0.mem, ii, xi, yi);
        }
        let mut turned_off = false;
        let mut row: usize = 0;
        while row < rows
            invariant
                xi == x0 as int,
                yi == y0 as int,
                ii == sprite_index as int,
                x0 < 64,
                y0 < 32,
                rows == sprite_rows(sprite_length as int, yi),
                y0 + rows <= 32,
                rows > 0 ==> sprite_index + rows <= 4096,
                row <= rows,
                m0 == pre.model(),
                Self::same_env(pre, *self),
                self.model() == (EmuModel { disp: self.model().disp, ..m0 }),
                forall|p: int| 0 <= p < 2048 ==> self.model().disp[p]
                    == draw_cell_partial(m0.disp, m0.mem, ii, xi, yi, row as int, 0, p),
                turned_off == draw_collision_partial(m0.disp, m0.mem, ii, xi, yi, row as int, 0),
            decreases rows - row,
        {
            let mut sprite_byte = self.memory[sprite_index + row];
            let ghost byte0 = sprite_byte;
            proof {
                assert(byte0 << 0u8 == byte0) by (bit_vector);
            }
            let mut col: usize = 0;
            while col < 8 && x0 + col < 64
                invariant
                    xi == x0 as int,
                    yi == y0 as int,
                    ii == sprite_index as int,
                    x0 < 64,
                    y0 < 32,
                    rows == sprite_rows(sprite_length as int, yi),
                    y0 + rows <= 32,
                    rows > 0 ==> sprite_index + rows <= 4096,
                    row < rows,
                    col <= 8,
                    m0 == pre.model(),
                    Self::same_env(pre, *self),
                    self.model() == (EmuModel { disp: self.model().disp, ..m0 }),
                    byte0 == m0.mem[ii + row as int],
                    sprite_byte == byte0 << (col as u8),
                    forall|p: int| 0 <= p < 2048 ==> self.model().disp[p]
                        == draw_cell_partial(m0.disp, m0.mem, ii, xi, yi, row as int, col as int, p),
                    turned_off == draw_collision_partial(
                        m0.disp,
                        m0.mem,
                        ii,
                        xi,
                        yi,
                        row as int,
                        col as int,
                    ),
                decreases 8 - col,
            {
                let bit = (sprite_byte & 0x80) == 0x80;
                let ghost p0 = (yi + row) * 64 + (xi + col);
                proof {
                    lemma_col_advance(m0.disp, m0.mem, ii, xi, yi, row as int, col as int);
                    assert(bit == sprite_bit(m0.mem[ii + row as int], col as u8));
                    assert(self.model().disp[p0] == m0.disp[p0]);
                }
                let flip = self.display.xor(y0 + row, x0 + col, bit)?;
                if flip {
                    turned_off = true;
                }
                proof {
                    assert(flip == (m0.disp[p0] && bit));
                    assert(turned_off == draw_collision_partial(
                        m0.disp,
                        m0.mem,
                        ii,
                        xi,
                        yi,
                        row as int,
                        col as int + 1,
                    ));
                    assert forall|p: int| 0 <= p < 2048 implies self.model().disp[p]
                        == draw_cell_partial(
                        m0.disp,
                        m0.mem,
                        ii,
                        xi,
                        yi,
                        row as int,
                        col as int + 1,
                        p,
                    ) by {
                        if p != p0 {
                            assert(draw_cell_partial(
                                m0.disp,
                                m0.mem,
                                ii,
                                xi,
                                yi,
                                row as int,
                                col as int + 1,
                                p,
                            ) == draw_cell_partial(
                                m0.disp,
                                m0.mem,
                                ii,
                                xi,
                                yi,
                                row as int,
                                col as int,
                                p,
                            ));
                        }
                    }
                    lemma_shift_step(byte0, col as u8);
                }
                sprite_byte = sprite_byte << 1;
                col = col + 1;
            }
            proof {
                lemma_row_advance(xi, yi, row as int, col as int);
                lemma_collision_region_eq(
                    m0.disp,
                    m0.mem,
                    ii,
                    xi,
                    yi,
                    row as int,
                    col as int,
                    row as int + 1,
                    0,
                );
                lemma_cells_region_eq(
                    m0.disp,
                    m0.mem,
                    ii,
                    xi,
                    yi,
                    row as int,
                    col as int,
                    row as int + 1,
                    0,
                );
            }
            row = row + 1;
        }
        let vf: u8 = if turned_off {
            1
        } else {
            0
        };
        self.registers[15] = vf;
        self.display.set_redraw(true);
        proof {
            assert(self.model().disp =~= draw_disp(
                m0.disp,
                m0.mem,
                ii,
                sprite_length as int,
                xi,
                yi,
            ));
        }
        Ok(())
    }

    /// Fetch the current instruction's two bytes, advancing the program
    /// counter past it.
    ///
    /// Fails, leaving the state untouched, exactly when the fetch would read
    /// past the end of memory.
    fn fetch(&mut self) -> (r: Result<(u8, u8), Chip8Error>)
        ensures
            Self::same_env(*old(self), *final(self)),
            old(self).model().pc + 1 >= 4096 ==> r == Err::<(u8, u8), Chip8Error>(
                    Chip8Error::MemoryOutOfBounds,
                ) && final(self).model() == old(self).model(),
            old(self).model().pc + 1 < 4096 ==> r == Ok::<(u8, u8), Chip8Error>(
                    (
                        old(self).model().mem[old(self).model().pc],
                        old(self).model().mem[old(self).model().pc + 1],
                    ),
                ) && final(self).model() == (EmuModel {
                    pc: old(self).model().pc + 2,
                    ..old(self).model()
                }),
    {
        if self.program_counter >= 4095 {
            return Err(Chip8Error::MemoryOutOfBounds);
        }
        let b1 = self.memory[self.program_counter];
        let b2 = self.memory[self.program_counter + 1];
        self.program_counter = self.program_counter + 2;
        Ok((b1, b2))
    }

    /// Execute one instruction deterministically, the three inputs the step
    /// may consume from outside the core being passed in: the random byte
    /// for the random instruction, whether the selected key is held for the
    /// skip-if-key instructions, and the lowest held key, if any, for the
    /// key-wait instruction. Fetches two bytes at the program counter,
    /// advances it past them, decodes the four nibbles and dispatches.
    ///
    /// The new state and the outcome are exactly one step of the machine
    /// model, [`step_spec`]. The stack-top index is in [0, 128] in every
    /// reachable state; the bound is assumed here.
    #[verifier::rlimit(60)]
    pub fn step_with(&mut self, rand: u8, key_down: bool, first_key: Option<u8>) -> (r: Result<(), Chip8Error>)
        requires
            old(self).model().sp <= 128,
        ensures
            Self::same_env(*old(self), *final(self)),
            final(self).model().sp <= 128,
            (final(self).model(), r) == step_spec(
                old(self).model(),
                old(self).spec_config(),
                rand,
                key_down,
                first_key,
            ),
    {
        let ghost pre = *self;
        let (b1, b2) = match self.fetch() {
            Ok(bytes) => bytes,
            Err(e) => {
                return Err(e);
            },
        };
        let c = b1 >> 4;
        let xr = b1 & 0x0F;
        let yr = b2 >> 4;
        let n = b2 & 0x0F;
        proof {
            assert(b1 & 0x0F < 16 && b2 >> 4 < 16 && b2 & 0x0F < 16) by (bit_vector);
        }
        let x = xr as usize;
        let y = yr as usize;
        let vx = self.registers[x];
        let vy = self.registers[y];
        let nnn: u16 = ((xr as u16) << 8) | ((yr as u16) << 4) | (n as u16);
        if b1 == 0x00 && b2 == 0xE0 {
            // Clear the display.
            self.display.clear()?;
            self.display.set_redraw(true);
            proof {
                assert(self.model().disp =~= Seq::new(2048, |i: int| false));
            }
            Ok(())
        } else if b1 == 0x00 && b2 == 0xEE {
            // Return from subroutine: pop the stack into the program counter.
            let dest = self.stack_pop()?;
            self.jump(dest as usize)?;
            Ok(())
        } else if c == 0x1 {
            // Jump.
            self.jump(nnn as usize)?;
            Ok(())
        } else if c == 0x2 {
            // Call: push the post-fetch program counter for the return, then
            // jump to the subroutine.
            self.stack_push(self.program_counter as u16)?;
            self.jump(nnn as usize)?;
            Ok(())
        } else if c == 0x3 {
            // Skip the next instruction if VX == NN.
            if vx == b2 {
                self.program_counter = self.program_counter + 2;
            }
            Ok(())
        } else if c == 0x4 {
            // Skip the next instruction if VX != NN.
            if vx != b2 {
                self.program_counter = self.program_counter + 2;
            }
            Ok(())
        } else if c == 0x5 && n == 0x0 {
            // Skip the next instruction if VX == VY.
            if vx == vy {
                self.program_counter = self.program_counter + 2;
            }
            Ok(())
        } else if c == 0x9 && n == 0x0 {
            // Skip the next instruction if VX != VY.
            if vx != vy {
                self.program_counter = self.program_counter + 2;
            }
            Ok(())
        } else if c == 0x6 {
            // VX := NN.
            self.registers[x] = b2;
            Ok(())
        } else if c == 0x7 {
            // VX := VX + NN, wrapping, no flag.
            let sum: u16 = vx as u16 + b2 as u16;
            self.registers[x] = if sum > 255 {
                (sum - 256) as u8
            } else {
                sum as u8
            };
            Ok(())
        } else if c == 0x8 && n == 0x0 {
            // VX := VY.
            self.registers[x] = vy;
            Ok(())
        } else if c == 0x8 && n == 0x1 {
            // VX := VX | VY.
            self.registers[x] = vx | vy;
            Ok(())
        } else if c == 0x8 && n == 0x2 {
            // VX := VX & VY.
            self.registers[x] = vx & vy;
            Ok(())
        } else if c == 0x8 && n == 0x3 {
            // VX := VX ^ VY.
            self.registers[x] = vx ^ vy;
            Ok(())
        } else if c == 0x8 && n == 0x4 {
            // VX := VX + VY; then VF := 1 on carry else 0.
            let sum: u16 = vx as u16 + vy as u16;
            self.registers[x] = if sum > 255 {
                (sum - 256) as u8
            } else {
                sum as u8
            };
            self.registers[15] = if sum > 255 {
                1
            } else {
                0
            };
            Ok(())
        } else if c == 0x8 && n == 0x5 {
            // VX := VX - VY; then VF := 1 if no borrow else 0.
            self.registers[x] = if vx >= vy {
                vx - vy
            } else {
                ((vx as u16 + 256) - vy as u16) as u8
            };
            self.registers[15] = if vx >= vy {
                1
            } else {
                0
            };
            Ok(())
        } else if c == 0x8 && n == 0x7 {
            // VX := VY - VX; then VF := 1 if no borrow else 0.
            self.registers[x] = if vy >= vx {
                vy - vx
            } else {
                ((vy as u16 + 256) - vx as u16) as u8
            };
            self.registers[15] = if vy >= vx {
                1
            } else {
                0
            };
            Ok(())
        } else if c == 0x8 && n == 0x6 {
            // Shift right by one the configured source register; VX := the
            // result; then VF := the bit shifted out.
            let src = if self.config.shift_use_vy {
                vy
            } else {
                vx
            };
            self.registers[x] = src >> 1;
            self.registers[15] = src & 0x01;
            Ok(())
        } else if c == 0x8 && n == 0xE {
            // Shift left by one the configured source register; VX := the
            // result; then VF := 1 if the bit shifted out was set, else 0.
            let src = if self.config.shift_use_vy {
                vy
            } else {
                vx
            };
            self.registers[x] = src << 1;
            self.registers[15] = if src & 0x80 == 0x80 {
                1
            } else {
                0
            };
            Ok(())
        } else if c == 0xA {
            // Index register := NNN.
            self.index_register = nnn;
            Ok(())
        } else if c == 0xB {
            // Jump with offset from V0 or VX, per configuration.
            let off = if self.config.jump_offset_use_v0 {
                self.registers[0]
            } else {
                vx
            };
            proof {
                assert((((b1 & 0x0F) as u16) << 8) | (((b2 >> 4) as u16) << 4) | (((b2 & 0x0F)) as u16)
                    <= 0x0FFF) by (bit_vector);
            }
            let dest: u16 = nnn + off as u16;
            self.program_counter = dest as usize;
            Ok(())
        } else if c == 0xC {
            // VX := random byte AND NN.
            self.registers[x] = rand & b2;
            Ok(())
        } else if c == 0xD {
            // Draw an N-byte sprite from memory at the index register.
            self.draw_sprite(self.index_register as usize, n as usize, vx as usize, vy as usize)
        } else if c == 0xE && b2 == 0x9E {
            // Skip the next instruction if key VX is held.
            if key_down {
                self.program_counter = self.program_counter + 2;
            }
            Ok(())
        } else if c == 0xE && b2 == 0xA1 {
            // Skip the next instruction if key VX is not held.
            if !key_down {
                self.program_counter = self.program_counter + 2;
            }
            Ok(())
        } else if c == 0xF && b2 == 0x07 {
            // VX := delay timer.
            self.registers[x] = self.delay_timer;
            Ok(())
        } else if c == 0xF && b2 == 0x15 {
            // Delay timer := VX.
            self.delay_timer = vx;
            Ok(())
        } else if c == 0xF && b2 == 0x18 {
            // Sound timer := VX.
            self.sound_timer = vx;
            Ok(())
        } else if c == 0xF && b2 == 0x1E {
            // Index += VX; VF := 1 if the sum left the 12-bit range or
            // overflowed the register.
            let sum: u32 = self.index_register as u32 + vx as u32;
            let res: u16 = if sum > 65535 {
                (sum - 65536) as u16
            } else {
                sum as u16
            };
            self.index_register = res;
            self.registers[15] = if sum > 65535 || res > 0x0FFF {
                1
            } else {
                0
            };
            Ok(())
        } else if c == 0xF && b2 == 0x0A {
            // Blocking key wait: store the held key, or rewind the program
            // counter so this instruction re-executes next step.
            match first_key {
                Some(k) => {
                    self.registers[x] = k;
                },
                None => {
                    self.program_counter = self.program_counter - 2;
                },
            }
            Ok(())
        } else if c == 0xF && b2 == 0x29 {
            // Index := address of the font glyph for digit VX.
            self.index_register = 0x50 + 5 * (vx as u16);
            Ok(())
        } else if c == 0xF && b2 == 0x33 {
            // Store the decimal digits of VX at the index register:
            // hundreds, tens, ones.
            let i = self.index_register as usize;
            if i + 2 >= 4096 {
                return Err(Chip8Error::MemoryOutOfBounds);
            }
            self.memory[i] = vx / 100;
            self.memory[i + 1] = (vx / 10) % 10;
            self.memory[i + 2] = vx % 10;
            Ok(())
        } else if c == 0xF && b2 == 0x55 {
            // Store V0..VX inclusive at the index register onward.
            let i = self.index_register as usize;
            if i + x >= 4096 {
                return Err(Chip8Error::MemoryOutOfBounds);
            }
            let ghost fm = self.model();
            let mut reg: usize = 0;
            while reg <= x
                invariant
                    x < 16,
                    i + x < 4096,
                    reg <= x + 1,
                    Self::same_env(pre, *self),
                    self.model() == (EmuModel { mem: self.model().mem, ..fm }),
                    forall|a: int| i <= a < i + reg ==> self.model().mem[a] == fm.regs[a - i],
                    forall|a: int| 0 <= a < 4096 && !(i <= a < i + reg)
                        ==> self.model().mem[a] == fm.mem[a],
                decreases x + 1 - reg,
            {
                self.memory[i + reg] = self.registers[reg];
                reg = reg + 1;
            }
            proof {
                assert(self.model().mem =~= mem_with_regs(fm.mem, fm.regs, i as int, x as int));
            }
            if self.config.store_memory_update_index {
                self.index_register = (i + x + 1) as u16;
            }
            Ok(())
        } else if c == 0xF && b2 == 0x65 {
            // Load V0..VX inclusive from the index register onward.
            let i = self.index_register as usize;
            if i + x >= 4096 {
                return Err(Chip8Error::MemoryOutOfBounds);
            }
            let ghost fm = self.model();
            let mut reg: usize = 0;
            while reg <= x
                invariant
                    x < 16,
                    i + x < 4096,
                    reg <= x + 1,
                    Self::same_env(pre, *self),
                    self.model() == (EmuModel { regs: self.model().regs, ..fm }),
                    forall|t: int| 0 <= t < reg ==> self.model().regs[t] == fm.mem[i + t],
                    forall|t: int| reg <= t < 16 ==> self.model().regs[t] == fm.regs[t],
                decreases x + 1 - reg,
            {
                self.registers[reg] = self.memory[i + reg];
                reg = reg + 1;
            }
            proof {
                assert(self.model().regs =~= regs_from_mem(fm.regs, fm.mem, i as int, x as int));
            }
            if self.config.store_memory_update_index {
                self.index_register = (i + x + 1) as u16;
            }
            Ok(())
        } else {
            // Not implemented: execution continues at the next
            // instruction with no side effects.
            Ok(())
        }
    }

    /// Execute a single instruction: gather what the instruction needs from
    /// outside the core — a random byte for the random instruction, the
    /// keyboard state for the key instructions — then step the machine.
    ///
    /// For some random byte, key state and held key, the new state and the
    /// outcome are exactly one step of the machine model, [`step_spec`]; the
    /// inputs are pinned down no further, as randomness and input are the
    /// environment's. The one other possibility is a keyboard failure
    /// reported by the frontend, propagated with the machine unchanged; only
    /// an instruction that consults the keyboard can report one. The
    /// stack-top index is in [0, 128] in every reachable state; the bound is
    /// assumed here.
    pub fn execute(&mut self) -> (r: Result<(), Chip8Error>)
        requires
            old(self).model().sp <= 128,
        ensures
            final(self).spec_config() == old(self).spec_config(),
            final(self).model().sp <= 128,
            ({
                let m0 = old(self).model();
                let cfg = old(self).spec_config();
                ||| exists|rnd: u8, kd: bool, fk: Option<u8>| #![auto] (final(self).model(), r)
                    == step_spec(m0, cfg, rnd, kd, fk)
                ||| (uses_key_input(m0) && r is Err && final(self).model() == m0)
            }),
    {
        let ghost m0 = self.model();
        let ghost cfg = self.spec_config();
        let mut rnd: u8 = 0;
        let mut kd: bool = false;
        let mut fk: Option<u8> = None;
        let pc = self.program_counter;
        if pc < 4095 {
            let b1 = self.memory[pc];
            let b2 = self.memory[pc + 1];
            let c = b1 >> 4;
            if c == 0xC {
                // The random instruction draws its byte from the generator,
                // as the high bits of one 32-bit draw.
                let raw = next_random(&mut self.rng);
                proof {
                    assert(raw >> 24 <= 0xFF) by (bit_vector);
                }
                rnd = (raw >> 24) as u8;
            } else if c == 0xE && (b2 == 0x9E || b2 == 0xA1) {
                // The skip-if-key instructions ask the frontend for key VX.
                proof {
                    assert(b1 & 0x0F < 16) by (bit_vector);
                }
                let vx = self.registers[(b1 & 0x0F) as usize];
                kd = match self.frontend.check_key(vx) {
                    Ok(held) => held,
                    Err(e) => {
                        return Err(e);
                    },
                };
            } else if c == 0xF && b2 == 0x0A {
                // The key wait scans for the lowest held key.
                let mut key: u8 = 0;
                while key < 16 && fk.is_none()
                    invariant
                        key <= 16,
                        self.model() == old(self).model(),
                        self.model().sp <= 128,
                        self.spec_config() == old(self).spec_config(),
                        uses_key_input(old(self).model()),
                    decreases 16 - key,
                {
                    match self.frontend.check_key(key) {
                        Ok(true) => {
                            fk = Some(key);
                        },
                        Ok(false) => {},
                        Err(e) => {
                            return Err(e);
                        },
                    }
                    key = key + 1;
                }
            }
        }
        let res = self.step_with(rnd, kd, fk);
        proof {
            assert((self.model(), res) == step_spec(m0, cfg, rnd, kd, fk));
            assert(exists|a: u8, b: bool, k: Option<u8>| #![auto] (self.model(), res)
                == step_spec(m0, cfg, a, b, k));
        }
        res
    }

    /// One iteration of the run loop, all but the pacing sleep: ask the
    /// frontend whether the run should stop; if not, let it render the
    /// display, execute one instruction, apply the edge-triggered sound
    /// decision — the tone is toggled exactly once per transition of the
    /// sound timer between zero and nonzero — and let the frontend do its
    /// per-frame bookkeeping. Returns whether the run should stop, and
    /// whether the tone plays afterwards.
    ///
    /// A frontend failure or a fatal instruction error is propagated; the
    /// caller treats it as fatal to the run. Even then the machine is never
    /// corrupted: it is either untouched, or exactly one step of the model —
    /// a failed step when the instruction itself faulted, a successful one
    /// when a later frontend call failed. The stack-top index is in
    /// [0, 128] in every reachable state; the bound is assumed here.
    pub fn run_cycle(&mut self, playing_sound: bool) -> (r: Result<(bool, bool), Chip8Error>)
        requires
            old(self).model().sp <= 128,
        ensures
            final(self).model().sp <= 128,
            final(self).spec_config() == old(self).spec_config(),
            r matches Err(e) ==> ({
                let m0 = old(self).model();
                let cfg = old(self).spec_config();
                ||| final(self).model() == m0
                ||| (exists|rnd: u8, kd: bool, fk: Option<u8>| #![auto] (final(self).model(), Err::<
                    (),
                    Chip8Error,
                >(e)) == step_spec(m0, cfg, rnd, kd, fk))
                ||| (exists|rnd: u8, kd: bool, fk: Option<u8>| #![auto] (final(self).model(), Ok::<
                    (),
                    Chip8Error,
                >(())) == step_spec(m0, cfg, rnd, kd, fk))
            }),
            r matches Ok((stop, playing)) ==> (stop ==> final(self).model() == old(self).model()
                && playing == playing_sound) && (!stop ==> (exists|rnd: u8, kd: bool, fk: Option<
                u8,
            >|
                #![auto]
                (final(self).model(), Ok::<(), Chip8Error>(())) == step_spec(
                    old(self).model(),
                    old(self).spec_config(),
                    rnd,
                    kd,
                    fk,
                )) && playing == (if final(self).model().sound > 0 && !playing_sound {
                true
            } else if final(self).model().sound == 0 && playing_sound {
                false
            } else {
                playing_sound
            })),
    {
        let ghost m0 = self.model();
        let ghost cfg = self.spec_config();
        if self.frontend.should_stop() {
            return Ok((true, playing_sound));
        }
        self.frontend.draw(&self.display)?;
        self.execute()?;
        let ghost m1 = self.model();
        proof {
            assert(exists|rnd: u8, kd: bool, fk: Option<u8>| #![auto] (m1, Ok::<(), Chip8Error>(
                (),
            )) == step_spec(m0, cfg, rnd, kd, fk));
        }
        let playing = match sound_transition(playing_sound, self.sound_timer) {
            SoundAction::Start => {
                self.frontend.play_sound()?;
                true
            },
            SoundAction::Stop => {
                self.frontend.stop_sound()?;
                false
            },
            SoundAction::Keep => playing_sound,
        };
        self.frontend.step()?;
        proof {
            assert(self.model() == m1);
            assert(exists|rnd: u8, kd: bool, fk: Option<u8>| #![auto] (self.model(), Ok::<
                (),
                Chip8Error,
            >(())) == step_spec(m0, cfg, rnd, kd, fk));
        }
        Ok((false, playing))
    }
}

} // verus!

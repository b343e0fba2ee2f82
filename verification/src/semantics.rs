use vstd::prelude::*;

use crate::config::EmulatorConfig;
use crate::error::Chip8Error;

verus! {

/// Mathematical model of the interpreter state: flat byte memory, the flat
/// row-major display, the redraw flag, the program counter, the index
/// register, the bounded return stack with its top index, the sixteen
/// general registers, and the two countdown timers.
pub ghost struct EmuModel {
    pub mem: Seq<u8>,
    pub disp: Seq<bool>,
    pub redraw: bool,
    pub pc: int,
    pub index: u16,
    pub stack: Seq<u16>,
    pub sp: int,
    pub regs: Seq<u8>,
    pub delay: u8,
    pub sound: u8,
}

impl EmuModel {
    /// Shape of every reachable machine state: 4096 bytes of memory, a
    /// 32 x 64 display, a 128-entry stack with its top in range, and sixteen
    /// registers.
    pub open spec fn wf(self) -> bool {
        &&& self.mem.len() == 4096
        &&& self.disp.len() == 2048
        &&& self.stack.len() == 128
        &&& self.regs.len() == 16
        &&& 0 <= self.sp <= 128
        &&& 0 <= self.pc
    }
}

/// Instruction class: the high nibble of the first instruction byte.
pub open spec fn op_class(b1: u8) -> u8 {
    b1 >> 4
}

/// The X register selector: the low nibble of the first instruction byte.
pub open spec fn op_x(b1: u8) -> u8 {
    b1 & 0x0F
}

/// The Y register selector: the high nibble of the second instruction byte.
pub open spec fn op_y(b2: u8) -> u8 {
    b2 >> 4
}

/// The immediate nibble: the low nibble of the second instruction byte.
pub open spec fn op_n(b2: u8) -> u8 {
    b2 & 0x0F
}

/// The 12-bit immediate address assembled from the three low nibbles.
pub open spec fn op_nnn(b1: u8, b2: u8) -> u16 {
    ((op_x(b1) as u16) << 8) | ((op_y(b2) as u16) << 4) | (op_n(b2) as u16)
}

/// Byte addition wrapping modulo 256.
pub open spec fn wrap_add8(a: u8, b: u8) -> u8 {
    if a + b > 255 {
        (a + b - 256) as u8
    } else {
        (a + b) as u8
    }
}

/// Byte subtraction wrapping modulo 256.
pub open spec fn wrap_sub8(a: u8, b: u8) -> u8 {
    if a >= b {
        (a - b) as u8
    } else {
        (a - b + 256) as u8
    }
}

/// The hexadecimal glyph font: 16 characters of 5 bytes each, written to
/// memory at construction starting at 0x50.
pub open spec fn font_bytes() -> Seq<u8> {
    seq![
        0xF0u8, 0x90, 0x90, 0x90, 0xF0, // 0
        0x20, 0x60, 0x20, 0x20, 0x70, // 1
        0xF0, 0x10, 0xF0, 0x80, 0xF0, // 2
        0xF0, 0x10, 0xF0, 0x10, 0xF0, // 3
        0x90, 0x90, 0xF0, 0x10, 0x10, // 4
        0xF0, 0x80, 0xF0, 0x10, 0xF0, // 5
        0xF0, 0x80, 0xF0, 0x90, 0xF0, // 6
        0xF0, 0x10, 0x20, 0x40, 0x40, // 7
        0xF0, 0x90, 0xF0, 0x90, 0xF0, // 8
        0xF0, 0x90, 0xF0, 0x10, 0xF0, // 9
        0xF0, 0x90, 0xF0, 0x90, 0x90, // A
        0xE0, 0x90, 0xE0, 0x90, 0xE0, // B
        0xF0, 0x80, 0x80, 0x80, 0xF0, // C
        0xE0, 0x90, 0x90, 0x90, 0xE0, // D
        0xF0, 0x80, 0xF0, 0x80, 0xF0, // E
        0xF0, 0x80, 0xF0, 0x80, 0x80, // F
    ]
}

/// The state of a freshly constructed interpreter: zeroed memory except for
/// the font at 0x50, empty display, program counter at the program start
/// 0x200, empty stack, zeroed registers and timers.
pub open spec fn initial_model() -> EmuModel {
    EmuModel {
        mem: Seq::new(4096, |a: int| if 0x50 <= a < 0xA0 { font_bytes()[a - 0x50] } else { 0u8 }),
        disp: Seq::new(2048, |i: int| false),
        redraw: false,
        pc: 0x200,
        index: 0,
        stack: Seq::new(128, |i: int| 0u16),
        sp: 0,
        regs: Seq::new(16, |i: int| 0u8),
        delay: 0,
        sound: 0,
    }
}

/// Memory after a block of bytes is loaded at `start`: the block written
/// verbatim, the rest untouched.
pub open spec fn loaded_mem(mem: Seq<u8>, bytes: Seq<u8>, start: int) -> Seq<u8> {
    Seq::new(4096, |a: int| if start <= a < start + bytes.len() { bytes[a - start] } else { mem[a] })
}

/// Memory after the block store instruction: registers 0 through `x` written
/// at `index` onward, the rest untouched.
pub open spec fn mem_with_regs(mem: Seq<u8>, regs: Seq<u8>, index: int, x: int) -> Seq<u8> {
    Seq::new(4096, |a: int| if index <= a <= index + x { regs[a - index] } else { mem[a] })
}

/// Registers after the block load instruction: registers 0 through `x` read
/// from `index` onward, the rest untouched.
pub open spec fn regs_from_mem(regs: Seq<u8>, mem: Seq<u8>, index: int, x: int) -> Seq<u8> {
    Seq::new(16, |r: int| if r <= x { mem[index + r] } else { regs[r] })
}

/// How many sprite rows are actually drawn: a draw stops early at the bottom
/// edge of the display (`y` is the wrapped start row, below 32).
pub open spec fn sprite_rows(n: int, y: int) -> int {
    if n <= 32 - y {
        n
    } else {
        32 - y
    }
}

/// Bit `j` of a sprite byte, counting from the most significant: the bit
/// drawn `j` columns right of the sprite's start column.
pub open spec fn sprite_bit(b: u8, j: u8) -> bool {
    ((b << j) & 0x80) == 0x80
}

/// The cells touched after `rows_done` full sprite rows and `cols_done`
/// further columns of the next row have been blitted: a draw walks the sprite
/// row by row, left to right, and each row's eight columns stop at the right
/// edge of the display.
pub open spec fn draw_hits_partial(x: int, y: int, rows_done: int, cols_done: int, r: int, c: int) -> bool {
    ||| (y <= r < y + rows_done && x <= c < x + 8 && c < 64)
    ||| (r == y + rows_done && x <= c < x + cols_done && c < 64)
}

/// Whether a draw starting at wrapped position (`x`, `y`) with `n` sprite
/// rows touches the cell at (`r`, `c`): rows stop at the bottom edge, and
/// each row's eight columns stop at the right edge.
pub open spec fn draw_hits(x: int, y: int, n: int, r: int, c: int) -> bool {
    draw_hits_partial(x, y, sprite_rows(n, y), 0, r, c)
}

/// Value of the flat display cell `p` after `rows_done` full sprite rows and
/// `cols_done` further columns have been blitted: touched cells are XOR-ed
/// with their sprite bit, every other cell is untouched.
pub open spec fn draw_cell_partial(disp: Seq<bool>, mem: Seq<u8>, index: int, x: int, y: int, rows_done: int, cols_done: int, p: int) -> bool {
    let r = p / 64;
    let c = p % 64;
    if draw_hits_partial(x, y, rows_done, cols_done, r, c) && sprite_bit(mem[index + (r - y)], (c - x) as u8) {
        !disp[p]
    } else {
        disp[p]
    }
}

/// The display after a sprite draw: every cell the draw touches is XOR-ed
/// with its sprite bit, every other cell is untouched.
pub open spec fn draw_disp(disp: Seq<bool>, mem: Seq<u8>, index: int, n: int, x: int, y: int) -> Seq<bool> {
    Seq::new(2048, |p: int| draw_cell_partial(disp, mem, index, x, y, sprite_rows(n, y), 0, p))
}

/// Whether any cell turned from on to off among the cells touched by
/// `rows_done` full sprite rows and `cols_done` further columns.
pub open spec fn draw_collision_partial(disp: Seq<bool>, mem: Seq<u8>, index: int, x: int, y: int, rows_done: int, cols_done: int) -> bool {
    exists|r: int, c: int|
        draw_hits_partial(x, y, rows_done, cols_done, r, c)
            && sprite_bit(mem[index + (r - y)], (c - x) as u8) && disp[r * 64 + c]
}

/// Whether a sprite draw turns any cell from on to off: some touched cell is
/// on while its sprite bit is set. This is computed across the whole sprite,
/// not only its last row.
pub open spec fn draw_collision(disp: Seq<bool>, mem: Seq<u8>, index: int, n: int, x: int, y: int) -> bool {
    draw_collision_partial(disp, mem, index, x, y, sprite_rows(n, y), 0)
}

/// Before any row is blitted, no cell has been touched, so no collision.
pub proof fn lemma_collision_empty(disp: Seq<bool>, mem: Seq<u8>, index: int, x: int, y: int)
    ensures
        !draw_collision_partial(disp, mem, index, x, y, 0, 0),
{
    if draw_collision_partial(disp, mem, index, x, y, 0, 0) {
        let (r, c) = choose|r: int, c: int|
            draw_hits_partial(x, y, 0, 0, r, c) && sprite_bit(mem[index + (r - y)], (c - x) as u8)
                && disp[r * 64 + c];
        assert(false);
    }
}

/// A row whose columns ran to the sprite's width or to the right edge of the
/// display touches the same cells as that row taken whole.
pub proof fn lemma_row_advance(x: int, y: int, rows_done: int, cols_exit: int)
    requires
        0 <= x < 64,
        0 <= rows_done,
        0 <= cols_exit <= 8,
        cols_exit == 8 || x + cols_exit >= 64,
    ensures
        forall|r: int, c: int| #![auto]
            draw_hits_partial(x, y, rows_done, cols_exit, r, c) == draw_hits_partial(
                x,
                y,
                rows_done + 1,
                0,
                r,
                c,
            ),
{
}

/// Two blit prefixes that touch the same cells agree on the collision flag.
pub proof fn lemma_collision_region_eq(disp: Seq<bool>, mem: Seq<u8>, index: int, x: int, y: int, rd1: int, cd1: int, rd2: int, cd2: int)
    requires
        forall|r: int, c: int| #![auto]
            draw_hits_partial(x, y, rd1, cd1, r, c) == draw_hits_partial(x, y, rd2, cd2, r, c),
    ensures
        draw_collision_partial(disp, mem, index, x, y, rd1, cd1) == draw_collision_partial(
            disp,
            mem,
            index,
            x,
            y,
            rd2,
            cd2,
        ),
{
    if draw_collision_partial(disp, mem, index, x, y, rd1, cd1) {
        let (r, c) = choose|r: int, c: int|
            draw_hits_partial(x, y, rd1, cd1, r, c) && sprite_bit(mem[index + (r - y)], (c - x) as u8)
                && disp[r * 64 + c];
        assert(draw_hits_partial(x, y, rd2, cd2, r, c));
        assert(draw_collision_partial(disp, mem, index, x, y, rd2, cd2));
    }
    if draw_collision_partial(disp, mem, index, x, y, rd2, cd2) {
        let (r, c) = choose|r: int, c: int|
            draw_hits_partial(x, y, rd2, cd2, r, c) && sprite_bit(mem[index + (r - y)], (c - x) as u8)
                && disp[r * 64 + c];
        assert(draw_hits_partial(x, y, rd1, cd1, r, c));
        assert(draw_collision_partial(disp, mem, index, x, y, rd1, cd1));
    }
}

/// Two blit prefixes that touch the same cells agree on every cell value.
pub proof fn lemma_cells_region_eq(disp: Seq<bool>, mem: Seq<u8>, index: int, x: int, y: int, rd1: int, cd1: int, rd2: int, cd2: int)
    requires
        forall|r: int, c: int| #![auto]
            draw_hits_partial(x, y, rd1, cd1, r, c) == draw_hits_partial(x, y, rd2, cd2, r, c),
    ensures
        forall|p: int| #![auto]
            draw_cell_partial(disp, mem, index, x, y, rd1, cd1, p) == draw_cell_partial(
                disp,
                mem,
                index,
                x,
                y,
                rd2,
                cd2,
                p,
            ),
{
}

/// Blitting one more column extends the touched cells by exactly the cell at
/// row `y + rd`, column `x + cd`: the collision flag picks up that cell's
/// off-transition, every other cell's value is unchanged, and that cell is
/// XOR-ed with its sprite bit.
pub proof fn lemma_col_advance(disp: Seq<bool>, mem: Seq<u8>, index: int, x: int, y: int, rd: int, cd: int)
    requires
        0 <= x,
        0 <= cd < 8,
        x + cd < 64,
        0 <= y,
        0 <= rd,
        y + rd < 32,
        disp.len() == 2048,
    ensures
        ({
            let p0 = (y + rd) * 64 + (x + cd);
            let bit = sprite_bit(mem[index + rd], cd as u8);
            &&& draw_collision_partial(disp, mem, index, x, y, rd, cd + 1) == (
                draw_collision_partial(disp, mem, index, x, y, rd, cd) || (disp[p0] && bit))
            &&& draw_cell_partial(disp, mem, index, x, y, rd, cd, p0) == disp[p0]
            &&& draw_cell_partial(disp, mem, index, x, y, rd, cd + 1, p0) == (disp[p0] != bit)
            &&& forall|p: int| 0 <= p < 2048 && p != p0 ==> draw_cell_partial(
                disp,
                mem,
                index,
                x,
                y,
                rd,
                cd + 1,
                p,
            ) == #[trigger] draw_cell_partial(disp, mem, index, x, y, rd, cd, p)
        }),
{
    let p0 = (y + rd) * 64 + (x + cd);
    let bit = sprite_bit(mem[index + rd], cd as u8);
    let cdp = cd + 1;
    vstd::arithmetic::div_mod::lemma_fundamental_div_mod_converse(p0, 64, y + rd, x + cd);
    assert(p0 / 64 == y + rd && p0 % 64 == x + cd);
    assert forall|p: int| 0 <= p < 2048 && p != p0 implies draw_cell_partial(
        disp,
        mem,
        index,
        x,
        y,
        rd,
        cd + 1,
        p,
    ) == draw_cell_partial(disp, mem, index, x, y, rd, cd, p) by {
        vstd::arithmetic::div_mod::lemma_fundamental_div_mod(p, 64);
        if p / 64 == y + rd && p % 64 == x + cd {
            assert(p == p0);
        }
    }
    // The collision flag of the extended prefix.
    if draw_collision_partial(disp, mem, index, x, y, rd, cdp) {
        let (r, c) = choose|r: int, c: int|
            draw_hits_partial(x, y, rd, cdp, r, c) && sprite_bit(mem[index + (r - y)], (c - x) as u8)
                && disp[r * 64 + c];
        if draw_hits_partial(x, y, rd, cd, r, c) {
            assert(draw_collision_partial(disp, mem, index, x, y, rd, cd));
        } else {
            assert(r == y + rd && c == x + cd);
            assert(disp[p0] && bit);
        }
    }
    if draw_collision_partial(disp, mem, index, x, y, rd, cd) {
        let (r, c) = choose|r: int, c: int|
            draw_hits_partial(x, y, rd, cd, r, c) && sprite_bit(mem[index + (r - y)], (c - x) as u8)
                && disp[r * 64 + c];
        assert(draw_hits_partial(x, y, rd, cdp, r, c));
        assert(draw_collision_partial(disp, mem, index, x, y, rd, cdp));
    }
    if disp[p0] && bit {
        assert(draw_hits_partial(x, y, rd, cdp, y + rd, x + cd));
        assert(draw_collision_partial(disp, mem, index, x, y, rd, cdp));
    }
}

/// Shifting a byte left one more time is shifting it by one more position.
pub proof fn lemma_shift_step(b: u8, k: u8)
    requires
        k < 8,
    ensures
        (b << k) << 1 == b << (k + 1),
{
    assert((b << k) << 1 == b << (k + 1)) by (bit_vector)
        requires k < 8;
}

/// Outcome of the sprite-draw instruction on a machine state: start
/// coordinates wrap at draw start, the draw fails with the state untouched
/// exactly when some row it draws would read a sprite byte past the end of
/// memory, and otherwise the display is XOR-blitted, VF records the
/// collision, and the redraw flag is raised for the renderer.
pub open spec fn draw_outcome(m: EmuModel, index: int, n: int, x_raw: int, y_raw: int) -> (EmuModel, Result<(), Chip8Error>) {
    let x = x_raw % 64;
    let y = y_raw % 32;
    let rows = sprite_rows(n, y);
    if rows > 0 && index + rows > 4096 {
        (m, Err(Chip8Error::MemoryOutOfBounds))
    } else {
        let collision = draw_collision(m.disp, m.mem, index, n, x, y);
        (EmuModel {
            disp: draw_disp(m.disp, m.mem, index, n, x, y),
            redraw: true,
            regs: m.regs.update(15, if collision { 1u8 } else { 0u8 }),
            ..m
        }, Ok(()))
    }
}

/// Whether the instruction at the program counter consults the keyboard: the
/// two skip-if-key instructions and the blocking key wait. Only for these can
/// a step fail with a frontend error.
pub open spec fn uses_key_input(m: EmuModel) -> bool {
    m.pc + 1 < 4096 && {
        let b1 = m.mem[m.pc];
        let b2 = m.mem[m.pc + 1];
        ||| (op_class(b1) == 0xE && (b2 == 0x9E || b2 == 0xA1))
        ||| (op_class(b1) == 0xF && b2 == 0x0A)
    }
}

/// One instruction step of the machine, as a function of the pre-instruction
/// state and of the three inputs the step may consume from outside the core:
/// a random byte, whether the key selected by a skip-if-key instruction is
/// held, and the lowest key currently held if any. The result is the
/// post-instruction state together with the step's outcome.
///
/// The step fetches two bytes at the program counter (failing if the fetch
/// would read past memory), advances the program counter by 2, decodes the
/// four nibbles and dispatches. Patterns outside the instruction table are
/// not implemented: they leave the machine unchanged beyond the fetch and
/// succeed. Errors leave the machine exactly as the fetch left it, except a
/// failed fetch, which leaves the machine untouched.
pub open spec fn step_spec(m: EmuModel, cfg: EmulatorConfig, rand: u8, key_down: bool, first_key: Option<u8>) -> (EmuModel, Result<(), Chip8Error>) {
    if m.pc + 1 >= 4096 {
        (m, Err(Chip8Error::MemoryOutOfBounds))
    } else {
        let b1 = m.mem[m.pc];
        let b2 = m.mem[m.pc + 1];
        let f = EmuModel { pc: m.pc + 2, ..m };
        let c = op_class(b1);
        let x = op_x(b1) as int;
        let y = op_y(b2) as int;
        let n = op_n(b2);
        let vx = f.regs[x];
        let vy = f.regs[y];
        let nnn = op_nnn(b1, b2);
        if b1 == 0x00 && b2 == 0xE0 {
            // Clear the display.
            (EmuModel { disp: Seq::new(2048, |i: int| false), redraw: true, ..f }, Ok(()))
        } else if b1 == 0x00 && b2 == 0xEE {
            // Return: pop the stack into the program counter.
            if f.sp <= 0 {
                (f, Err(Chip8Error::StackUnderflow))
            } else {
                (EmuModel { sp: f.sp - 1, pc: f.stack[f.sp - 1] as int, ..f }, Ok(()))
            }
        } else if c == 0x1 {
            // Jump.
            (EmuModel { pc: nnn as int, ..f }, Ok(()))
        } else if c == 0x2 {
            // Call: push the post-fetch program counter, then jump.
            if f.sp >= 128 {
                (f, Err(Chip8Error::StackOverflow))
            } else {
                (EmuModel { stack: f.stack.update(f.sp, f.pc as u16), sp: f.sp + 1, pc: nnn as int, ..f }, Ok(()))
            }
        } else if c == 0x3 {
            // Skip the next instruction if VX == NN.
            (EmuModel { pc: f.pc + if vx == b2 { 2int } else { 0int }, ..f }, Ok(()))
        } else if c == 0x4 {
            // Skip the next instruction if VX != NN.
            (EmuModel { pc: f.pc + if vx != b2 { 2int } else { 0int }, ..f }, Ok(()))
        } else if c == 0x5 && n == 0x0 {
            // Skip the next instruction if VX == VY.
            (EmuModel { pc: f.pc + if vx == vy { 2int } else { 0int }, ..f }, Ok(()))
        } else if c == 0x9 && n == 0x0 {
            // Skip the next instruction if VX != VY.
            (EmuModel { pc: f.pc + if vx != vy { 2int } else { 0int }, ..f }, Ok(()))
        } else if c == 0x6 {
            // VX := NN.
            (EmuModel { regs: f.regs.update(x, b2), ..f }, Ok(()))
        } else if c == 0x7 {
            // VX := VX + NN, wrapping, no flag.
            (EmuModel { regs: f.regs.update(x, wrap_add8(vx, b2)), ..f }, Ok(()))
        } else if c == 0x8 && n == 0x0 {
            // VX := VY.
            (EmuModel { regs: f.regs.update(x, vy), ..f }, Ok(()))
        } else if c == 0x8 && n == 0x1 {
            // VX := VX | VY.
            (EmuModel { regs: f.regs.update(x, vx | vy), ..f }, Ok(()))
        } else if c == 0x8 && n == 0x2 {
            // VX := VX & VY.
            (EmuModel { regs: f.regs.update(x, vx & vy), ..f }, Ok(()))
        } else if c == 0x8 && n == 0x3 {
            // VX := VX ^ VY.
            (EmuModel { regs: f.regs.update(x, vx ^ vy), ..f }, Ok(()))
        } else if c == 0x8 && n == 0x4 {
            // VX := VX + VY; VF := 1 on carry else 0, written after the result.
            let flag: u8 = if vx + vy > 255 { 1 } else { 0 };
            (EmuModel { regs: f.regs.update(x, wrap_add8(vx, vy)).update(15, flag), ..f }, Ok(()))
        } else if c == 0x8 && n == 0x5 {
            // VX := VX - VY; VF := 1 if no borrow else 0, written after the result.
            let flag: u8 = if vx >= vy { 1 } else { 0 };
            (EmuModel { regs: f.regs.update(x, wrap_sub8(vx, vy)).update(15, flag), ..f }, Ok(()))
        } else if c == 0x8 && n == 0x7 {
            // VX := VY - VX; VF := 1 if no borrow else 0, written after the result.
            let flag: u8 = if vy >= vx { 1 } else { 0 };
            (EmuModel { regs: f.regs.update(x, wrap_sub8(vy, vx)).update(15, flag), ..f }, Ok(()))
        } else if c == 0x8 && n == 0x6 {
            // Shift right by one the configured source register; VX := the
            // result; VF := the bit shifted out.
            let src = if cfg.shift_use_vy { vy } else { vx };
            (EmuModel { regs: f.regs.update(x, src >> 1).update(15, src & 0x01), ..f }, Ok(()))
        } else if c == 0x8 && n == 0xE {
            // Shift left by one the configured source register; VX := the
            // result; VF := the bit shifted out.
            let src = if cfg.shift_use_vy { vy } else { vx };
            let flag: u8 = if src & 0x80 == 0x80 { 1 } else { 0 };
            (EmuModel { regs: f.regs.update(x, src << 1).update(15, flag), ..f }, Ok(()))
        } else if c == 0xA {
            // Index register := NNN.
            (EmuModel { index: nnn, ..f }, Ok(()))
        } else if c == 0xB {
            // Jump with offset from V0 or VX, per configuration.
            let off = if cfg.jump_offset_use_v0 { f.regs[0] } else { vx };
            (EmuModel { pc: nnn + off, ..f }, Ok(()))
        } else if c == 0xC {
            // VX := random byte AND NN.
            (EmuModel { regs: f.regs.update(x, rand & b2), ..f }, Ok(()))
        } else if c == 0xD {
            // Draw an N-byte sprite from memory at the index register.
            draw_outcome(f, f.index as int, n as int, vx as int, vy as int)
        } else if c == 0xE && b2 == 0x9E {
            // Skip the next instruction if key VX is held.
            (EmuModel { pc: f.pc + if key_down { 2int } else { 0int }, ..f }, Ok(()))
        } else if c == 0xE && b2 == 0xA1 {
            // Skip the next instruction if key VX is not held.
            (EmuModel { pc: f.pc + if !key_down { 2int } else { 0int }, ..f }, Ok(()))
        } else if c == 0xF && b2 == 0x07 {
            // VX := delay timer.
            (EmuModel { regs: f.regs.update(x, f.delay), ..f }, Ok(()))
        } else if c == 0xF && b2 == 0x15 {
            // Delay timer := VX.
            (EmuModel { delay: vx, ..f }, Ok(()))
        } else if c == 0xF && b2 == 0x18 {
            // Sound timer := VX.
            (EmuModel { sound: vx, ..f }, Ok(()))
        } else if c == 0xF && b2 == 0x1E {
            // Index += VX; VF := 1 if the sum left the 12-bit range or
            // overflowed the register.
            let sum = f.index + vx;
            let res: u16 = if sum > 65535 { (sum - 65536) as u16 } else { sum as u16 };
            let flag: u8 = if sum > 65535 || res > 0x0FFF { 1 } else { 0 };
            (EmuModel { index: res, regs: f.regs.update(15, flag), ..f }, Ok(()))
        } else if c == 0xF && b2 == 0x0A {
            // Blocking key wait: store the held key, or rewind the program
            // counter to re-execute this instruction next step.
            match first_key {
                Some(k) => (EmuModel { regs: f.regs.update(x, k), ..f }, Ok(())),
                None => (EmuModel { pc: m.pc, ..f }, Ok(())),
            }
        } else if c == 0xF && b2 == 0x29 {
            // Index := address of the font glyph for digit VX.
            (EmuModel { index: (0x50 + 5 * vx) as u16, ..f }, Ok(()))
        } else if c == 0xF && b2 == 0x33 {
            // Store the decimal digits of VX at the index register:
            // hundreds, tens, ones.
            let i = f.index as int;
            if i + 2 >= 4096 {
                (f, Err(Chip8Error::MemoryOutOfBounds))
            } else {
                let digits = f.mem.update(i, (vx / 100) as u8).update(i + 1, ((vx / 10) % 10) as u8).update(i + 2, (vx % 10) as u8);
                (EmuModel { mem: digits, ..f }, Ok(()))
            }
        } else if c == 0xF && b2 == 0x55 {
            // Store V0..VX inclusive at the index register onward; advance
            // the index register if configured.
            let i = f.index as int;
            if i + x >= 4096 {
                (f, Err(Chip8Error::MemoryOutOfBounds))
            } else {
                let idx2: u16 = if cfg.store_memory_update_index { (i + x + 1) as u16 } else { f.index };
                (EmuModel { mem: mem_with_regs(f.mem, f.regs, i, x), index: idx2, ..f }, Ok(()))
            }
        } else if c == 0xF && b2 == 0x65 {
            // Load V0..VX inclusive from the index register onward; advance
            // the index register if configured.
            let i = f.index as int;
            if i + x >= 4096 {
                (f, Err(Chip8Error::MemoryOutOfBounds))
            } else {
                let idx2: u16 = if cfg.store_memory_update_index { (i + x + 1) as u16 } else { f.index };
                (EmuModel { regs: regs_from_mem(f.regs, f.mem, i, x), index: idx2, ..f }, Ok(()))
            }
        } else {
            // Not implemented: skipped, no side effects.
            (f, Ok(()))
        }
    }
}

/// Law: the stack is last-in first-out. After a push of `v` onto a stack
/// with top index `sp`, a pop reads back exactly `v`, the top index after
/// the push and the pop is back at `sp`, and the entries below it are
/// untouched.
pub proof fn lemma_stack_lifo(st: Seq<u16>, sp: int, v: u16)
    requires
        st.len() == 128,
        0 <= sp < 128,
    ensures
        st.update(sp, v)[(sp + 1) - 1] == v,
        forall|i: int| 0 <= i < sp ==> st.update(sp, v)[i] == st[i],
{
}

/// Law: a call pushes the post-fetch program counter — the instruction's
/// address plus two — before jumping to its target, and a return at the
/// target pops exactly that value into the program counter, restoring the
/// stack top.
pub proof fn lemma_call_then_return(m: EmuModel, cfg: EmulatorConfig, r1: u8, k1: bool, f1: Option<u8>, r2: u8, k2: bool, f2: Option<u8>)
    requires
        m.wf(),
        m.sp < 128,
        m.pc + 1 < 4096,
        op_class(m.mem[m.pc]) == 0x2,
        op_nnn(m.mem[m.pc], m.mem[m.pc + 1]) + 1 < 4096,
        m.mem[op_nnn(m.mem[m.pc], m.mem[m.pc + 1]) as int] == 0x00,
        m.mem[op_nnn(m.mem[m.pc], m.mem[m.pc + 1]) as int + 1] == 0xEE,
    ensures
        ({
            let nnn = op_nnn(m.mem[m.pc], m.mem[m.pc + 1]);
            let (m1, res1) = step_spec(m, cfg, r1, k1, f1);
            let (m2, res2) = step_spec(m1, cfg, r2, k2, f2);
            &&& res1 == Ok::<(), Chip8Error>(())
            &&& m1.pc == nnn as int
            &&& m1.sp == m.sp + 1
            &&& m1.stack[m.sp] == (m.pc + 2) as u16
            &&& res2 == Ok::<(), Chip8Error>(())
            &&& m2.pc == m.pc + 2
            &&& m2.sp == m.sp
        }),
{
    let b1 = m.mem[m.pc];
    assert(b1 != 0x00) by (bit_vector)
        requires b1 >> 4 == 0x2;
}

/// Law: storing registers V0 through VX to memory and then immediately
/// loading V0 through VX from the same address reproduces the original
/// register values exactly.
pub proof fn lemma_store_load_roundtrip(mem: Seq<u8>, regs: Seq<u8>, index: int, x: int)
    requires
        mem.len() == 4096,
        regs.len() == 16,
        0 <= x < 16,
        0 <= index,
        index + x < 4096,
    ensures
        regs_from_mem(regs, mem_with_regs(mem, regs, index, x), index, x) == regs,
{
    assert(regs_from_mem(regs, mem_with_regs(mem, regs, index, x), index, x) =~= regs);
}

/// Law: drawing a sprite twice at the same location restores the display to
/// what it was before the first draw: each XOR-blit is its own inverse.
pub proof fn lemma_draw_twice_restores(disp: Seq<bool>, mem: Seq<u8>, index: int, n: int, x: int, y: int)
    requires
        disp.len() == 2048,
    ensures
        draw_disp(draw_disp(disp, mem, index, n, x, y), mem, index, n, x, y) == disp,
{
    assert(draw_disp(draw_disp(disp, mem, index, n, x, y), mem, index, n, x, y) =~= disp);
}

/// Law: when every cell of the sprite's visible footprint is off, a draw
/// reports no collision and each footprint cell afterwards equals its
/// sprite bit; drawing the same sprite again at the same location reports a
/// collision exactly when the first draw lit some cell — when some sprite
/// bit lands on the display.
pub proof fn lemma_draw_on_clear(disp: Seq<bool>, mem: Seq<u8>, index: int, n: int, x: int, y: int)
    requires
        disp.len() == 2048,
        0 <= x < 64,
        0 <= y < 32,
        0 <= n,
        forall|r: int, c: int| #![auto] draw_hits(x, y, n, r, c) ==> !disp[r * 64 + c],
    ensures
        !draw_collision(disp, mem, index, n, x, y),
        forall|r: int, c: int| #![auto] draw_hits(x, y, n, r, c)
            ==> draw_disp(disp, mem, index, n, x, y)[r * 64 + c] == sprite_bit(
                mem[index + (r - y)],
                (c - x) as u8,
            ),
        draw_collision(draw_disp(disp, mem, index, n, x, y), mem, index, n, x, y)
            == exists|r: int, c: int| #![auto]
                draw_hits(x, y, n, r, c) && sprite_bit(mem[index + (r - y)], (c - x) as u8),
{
    let rows = sprite_rows(n, y);
    assert forall|r: int, c: int| draw_hits(x, y, n, r, c) implies draw_disp(
        disp,
        mem,
        index,
        n,
        x,
        y,
    )[r * 64 + c] == sprite_bit(mem[index + (r - y)], (c - x) as u8) by {
        let p = r * 64 + c;
        assert(0 <= p < 2048);
        vstd::arithmetic::div_mod::lemma_fundamental_div_mod_converse(p, 64, r, c);
    }
    if draw_collision(disp, mem, index, n, x, y) {
        let (r, c) = choose|r: int, c: int|
            draw_hits_partial(x, y, rows, 0, r, c) && sprite_bit(mem[index + (r - y)], (c - x) as u8)
                && disp[r * 64 + c];
        assert(draw_hits(x, y, n, r, c));
        assert(false);
    }
    let d1 = draw_disp(disp, mem, index, n, x, y);
    if draw_collision(d1, mem, index, n, x, y) {
        let (r, c) = choose|r: int, c: int|
            draw_hits_partial(x, y, rows, 0, r, c) && sprite_bit(mem[index + (r - y)], (c - x) as u8)
                && d1[r * 64 + c];
        assert(draw_hits(x, y, n, r, c));
    }
    if exists|r: int, c: int| #![auto]
        draw_hits(x, y, n, r, c) && sprite_bit(mem[index + (r - y)], (c - x) as u8) {
        let (r, c) = choose|r: int, c: int| #![auto]
            draw_hits(x, y, n, r, c) && sprite_bit(mem[index + (r - y)], (c - x) as u8);
        let p = r * 64 + c;
        assert(0 <= p < 2048);
        vstd::arithmetic::div_mod::lemma_fundamental_div_mod_converse(p, 64, r, c);
        assert(d1[p] == !disp[p]);
        assert(draw_hits_partial(x, y, rows, 0, r, c) && sprite_bit(mem[index + (r - y)], (c - x) as u8)
            && d1[r * 64 + c]);
        assert(draw_collision(d1, mem, index, n, x, y));
    }
}

} // verus!

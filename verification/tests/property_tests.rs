use emul8rs::config::EmulatorConfig;
use emul8rs::display::Display;
use emul8rs::emulator::Emulator;
use emul8rs::error::Chip8Error;
use emul8rs::frontend::Frontend;
use emul8rs::noop_frontend::NoOpFrontend;
use emul8rs::timers::{sound_transition, ticked, SoundAction};

fn new_emulator() -> Emulator<NoOpFrontend> {
    Emulator::new(NoOpFrontend::new(), EmulatorConfig::default()).unwrap()
}

#[test]
/// The default configuration favors the common modern interpretation.
fn test_default_config() {
    let config = EmulatorConfig::default();
    assert_eq!(config.instructions_per_second, 700);
    assert!(config.shift_use_vy);
    assert!(config.jump_offset_use_v0);
    assert!(!config.store_memory_update_index);
    assert_eq!(config.foreground, "000000");
    assert_eq!(config.background, "FFFFFF");
}

#[test]
/// XOR is its own inverse: writing the same value twice restores the cell,
/// and the off-transition is reported on the second write exactly when the
/// first turned the cell on.
fn test_xor_involution() {
    let mut display = Display::new();
    display.set(7, 3, true).unwrap();

    // Starting from an on cell: the first write reports the off-transition.
    assert!(display.xor(7, 3, true).unwrap());
    assert!(!display.xor(7, 3, true).unwrap());
    assert!(display.get(7, 3).unwrap());

    // Starting from an off cell: the second write reports it.
    assert!(!display.xor(8, 3, true).unwrap());
    assert!(display.xor(8, 3, true).unwrap());
    assert!(!display.get(8, 3).unwrap());
}

#[test]
/// A fresh emulator exposes the font in memory: the glyph address
/// instruction points the index register into the font region.
fn test_font_glyph_address() {
    let mut emulator = new_emulator();
    // V3 := 0x0A, then index := glyph address for digit V3.
    let pc = emulator.program_counter();
    emulator.load_bytes(&[0x63, 0x0A, 0xF3, 0x29], pc).unwrap();
    emulator.execute().unwrap();
    emulator.execute().unwrap();
    assert_eq!(emulator.get_index().unwrap(), 0x50 + 5 * 0x0A);
}

#[test]
/// Arithmetic overflow flag: VX=0xFF plus VY=0x01 wraps to 0x00 with VF=1.
fn test_add_overflow_flag() {
    let mut emulator = new_emulator();
    emulator.set_reg(0, 0xFF).unwrap();
    emulator.set_reg(1, 0x01).unwrap();
    let pc = emulator.program_counter();
    emulator.load_bytes(&[0x80, 0x14], pc).unwrap();
    emulator.execute().unwrap();
    assert_eq!(emulator.get_reg(0).unwrap(), 0x00);
    assert_eq!(emulator.get_reg(0xF).unwrap(), 1);
}

#[test]
/// Borrow flag: VX=0x01 minus VY=0x02 wraps to 0xFF with VF=0 (borrow).
fn test_sub_borrow_flag() {
    let mut emulator = new_emulator();
    emulator.set_reg(0, 0x01).unwrap();
    emulator.set_reg(1, 0x02).unwrap();
    let pc = emulator.program_counter();
    emulator.load_bytes(&[0x80, 0x15], pc).unwrap();
    emulator.execute().unwrap();
    assert_eq!(emulator.get_reg(0).unwrap(), 0xFF);
    assert_eq!(emulator.get_reg(0xF).unwrap(), 0);
}

#[test]
/// Reverse subtraction: VX := VY - VX with VF=1 when no borrow occurred.
fn test_rsub_flag() {
    let mut emulator = new_emulator();
    emulator.set_reg(0, 0x01).unwrap();
    emulator.set_reg(1, 0x02).unwrap();
    let pc = emulator.program_counter();
    emulator.load_bytes(&[0x80, 0x17], pc).unwrap();
    emulator.execute().unwrap();
    assert_eq!(emulator.get_reg(0).unwrap(), 0x01);
    assert_eq!(emulator.get_reg(0xF).unwrap(), 1);
}

#[test]
/// The bitwise register operations.
fn test_bitwise_ops() {
    for (n, expected) in [(0x1u8, 0xCC | 0xAA), (0x2, 0xCC & 0xAA), (0x3, 0xCCu8 ^ 0xAA)] {
        let mut emulator = new_emulator();
        emulator.set_reg(2, 0xCC).unwrap();
        emulator.set_reg(3, 0xAA).unwrap();
        let pc = emulator.program_counter();
        emulator.load_bytes(&[0x82, 0x30 | n], pc).unwrap();
        emulator.execute().unwrap();
        assert_eq!(emulator.get_reg(2).unwrap(), expected);
    }
}

#[test]
/// Shifts read VY under the default configuration, store the result in VX,
/// and put the dropped bit in VF.
fn test_shift_default_uses_vy() {
    let mut emulator = new_emulator();
    emulator.set_reg(0, 0x00).unwrap();
    emulator.set_reg(1, 0x83).unwrap();
    let pc = emulator.program_counter();
    emulator.load_bytes(&[0x80, 0x16], pc).unwrap();
    emulator.execute().unwrap();
    assert_eq!(emulator.get_reg(0).unwrap(), 0x83 >> 1);
    assert_eq!(emulator.get_reg(0xF).unwrap(), 1);

    // Left shift with bit 7 set: VF := 1.
    let mut emulator = new_emulator();
    emulator.set_reg(0, 0x00).unwrap();
    emulator.set_reg(1, 0x83).unwrap();
    let pc = emulator.program_counter();
    emulator.load_bytes(&[0x80, 0x1E], pc).unwrap();
    emulator.execute().unwrap();
    assert_eq!(emulator.get_reg(0).unwrap(), (0x83u8 << 1) as u8);
    assert_eq!(emulator.get_reg(0xF).unwrap(), 1);

    // Left shift with bit 7 clear: VF := 0.
    let mut emulator = new_emulator();
    emulator.set_reg(0, 0x00).unwrap();
    emulator.set_reg(1, 0x41).unwrap();
    let pc = emulator.program_counter();
    emulator.load_bytes(&[0x80, 0x1E], pc).unwrap();
    emulator.execute().unwrap();
    assert_eq!(emulator.get_reg(0).unwrap(), 0x41 << 1);
    assert_eq!(emulator.get_reg(0xF).unwrap(), 0);
}

#[test]
/// Shifts read VX when the configuration says so.
fn test_shift_configured_vx() {
    let mut config = EmulatorConfig::default();
    config.shift_use_vy = false;
    let mut emulator = Emulator::new(NoOpFrontend::new(), config).unwrap();
    emulator.set_reg(0, 0x05).unwrap();
    emulator.set_reg(1, 0xF0).unwrap();
    let pc = emulator.program_counter();
    emulator.load_bytes(&[0x80, 0x16], pc).unwrap();
    emulator.execute().unwrap();
    assert_eq!(emulator.get_reg(0).unwrap(), 0x05 >> 1);
    assert_eq!(emulator.get_reg(0xF).unwrap(), 0x01);
}

#[test]
/// Jump with offset adds V0 under the default configuration, VX otherwise.
fn test_jump_with_offset() {
    let mut emulator = new_emulator();
    emulator.set_reg(0, 0x10).unwrap();
    let pc = emulator.program_counter();
    emulator.load_bytes(&[0xB3, 0x00], pc).unwrap();
    emulator.execute().unwrap();
    assert_eq!(emulator.program_counter(), 0x300 + 0x10);

    let mut config = EmulatorConfig::default();
    config.jump_offset_use_v0 = false;
    let mut emulator = Emulator::new(NoOpFrontend::new(), config).unwrap();
    emulator.set_reg(0, 0x10).unwrap();
    emulator.set_reg(3, 0x20).unwrap();
    let pc = emulator.program_counter();
    emulator.load_bytes(&[0xB3, 0x00], pc).unwrap();
    emulator.execute().unwrap();
    assert_eq!(emulator.program_counter(), 0x300 + 0x20);
}

#[test]
/// The random byte is masked with NN: a zero mask pins VX to zero, and the
/// real generator is consulted.
fn test_random_masked() {
    let mut emulator = new_emulator();
    emulator.set_reg(0, 0xAA).unwrap();
    let pc = emulator.program_counter();
    emulator.load_bytes(&[0xC0, 0x00, 0xC1, 0x0F], pc).unwrap();
    emulator.execute().unwrap();
    assert_eq!(emulator.get_reg(0).unwrap(), 0x00);
    emulator.execute().unwrap();
    assert!(emulator.get_reg(1).unwrap() <= 0x0F);
}

#[test]
/// Stepping with an explicit random byte pins the random instruction down.
fn test_step_with_random() {
    let mut emulator = new_emulator();
    let pc = emulator.program_counter();
    emulator.load_bytes(&[0xC0, 0xFF], pc).unwrap();
    emulator.step_with(0x5A, false, None).unwrap();
    assert_eq!(emulator.get_reg(0).unwrap(), 0x5A);
}

#[test]
/// The delay timer round-trips through its instructions.
fn test_delay_timer_instructions() {
    let mut emulator = new_emulator();
    emulator.set_reg(0, 42).unwrap();
    let pc = emulator.program_counter();
    // delay := V0, then V1 := delay.
    emulator.load_bytes(&[0xF0, 0x15, 0xF1, 0x07], pc).unwrap();
    emulator.execute().unwrap();
    assert_eq!(emulator.delay_timer(), 42);
    emulator.execute().unwrap();
    assert_eq!(emulator.get_reg(1).unwrap(), 42);
}

#[test]
/// The sound timer is set by its instruction.
fn test_sound_timer_instruction() {
    let mut emulator = new_emulator();
    emulator.set_reg(2, 7).unwrap();
    let pc = emulator.program_counter();
    emulator.load_bytes(&[0xF2, 0x18], pc).unwrap();
    emulator.execute().unwrap();
    assert_eq!(emulator.sound_timer(), 7);
}

#[test]
/// Adding to the index register sets VF when the sum leaves the 12-bit range.
fn test_add_to_index() {
    let mut emulator = new_emulator();
    emulator.set_index(0x0FFE).unwrap();
    emulator.set_reg(4, 0x05).unwrap();
    let pc = emulator.program_counter();
    emulator.load_bytes(&[0xF4, 0x1E], pc).unwrap();
    emulator.execute().unwrap();
    assert_eq!(emulator.get_index().unwrap(), 0x1003);
    assert_eq!(emulator.get_reg(0xF).unwrap(), 1);
}

#[test]
/// Binary-coded decimal conversion: hundreds, tens, ones, read back through
/// the block load instruction.
fn test_bcd_conversion() {
    let mut emulator = new_emulator();
    emulator.set_reg(0, 234).unwrap();
    emulator.set_index(0x400).unwrap();
    let pc = emulator.program_counter();
    // Store the digits of V0, then load them back into V0..V2.
    emulator.load_bytes(&[0xF0, 0x33, 0xF2, 0x65], pc).unwrap();
    emulator.execute().unwrap();
    emulator.execute().unwrap();
    assert_eq!(emulator.get_reg(0).unwrap(), 2);
    assert_eq!(emulator.get_reg(1).unwrap(), 3);
    assert_eq!(emulator.get_reg(2).unwrap(), 4);
}

#[test]
/// Round trip: storing V0..VX to memory and then loading V0..VX from the
/// same address reproduces the original register values exactly.
fn test_store_load_roundtrip() {
    let mut emulator = new_emulator();
    let values = [5u8, 10, 1, 0, 50];
    for (i, &v) in values.iter().enumerate() {
        emulator.set_reg(i, v).unwrap();
    }
    emulator.set_index(0x400).unwrap();
    let pc = emulator.program_counter();
    // Store V0..V4, then load V0..V4 from the same address.
    emulator.load_bytes(&[0xF4, 0x55, 0xF4, 0x65], pc).unwrap();
    emulator.execute().unwrap();

    // Clobber the registers before loading them back.
    for i in 0..5 {
        emulator.set_reg(i, 0xEE).unwrap();
    }
    emulator.execute().unwrap();
    for (i, &v) in values.iter().enumerate() {
        assert_eq!(emulator.get_reg(i as u8).unwrap(), v);
    }
    // The index register is untouched under the default configuration.
    assert_eq!(emulator.get_index().unwrap(), 0x400);
}

#[test]
/// The block store and load advance the index register when configured.
fn test_store_updates_index_when_configured() {
    let mut config = EmulatorConfig::default();
    config.store_memory_update_index = true;
    let mut emulator = Emulator::new(NoOpFrontend::new(), config).unwrap();
    emulator.set_index(0x400).unwrap();
    let pc = emulator.program_counter();
    emulator.load_bytes(&[0xF2, 0x55], pc).unwrap();
    emulator.execute().unwrap();
    assert_eq!(emulator.get_index().unwrap(), 0x400 + 2 + 1);
}

#[test]
/// Sprite draw collision flag: over a clear region the flag stays 0;
/// drawing the same sprite again turns every cell back off and sets it.
fn test_sprite_collision() {
    let mut emulator = new_emulator();
    // A one-row sprite of eight set bits at 0x400.
    emulator.load_bytes(&[0xFF], 0x400).unwrap();
    emulator.set_index(0x400).unwrap();
    emulator.set_reg(0, 10).unwrap();
    emulator.set_reg(1, 5).unwrap();
    let pc = emulator.program_counter();
    // Draw the sprite at (V0, V1) twice.
    emulator.load_bytes(&[0xD0, 0x11, 0xD0, 0x11], pc).unwrap();

    emulator.execute().unwrap();
    assert_eq!(emulator.get_reg(0xF).unwrap(), 0);
    for col in 10..18 {
        assert!(emulator.display().get(5, col).unwrap());
    }

    emulator.execute().unwrap();
    assert_eq!(emulator.get_reg(0xF).unwrap(), 1);
    for &cell in emulator.display().iter_cells() {
        assert!(!cell);
    }
}

#[test]
/// Sprite coordinates wrap at draw start, and a sprite is clipped at the
/// display edges rather than wrapping mid-draw.
fn test_sprite_wrap_and_clip() {
    let mut emulator = new_emulator();
    emulator.load_bytes(&[0xFF, 0xFF], 0x400).unwrap();
    emulator.set_index(0x400).unwrap();
    // (V0, V1) = (62 + 64, 31 + 32): wraps to (62, 31).
    emulator.set_reg(0, 126).unwrap();
    emulator.set_reg(1, 63).unwrap();
    let pc = emulator.program_counter();
    emulator.load_bytes(&[0xD0, 0x12], pc).unwrap();
    emulator.execute().unwrap();

    // Only columns 62 and 63 of row 31 are lit: the second sprite row and
    // the columns past the right edge are clipped.
    let mut lit = 0;
    for &cell in emulator.display().iter_cells() {
        if cell {
            lit += 1;
        }
    }
    assert_eq!(lit, 2);
    assert!(emulator.display().get(31, 62).unwrap());
    assert!(emulator.display().get(31, 63).unwrap());
}

#[test]
/// The core raises the redraw flag when the buffer changes: on a sprite
/// draw and on a clear instruction; the renderer lowers it as its own
/// bookkeeping.
fn test_redraw_flag_raised() {
    let mut emulator = new_emulator();
    assert!(!emulator.display().needs_redraw());
    emulator.load_bytes(&[0xFF], 0x400).unwrap();
    emulator.set_index(0x400).unwrap();
    let pc = emulator.program_counter();
    emulator.load_bytes(&[0xD0, 0x11, 0x00, 0xE0], pc).unwrap();
    emulator.execute().unwrap();
    assert!(emulator.display().needs_redraw());
    emulator.display_mut().set_redraw(false);
    emulator.execute().unwrap();
    assert!(emulator.display().needs_redraw());
}

#[test]
/// A draw of zero sprite rows reads no memory, so it cannot fault, touches
/// no cell, and reports no collision.
fn test_sprite_zero_rows() {
    let mut emulator = new_emulator();
    emulator.set_index(0x2000).unwrap();
    emulator.set_reg(0xF, 1).unwrap();
    let pc = emulator.program_counter();
    emulator.load_bytes(&[0xD0, 0x00], pc).unwrap();
    emulator.execute().unwrap();
    assert_eq!(emulator.get_reg(0xF).unwrap(), 0);
    for &cell in emulator.display().iter_cells() {
        assert!(!cell);
    }
}

#[test]
/// The key wait instruction rewinds the program counter while no key is
/// held, and stores the held key handed to a deterministic step.
fn test_key_wait() {
    let mut emulator = new_emulator();
    let pc = emulator.program_counter();
    emulator.load_bytes(&[0xF0, 0x0A], pc).unwrap();

    // The no-op frontend holds no keys: the instruction re-executes.
    emulator.execute().unwrap();
    assert_eq!(emulator.program_counter(), pc);
    emulator.execute().unwrap();
    assert_eq!(emulator.program_counter(), pc);

    // With a held key, the key lands in VX and the counter advances.
    emulator.step_with(0, false, Some(0x7)).unwrap();
    assert_eq!(emulator.program_counter(), pc + 2);
    assert_eq!(emulator.get_reg(0).unwrap(), 0x7);
}

#[test]
/// The skip-if-key instructions follow the key state of a step.
fn test_skip_if_key() {
    // Key held: the skip-if-held instruction skips.
    let mut emulator = new_emulator();
    let pc = emulator.program_counter();
    emulator.load_bytes(&[0xE0, 0x9E], pc).unwrap();
    emulator.step_with(0, true, None).unwrap();
    assert_eq!(emulator.program_counter(), pc + 4);

    // Key held: the skip-if-not-held instruction does not skip.
    let mut emulator = new_emulator();
    let pc = emulator.program_counter();
    emulator.load_bytes(&[0xE0, 0xA1], pc).unwrap();
    emulator.step_with(0, true, None).unwrap();
    assert_eq!(emulator.program_counter(), pc + 2);

    // Key released: the skip-if-not-held instruction skips.
    let mut emulator = new_emulator();
    let pc = emulator.program_counter();
    emulator.load_bytes(&[0xE0, 0xA1], pc).unwrap();
    emulator.step_with(0, false, None).unwrap();
    assert_eq!(emulator.program_counter(), pc + 4);

    // Key released: the skip-if-held instruction does not skip.
    let mut emulator = new_emulator();
    let pc = emulator.program_counter();
    emulator.load_bytes(&[0xE0, 0x9E], pc).unwrap();
    emulator.step_with(0, false, None).unwrap();
    assert_eq!(emulator.program_counter(), pc + 2);
}

#[test]
/// Adding an immediate wraps modulo 256 and leaves VF alone.
fn test_add_immediate_wraps() {
    let mut emulator = new_emulator();
    emulator.set_reg(0, 0xFF).unwrap();
    emulator.set_reg(0xF, 0x3C).unwrap();
    let pc = emulator.program_counter();
    emulator.load_bytes(&[0x70, 0x02], pc).unwrap();
    emulator.execute().unwrap();
    assert_eq!(emulator.get_reg(0).unwrap(), 0x01);
    assert_eq!(emulator.get_reg(0xF).unwrap(), 0x3C);
}

#[test]
/// When VF itself is the result register of a flagged addition, the flag is
/// written after the result, so the flag wins.
fn test_flag_register_aliasing() {
    let mut emulator = new_emulator();
    emulator.set_reg(0xF, 0x70).unwrap();
    emulator.set_reg(1, 0x70).unwrap();
    let pc = emulator.program_counter();
    emulator.load_bytes(&[0x8F, 0x14], pc).unwrap();
    emulator.execute().unwrap();
    // 0x70 + 0x70 = 0xE0 with no carry: VF holds the flag, 0.
    assert_eq!(emulator.get_reg(0xF).unwrap(), 0);
}

#[test]
/// An instruction pattern outside the table is skipped without side effects.
fn test_unimplemented_opcode_continues() {
    let mut emulator = new_emulator();
    let pc = emulator.program_counter();
    // 0x8XY8 is not an instruction; 0x0NNN machine routines are not either.
    emulator.load_bytes(&[0x80, 0x18, 0x01, 0x23], pc).unwrap();
    emulator.execute().unwrap();
    assert_eq!(emulator.program_counter(), pc + 2);
    emulator.execute().unwrap();
    assert_eq!(emulator.program_counter(), pc + 4);
    assert_eq!(emulator.get_reg(0).unwrap(), 0);
}

#[test]
/// Fetching past the end of memory is a fatal error.
fn test_fetch_out_of_bounds() {
    let mut emulator = new_emulator();
    let pc = emulator.program_counter();
    // Jump to 0xFFF, where no two-byte instruction fits.
    emulator.load_bytes(&[0x1F, 0xFF], pc).unwrap();
    emulator.execute().unwrap();
    assert_eq!(emulator.execute(), Err(Chip8Error::MemoryOutOfBounds));
}

#[test]
/// The block store fails when it would write past the end of memory.
fn test_store_out_of_bounds() {
    let mut emulator = new_emulator();
    emulator.set_index(0xFFE).unwrap();
    let pc = emulator.program_counter();
    emulator.load_bytes(&[0xF5, 0x55], pc).unwrap();
    assert_eq!(emulator.execute(), Err(Chip8Error::MemoryOutOfBounds));
}

#[test]
/// The decimal conversion fails when it would write past the end of memory.
fn test_bcd_out_of_bounds() {
    let mut emulator = new_emulator();
    emulator.set_index(0xFFE).unwrap();
    let pc = emulator.program_counter();
    emulator.load_bytes(&[0xF0, 0x33], pc).unwrap();
    assert_eq!(emulator.execute(), Err(Chip8Error::MemoryOutOfBounds));
}

#[test]
/// Stack overflow and underflow are errors, raised exactly at the bounds.
fn test_stack_bounds() {
    let mut emulator = new_emulator();
    assert_eq!(emulator.stack_pop(), Err(Chip8Error::StackUnderflow));
    for i in 0..128 {
        emulator.stack_push(i as u16).unwrap();
    }
    assert_eq!(emulator.stack_push(1), Err(Chip8Error::StackOverflow));
    assert_eq!(emulator.stack_top(), 128);
}

#[test]
/// A return on an empty stack is fatal.
fn test_return_on_empty_stack() {
    let mut emulator = new_emulator();
    let pc = emulator.program_counter();
    emulator.load_bytes(&[0x00, 0xEE], pc).unwrap();
    assert_eq!(emulator.execute(), Err(Chip8Error::StackUnderflow));
}

#[test]
/// Register access is bounds checked.
fn test_register_bounds() {
    let mut emulator = new_emulator();
    assert_eq!(emulator.get_reg(16), Err(Chip8Error::RegisterOutOfBounds));
    assert_eq!(emulator.set_reg(16, 0), Err(Chip8Error::RegisterOutOfBounds));
}

#[test]
/// A program that does not fit between 0x200 and the end of memory is
/// rejected before any byte is written.
fn test_program_too_large() {
    let mut emulator = new_emulator();
    let big = vec![0u8; 4096 - 0x200 + 1];
    assert_eq!(emulator.load_bytes(&big, 0x200), Err(Chip8Error::ProgramTooLarge));
    let fits = vec![0xAAu8; 4096 - 0x200];
    emulator.load_bytes(&fits, 0x200).unwrap();
}

#[test]
/// The timer decrement saturates: a timer at zero stays at zero however
/// often the schedule fires.
fn test_timer_never_underflows() {
    assert_eq!(ticked(5), 4);
    assert_eq!(ticked(1), 0);
    let mut v = 0u8;
    for _ in 0..100 {
        v = ticked(v);
        assert_eq!(v, 0);
    }
}

#[test]
/// The sound decision is edge triggered: one toggle per transition.
fn test_sound_transition_edges() {
    assert_eq!(sound_transition(false, 3), SoundAction::Start);
    assert_eq!(sound_transition(true, 3), SoundAction::Keep);
    assert_eq!(sound_transition(true, 0), SoundAction::Stop);
    assert_eq!(sound_transition(false, 0), SoundAction::Keep);
}

/// A frontend whose keyboard fails, to observe collaborator errors.
struct FailingKeys {}

impl Frontend for FailingKeys {
    fn draw(&mut self, _display: &Display) -> Result<(), Chip8Error> {
        Ok(())
    }

    fn check_key(&mut self, _key: u8) -> Result<bool, Chip8Error> {
        Err(Chip8Error::Frontend)
    }

    fn play_sound(&mut self) -> Result<(), Chip8Error> {
        Ok(())
    }

    fn stop_sound(&mut self) -> Result<(), Chip8Error> {
        Ok(())
    }

    fn should_stop(&mut self) -> bool {
        false
    }

    fn step(&mut self) -> Result<(), Chip8Error> {
        Ok(())
    }
}

#[test]
/// A keyboard failure in the frontend is propagated by the instructions
/// that consult it, and only by those.
fn test_frontend_error_propagates() {
    let mut emulator = Emulator::new(FailingKeys {}, EmulatorConfig::default()).unwrap();
    let pc = emulator.program_counter();
    emulator.load_bytes(&[0x60, 0x01, 0xE0, 0x9E], pc).unwrap();
    // An ordinary instruction does not consult the keyboard.
    emulator.execute().unwrap();
    // The skip-if-key instruction does, and the failure surfaces.
    assert_eq!(emulator.execute(), Err(Chip8Error::Frontend));
}

#[test]
/// One run-loop cycle on a frontend that asks to stop leaves the machine
/// untouched; on one that continues, it executes an instruction and keeps
/// the tone decision edge-triggered.
fn test_run_cycle() {
    // The no-op frontend stops at once.
    let mut emulator = new_emulator();
    let pc = emulator.program_counter();
    let (stop, playing) = emulator.run_cycle(false).unwrap();
    assert!(stop);
    assert!(!playing);
    assert_eq!(emulator.program_counter(), pc);

    // A continuing frontend runs one instruction; a nonzero sound timer
    // starts the tone.
    let mut emulator = Emulator::new(FailingKeys {}, EmulatorConfig::default()).unwrap();
    emulator.set_reg(2, 9).unwrap();
    let pc = emulator.program_counter();
    emulator.load_bytes(&[0xF2, 0x18], pc).unwrap();
    let (stop, playing) = emulator.run_cycle(false).unwrap();
    assert!(!stop);
    assert!(playing);
    assert_eq!(emulator.sound_timer(), 9);
    let (stop, playing) = emulator.run_cycle(playing).unwrap();
    assert!(!stop);
    assert!(playing);
}

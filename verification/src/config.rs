use vstd::prelude::*;

verus! {

/// Configuration of the emulator.
///
/// Includes the pacing target and the toggles resolving documented dialect
/// ambiguities: whether the shift instructions read VY or VX, whether
/// jump-with-offset adds V0 or VX, and whether the register block store and
/// load instructions advance the index register. The two colors are consumed
/// only by an external renderer.
pub struct EmulatorConfig {
    pub instructions_per_second: u64,
    pub shift_use_vy: bool,
    pub jump_offset_use_v0: bool,
    pub store_memory_update_index: bool,
    pub foreground: String,
    pub background: String,
}

impl Default for EmulatorConfig {
    /// Defaults favor the more common modern interpretation of the dialect
    /// ambiguities, at 700 instructions per second, black on white.
    fn default() -> (r: Self)
        ensures
            r.instructions_per_second == 700,
            r.shift_use_vy,
            r.jump_offset_use_v0,
            !r.store_memory_update_index,
            r.foreground@ == "000000"@,
            r.background@ == "FFFFFF"@,
    {
        EmulatorConfig {
            instructions_per_second: 700,
            shift_use_vy: true,
            jump_offset_use_v0: true,
            store_memory_update_index: false,
            foreground: "000000".to_owned(),
            background: "FFFFFF".to_owned(),
        }
    }
}

} // verus!

pub mod cpu;
pub mod keypad;
pub mod laws;
pub mod model;
pub mod sound;

use vstd::prelude::*;

verus! {

/// The top-level emulation session handle.
pub struct Emulator {}

impl Emulator {
    pub fn initialize() -> (r: Emulator)
        ensures
            r == (Emulator {}),
    {
        Emulator {}
    }
}

} // verus!

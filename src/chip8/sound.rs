use vstd::prelude::*;

verus! {

/// An output that sounds a tone while the sound timer runs.
pub trait SoundController {
    fn play(&self);

    fn stop(&self);
}

/// The output used when no audio device is available: it does nothing.
pub struct NoOpSoundController {}

impl SoundController for NoOpSoundController {
    fn play(&self) {
    }

    fn stop(&self) {
    }
}

} // verus!

//! A silent audio sink for configurations without sound output.

use vstd::prelude::*;

verus! {

/// An audio player that discards every sample.
pub struct NullAudioPlayer;

impl NullAudioPlayer {
    /// Accepts a buffer of samples and discards it.
    pub fn play(&mut self, output_buffer: &[u16])
        ensures
            *final(self) == *old(self),
    {
    }

    /// The nominal sample rate this sink pretends to consume.
    pub fn samples_rate(&self) -> (r: u32)
        ensures
            r == 16000,
    {
        16000
    }

    /// A sink that discards everything never underflows.
    pub fn underflowed(&self) -> (r: bool)
        ensures
            !r,
    {
        false
    }
}

} // verus!

use vstd::prelude::*;

verus! {

/// The sample rate, in Hz, of every buffer that capture hands on.
pub const TARGET_SAMPLE_RATE: u32 = 16000;

/// Recorded mono audio.
///
/// Each sample is a 32-bit float, held here by its IEEE-754 bit pattern
/// (`f32::to_bits`), so that the samples pass through the library unchanged.
#[derive(Debug)]
pub struct AudioBuffer {
    pub samples: Vec<u32>,
    pub sample_rate: u32,
}

} // verus!

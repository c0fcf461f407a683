//! The noise padding stage: how many random bytes are appended to an
//! accepted file, which bytes, and how long the file is afterwards.

use crate::entropy::{fill_random, uniform_usize_inclusive};
use vstd::prelude::*;

verus! {

/// The smallest number of noise bytes appended to a file.
pub const NOISE_MIN: usize = 1_000_000;

/// The largest number of noise bytes appended to a file.
pub const NOISE_MAX: usize = 3_000_000;

/// A persisted image file: its name and its length in bytes.
#[derive(Clone, Debug, PartialEq, Eq)]
pub struct ImageArtifact {
    pub file_name: String,
    pub byte_len: u64,
}

/// A block of random bytes whose length is drawn from
/// `[NOISE_MIN, NOISE_MAX]`.
pub fn noise_block(rng: &mut rand::rngs::ThreadRng) -> (noise: Vec<u8>)
    ensures
        NOISE_MIN <= noise@.len() <= NOISE_MAX,
{
    let noise_bytes = uniform_usize_inclusive(rng, NOISE_MIN, NOISE_MAX);
    let mut noise = vec![0u8; noise_bytes];
    fill_random(rng, &mut noise);
    noise
}

impl ImageArtifact {
    /// The artifact once `noise_len` bytes were appended to its file: the
    /// same file, longer by `noise_len`.
    pub open spec fn grown_by(self, noise_len: nat) -> ImageArtifact {
        ImageArtifact { file_name: self.file_name, byte_len: (self.byte_len + noise_len) as u64 }
    }

    /// Pads the artifact: draws a noise block and returns it together with
    /// the artifact as it is once the block has been appended to the file.
    /// The new length is the old length plus the length of the block.
    pub fn pad(self, rng: &mut rand::rngs::ThreadRng) -> (padded: (ImageArtifact, Vec<u8>))
        requires
            self.byte_len + NOISE_MAX <= u64::MAX,
        ensures
            NOISE_MIN <= padded.1@.len() <= NOISE_MAX,
            padded.0 == self.grown_by(padded.1@.len()),
            padded.0.byte_len == self.byte_len + padded.1@.len(),
    {
        let noise = noise_block(rng);
        let byte_len = self.byte_len + noise.len() as u64;
        (ImageArtifact { file_name: self.file_name, byte_len }, noise)
    }
}

} // verus!

//! Draws from the thread-local random generator of the `rand` crate.
//!
//! Nothing is known of a draw but its type and, for a draw from a range, that
//! it lies in the range. Two draws with the same arguments may differ.

use vstd::prelude::*;

verus! {

#[verifier::external_type_specification]
#[verifier::external_body]
pub struct ExThreadRng(rand::rngs::ThreadRng);

/// A `u32` from the half-open range `low..end`.
///
/// Trusted: this is `Rng::gen_range` of the `rand` crate on a `Range<u32>`.
/// It panics on an empty range, which the precondition leaves out, and
/// returns `low` plus an offset below `end - low`.
#[verifier::external_body]
pub(crate) fn uniform_u32(rng: &mut rand::rngs::ThreadRng, low: u32, end: u32) -> (drawn: u32)
    requires
        low < end,
    ensures
        low <= drawn < end,
{
    rand::Rng::gen_range(rng, low..end)
}

/// A `u32` from the closed range `low..=high`.
///
/// Trusted: this is `Rng::gen_range` of the `rand` crate on a
/// `RangeInclusive<u32>`. It panics on an empty range, which the precondition
/// leaves out, and returns `low` plus an offset of at most `high - low`.
#[verifier::external_body]
pub(crate) fn uniform_u32_inclusive(rng: &mut rand::rngs::ThreadRng, low: u32, high: u32) -> (drawn:
    u32)
    requires
        low <= high,
    ensures
        low <= drawn <= high,
{
    rand::Rng::gen_range(rng, low..=high)
}

/// A `usize` from the closed range `low..=high`.
///
/// Trusted: this is `Rng::gen_range` of the `rand` crate on a
/// `RangeInclusive<usize>`. It panics on an empty range, which the
/// precondition leaves out, and returns `low` plus an offset of at most
/// `high - low`.
#[verifier::external_body]
pub(crate) fn uniform_usize_inclusive(
    rng: &mut rand::rngs::ThreadRng,
    low: usize,
    high: usize,
) -> (drawn: usize)
    requires
        low <= high,
    ensures
        low <= drawn <= high,
{
    rand::Rng::gen_range(rng, low..=high)
}

/// One random byte.
///
/// Trusted: this is `Rng::gen` of the `rand` crate at type `u8`. Any byte may
/// come back, so nothing is promised of it.
#[verifier::external_body]
pub(crate) fn random_byte(rng: &mut rand::rngs::ThreadRng) -> u8 {
    rand::Rng::gen(rng)
}

/// Overwrites every byte of `buffer` with a random one.
///
/// Trusted: this is `Rng::fill` of the `rand` crate on a byte slice. It writes
/// into the slice it is given and cannot change its length; of the bytes
/// nothing is promised.
#[verifier::external_body]
pub(crate) fn fill_random(rng: &mut rand::rngs::ThreadRng, buffer: &mut Vec<u8>)
    ensures
        final(buffer)@.len() == old(buffer)@.len(),
{
    rand::Rng::fill(rng, &mut buffer[..])
}

} // verus!

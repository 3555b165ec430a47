//! The source of randomness.

use crate::fixed::{Fixed, SCALE};
use vstd::prelude::*;

verus! {

/// Draws 32 bits with `rand::random::<u32>()`, from the generator of the
/// running thread. Nothing is claimed of the value. The call fails only
/// where the system has no randomness to seed the generator with.
#[verifier::external_body]
pub(crate) fn random_bits() -> (res: u32) {
    rand::random::<u32>()
}

/// A random number in `[0, 1)`.
pub fn random_fraction() -> (res: Fixed)
    ensures
        0 <= res@ < SCALE,
{
    Fixed::from_fraction(random_bits())
}

} // verus!

use crate::math::scalar::Scalar;
use crate::math::scalar::ZERO;
use vstd::prelude::*;

verus! {

/// Rotations as three angles about the axes, applied in the order x, y, z.
pub struct Euler {}

impl Euler {
    /// No rotation.
    pub fn create() -> (e: [Scalar; 3])
        ensures
            e == [ZERO, ZERO, ZERO],
    {
        [ZERO, ZERO, ZERO]
    }
}

} // verus!

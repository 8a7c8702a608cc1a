use crate::math::scalar::ONE;
use crate::math::scalar::Scalar;
use crate::math::scalar::ZERO;
use vstd::prelude::*;

verus! {

/// Rotations as quaternions: the vector part, then the scalar part.
pub struct Quaternion {}

impl Quaternion {
    /// No rotation.
    pub fn create() -> (q: [Scalar; 4])
        ensures
            q == [ZERO, ZERO, ZERO, ONE],
    {
        [ZERO, ZERO, ZERO, ONE]
    }
}

} // verus!

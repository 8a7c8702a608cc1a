use crate::math::scalar::Scalar;
use crate::math::scalar::ZERO;
use vstd::prelude::*;

verus! {

/// Vectors of three components.
pub struct Vector3 {}

impl Vector3 {
    /// The zero vector.
    pub fn create() -> (v: [Scalar; 3])
        ensures
            v == [ZERO, ZERO, ZERO],
    {
        [ZERO, ZERO, ZERO]
    }

    pub fn set(v: &mut [Scalar; 3], x: Scalar, y: Scalar, z: Scalar) -> (vector: &mut [Scalar; 3])
        ensures
            *vector == [x, y, z],
            *final(v) == *final(vector),
    {
        *v = [x, y, z];
        v
    }

    pub fn copy<'a>(v: &'a mut [Scalar; 3], v2: &'a [Scalar; 3]) -> (vector: &'a mut [Scalar; 3])
        ensures
            *vector == *v2,
            *final(v) == *final(vector),
    {
        *v = *v2;
        v
    }
}

} // verus!

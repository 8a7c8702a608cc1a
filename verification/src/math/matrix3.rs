use crate::math::scalar::ONE;
use crate::math::scalar::Scalar;
use crate::math::scalar::ZERO;
use vstd::prelude::*;

verus! {

/// The three-by-three matrix that changes nothing, column by column.
pub const IDENTITY: [Scalar; 9] = [ONE, ZERO, ZERO, ZERO, ONE, ZERO, ZERO, ZERO, ONE];

/// Three-by-three matrices, column by column.
pub struct Matrix3 {}

impl Matrix3 {
    /// The identity.
    pub fn create() -> (m: [Scalar; 9])
        ensures
            m == IDENTITY,
    {
        IDENTITY
    }

    pub fn identity(m: &mut [Scalar; 9]) -> (matrix: &mut [Scalar; 9])
        ensures
            *matrix == IDENTITY,
            *final(m) == *final(matrix),
    {
        *m = IDENTITY;
        m
    }

    pub fn copy<'a>(m: &'a mut [Scalar; 9], src: &'a [Scalar; 9]) -> (matrix: &'a mut [Scalar; 9])
        ensures
            *matrix == *src,
            *final(m) == *final(matrix),
    {
        *m = *src;
        m
    }
}

} // verus!

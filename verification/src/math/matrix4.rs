use crate::math::scalar::ONE;
use crate::math::scalar::Scalar;
use crate::math::scalar::ZERO;
use vstd::prelude::*;

verus! {

/// The four-by-four matrix that changes nothing, column by column.
pub const IDENTITY: [Scalar; 16] = [
    ONE,
    ZERO,
    ZERO,
    ZERO,
    ZERO,
    ONE,
    ZERO,
    ZERO,
    ZERO,
    ZERO,
    ONE,
    ZERO,
    ZERO,
    ZERO,
    ZERO,
    ONE,
];

/// Four-by-four matrices, column by column.
pub struct Matrix4 {}

impl Matrix4 {
    /// The identity.
    pub fn create() -> (m: [Scalar; 16])
        ensures
            m == IDENTITY,
    {
        IDENTITY
    }

    pub fn identity(m: &mut [Scalar; 16]) -> (matrix: &mut [Scalar; 16])
        ensures
            *matrix == IDENTITY,
            *final(m) == *final(matrix),
    {
        *m = IDENTITY;
        m
    }

    pub fn copy<'a>(m: &'a mut [Scalar; 16], src: &'a [Scalar; 16]) -> (matrix: &'a mut [
        Scalar;
        16
    ])
        ensures
            *matrix == *src,
            *final(m) == *final(matrix),
    {
        *m = *src;
        m
    }

    /// Takes a matrix given row by row to the form column by column.
    pub fn set_from_2d_array<'a>(m: &'a mut [Scalar; 16], src: &'a [[Scalar; 4]; 4]) -> (matrix:
        &'a mut [Scalar; 16])
        ensures
            forall|i: int, j: int|
                0 <= i < 4 && 0 <= j < 4 ==> #[trigger] matrix[i * 4 + j] == src[j][i],
            *final(m) == *final(matrix),
    {
        let r0 = src[0];
        let r1 = src[1];
        let r2 = src[2];
        let r3 = src[3];
        *m = [
            r0[0],
            r1[0],
            r2[0],
            r3[0],
            r0[1],
            r1[1],
            r2[1],
            r3[1],
            r0[2],
            r1[2],
            r2[2],
            r3[2],
            r0[3],
            r1[3],
            r2[3],
            r3[3],
        ];
        m
    }
}

} // verus!

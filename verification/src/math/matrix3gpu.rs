use crate::math::scalar::ONE;
use crate::math::scalar::Scalar;
use crate::math::scalar::ZERO;
use vstd::prelude::*;

verus! {

/// The padded three-by-three matrix that changes nothing.
pub const IDENTITY: [Scalar; 12] = [
    ONE,
    ZERO,
    ZERO,
    ZERO,
    ZERO,
    ONE,
    ZERO,
    ZERO,
    ZERO,
    ZERO,
    ONE,
    ZERO,
];

/// The padded form of a three-by-three matrix: each column of three is
/// followed by a zero, so that every column starts at a multiple of four.
pub open spec fn padded(src: [Scalar; 9]) -> [Scalar; 12] {
    [
        src[0],
        src[1],
        src[2],
        ZERO,
        src[3],
        src[4],
        src[5],
        ZERO,
        src[6],
        src[7],
        src[8],
        ZERO,
    ]
}

/// Three-by-three matrices as buffers take them: column by column, each
/// column padded to four numbers.
pub struct Matrix3GPU {}

impl Matrix3GPU {
    /// The identity.
    pub fn create() -> (m: [Scalar; 12])
        ensures
            m == IDENTITY,
    {
        IDENTITY
    }

    pub fn identity(m: &mut [Scalar; 12]) -> (matrix: &mut [Scalar; 12])
        ensures
            *matrix == IDENTITY,
            *final(m) == *final(matrix),
    {
        *m = IDENTITY;
        m
    }

    pub fn copy<'a>(m: &'a mut [Scalar; 12], src: &'a [Scalar; 12]) -> (matrix: &'a mut [
        Scalar;
        12
    ])
        ensures
            *matrix == *src,
            *final(m) == *final(matrix),
    {
        *m = *src;
        m
    }

    /// Pads a three-by-three matrix.
    pub fn copy_from_matrix3<'a>(m: &'a mut [Scalar; 12], src: &'a [Scalar; 9]) -> (matrix: &'a mut [
        Scalar;
        12
    ])
        ensures
            *matrix == padded(*src),
            forall|column: int, row: int|
                0 <= column < 3 && 0 <= row < 3 ==> #[trigger] matrix[column * 4 + row]
                    == src[column * 3 + row],
            forall|column: int| 0 <= column < 3 ==> #[trigger] matrix[column * 4 + 3] == ZERO,
            *final(m) == *final(matrix),
    {
        *m = [
            src[0],
            src[1],
            src[2],
            ZERO,
            src[3],
            src[4],
            src[5],
            ZERO,
            src[6],
            src[7],
            src[8],
            ZERO,
        ];
        m
    }
}

} // verus!

use crate::math::scalar::Scalar;
use crate::math::scalar::ZERO;
use vstd::prelude::*;

verus! {

/// Colours of three components: red, green, blue.
pub struct Color {}

impl Color {
    /// Black.
    pub fn create() -> (c: [Scalar; 3])
        ensures
            c == [ZERO, ZERO, ZERO],
    {
        [ZERO, ZERO, ZERO]
    }

    pub fn set(c: &mut [Scalar; 3], r: Scalar, g: Scalar, b: Scalar) -> (color: &mut [Scalar; 3])
        ensures
            *color == [r, g, b],
            *final(c) == *final(color),
    {
        *c = [r, g, b];
        c
    }

    pub fn copy<'a>(c: &'a mut [Scalar; 3], c2: &'a [Scalar; 3]) -> (color: &'a mut [Scalar; 3])
        ensures
            *color == *c2,
            *final(c) == *final(color),
    {
        *c = *c2;
        c
    }
}

} // verus!

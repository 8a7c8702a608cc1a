use vstd::prelude::*;

verus! {

/// A single-precision number, carried as its IEEE 754 bit pattern.
///
/// The core stores such values, hands them on and lays them out in buffers;
/// it never computes with them. Arithmetic on them belongs to the caller.
pub type Scalar = u32;

/// The bit pattern of zero.
pub const ZERO: Scalar = 0;

/// The bit pattern of one.
pub const ONE: Scalar = 0x3f80_0000;

} // verus!

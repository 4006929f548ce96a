use vstd::prelude::*;

verus! {

/// An affine transformation: the twelve entries of a 3x4 matrix in the order
/// that 3MF writes them (column by column, the translation last).
///
/// Each entry is held as the IEEE 754 binary64 bit pattern of its value, so
/// that a transform is carried through the library exactly as it was given.
#[derive(Debug, Clone, Copy, PartialEq, Eq)]
pub struct Transform(pub [u64; 12]);

} // verus!

//! The ways a blur call can be rejected.

use vstd::prelude::*;

verus! {

/// Why a blur call was rejected. Every failure is a precondition violation
/// of the pure computation, never a transient fault, so no variant invites a
/// retry.
#[derive(Clone, Copy, Debug, PartialEq, Eq, Structural)]
pub enum BlurError {
    /// The parameter table is malformed: it holds no complete component
    /// record, or its records give the kernel family a normalization energy
    /// that is not finite and positive.
    Configuration,
    /// The pixel buffer, the stated width and height, the mask, and the
    /// kernel support do not agree with each other.
    Dimension,
    /// The gamma exponent is degenerate: encoding with it would not produce
    /// finite channel values.
    NumericDegeneracy,
}

} // verus!

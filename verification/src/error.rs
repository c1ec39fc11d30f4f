//! The failures the lattice reports to its callers.

use vstd::prelude::*;

verus! {

/// What went wrong in a lattice operation.
#[derive(Clone, Copy, Debug, PartialEq, Eq)]
pub enum MatrixError {
    /// A point lies outside the grid on an accessor that does not wrap.
    Overflow,
    /// The grids of a bundle do not share one shape.
    ShapeMismatch,
    /// A dimension cannot be represented in the integer type of the drawing surface.
    NumericConversionFailure,
}

impl MatrixError {
    /// The text shown for each failure.
    pub open spec fn message_spec(self) -> Seq<char> {
        match self {
            MatrixError::Overflow => "Overflow Image from Matrix"@,
            MatrixError::ShapeMismatch => "Matrices should have the same shape"@,
            MatrixError::NumericConversionFailure => "TryFromIntError out of range integral type conversion attempted"@,
        }
    }

    /// Renders the failure as text.
    pub fn message(&self) -> (text: String)
        ensures
            text@ == self.message_spec(),
    {
        match self {
            MatrixError::Overflow => "Overflow Image from Matrix".to_string(),
            MatrixError::ShapeMismatch => "Matrices should have the same shape".to_string(),
            MatrixError::NumericConversionFailure => "TryFromIntError out of range integral type conversion attempted".to_string(),
        }
    }
}

} // verus!

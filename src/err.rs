use vstd::prelude::*;

verus! {

/// The ways in which a command or a matrix operation can fail.
#[derive(Debug, Clone, Copy, PartialEq, Eq, Structural)]
pub enum MatrixError {
    NotPerfectSquare,
    UndefinedVariable,
    ParseError,
    ShapeMismatch,
    NotInvertible,
    NotSquare,
    /// Some eigenvalue of the matrix is not a real number.
    ComplexEigenvalues,
}

/// The name of an error, as it is shown.
pub open spec fn error_name(e: MatrixError) -> Seq<char> {
    match e {
        MatrixError::NotPerfectSquare => "NotPerfectSquare"@,
        MatrixError::UndefinedVariable => "UndefinedVariable"@,
        MatrixError::ParseError => "ParseError"@,
        MatrixError::ShapeMismatch => "ShapeMismatch"@,
        MatrixError::NotInvertible => "NotInvertible"@,
        MatrixError::NotSquare => "NotSquare"@,
        MatrixError::ComplexEigenvalues => "ComplexEigenvalues"@,
    }
}

impl MatrixError {
    /// The name of the error, as it is shown.
    pub fn name(&self) -> (r: &'static str)
        ensures
            r@ == error_name(*self),
    {
        match self {
            MatrixError::NotPerfectSquare => "NotPerfectSquare",
            MatrixError::UndefinedVariable => "UndefinedVariable",
            MatrixError::ParseError => "ParseError",
            MatrixError::ShapeMismatch => "ShapeMismatch",
            MatrixError::NotInvertible => "NotInvertible",
            MatrixError::NotSquare => "NotSquare",
            MatrixError::ComplexEigenvalues => "ComplexEigenvalues",
        }
    }
}

} // verus!

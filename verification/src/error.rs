//! Why an operation on matrices could not complete.

use vstd::prelude::*;
use vstd::string::*;

verus! {

/// The reason an arithmetic operation was refused.
#[derive(Debug, Clone, Copy, PartialEq, Eq, Structural)]
pub enum MatrixError {
    /// The first matrix has no rows.
    EmptyMatrix,
    /// A matrix is ragged, or the second matrix does not have the shape
    /// that the operation calls for.
    DimensionMismatch,
    /// The column count given for the second factor is not a positive number.
    InvalidInput,
}

/// The message shown when `operation` could not be carried out because of
/// `error`. `operation` is the name of the operation, such as `addition`.
pub fn error_message(operation: &str, error: MatrixError) -> (r: String)
    ensures
        r@ == match error {
            MatrixError::EmptyMatrix => "Error: Cannot perform "@ + operation@
                + " with empty matrices!"@,
            MatrixError::DimensionMismatch => "Error: Matrix dimensions don't match for "@
                + operation@ + "!"@,
            MatrixError::InvalidInput => "Error: Invalid input provided for "@ + operation@
                + "!"@,
        },
{
    let (before, after) = match error {
        MatrixError::EmptyMatrix => ("Error: Cannot perform ", " with empty matrices!"),
        MatrixError::DimensionMismatch => ("Error: Matrix dimensions don't match for ", "!"),
        MatrixError::InvalidInput => ("Error: Invalid input provided for ", "!"),
    };
    let mut message = String::from_str(before);
    message.append(operation);
    message.append(after);
    message
}

} // verus!

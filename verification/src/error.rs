//! The errors of column operations.
use vstd::prelude::*;

use crate::datatypes::{DataType, IdxSize};

verus! {

/// The errors of the columnar-format library; Verus sees nothing inside one.
#[verifier::external_type_specification]
#[verifier::external_body]
pub struct ExArrowError(arrow2::error::Error);

/// An operation that a column type may not support.
#[derive(Copy, Clone, Debug, PartialEq, Eq, Structural)]
pub enum Operation {
    ToList,
    RollingApply,
    Mode,
    ArgSortMultiple,
    IsFirst,
    IsLast,
}

/// Why an operation on columns failed.
#[derive(Debug)]
pub enum PolarsError {
    /// The operation is not supported for columns of this type.
    InvalidOperation { op: Operation, dtype: DataType },
    /// An index at or past the end of a column.
    OutOfBounds { index: IdxSize, len: usize },
    /// Two lengths that had to agree do not.
    ShapeMismatch { left: usize, right: usize },
    /// A column too long for each of its positions to be an index value.
    IndexOverflow { len: usize },
    /// Lists with more values in all than an offset can count.
    OffsetOverflow,
    /// An error of the columnar-format library.
    ArrowError(arrow2::error::Error),
}

/// The result of an operation on columns.
pub type PolarsResult<T> = Result<T, PolarsError>;

} // verus!

use vstd::prelude::*;

use crate::types::DType;

verus! {

/// Everything that can go wrong in addressing, decoding, encoding and the
/// batch operations.
#[derive(Clone, Debug)]
pub enum Error {
    /// A textual cell address that does not match `[A-Z]+[1-9][0-9]*`.
    InvalidAddress(String),
    /// A strict decode met an empty or missing cell.
    EmptyCell,
    /// A strict decode met a cell whose value does not convert to the kind;
    /// the text gives the cell's value.
    CellTypeMismatch(DType, String),
    /// No supported kind could be extracted from a value to write.
    UnsupportedValueType,
    /// A value's dimensionality does not match the write operation.
    ShapeMismatch,
    /// Two worksheets of one workbook share a title.
    DuplicateTitle(String),
    /// No worksheet with the given name or at the given index.
    WorksheetNotFound,
    /// A row or column index beyond what a worksheet can address.
    IndexOutOfRange,
    /// The workbook at a path could not be opened or read.
    OpenError(String),
    /// A workbook could not be saved.
    IoError(String),
    /// The worksheet refused a write.
    WriteFailed(String),
}

} // verus!

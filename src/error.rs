//! What can go wrong while building, binding or running statements.
use vstd::prelude::*;

verus! {

/// Why a batch of rows, or an insert or update built from one, is malformed.
#[derive(Clone, Debug, PartialEq, Eq)]
pub enum BatchFault {
    /// A row holds `got` cells where the batch has `expected` columns.
    WrongWidth { expected: usize, got: usize },
    /// A row names this column twice, or the column already exists.
    DuplicateColumn(String),
    /// A row supplies no cell for this column.
    MissingColumn(String),
    /// The batch has no column of this name.
    UnknownColumn(String),
    /// There is no row with this index.
    NoSuchRow(usize),
    /// A step that inserts a batch was given none.
    NoBatch,
    /// An insert was asked of a batch without columns.
    NoColumns,
    /// An insert was asked of a batch without rows.
    NoRows,
    /// An update was asked to set no column.
    EmptySet,
}

/// The failures of this library; none of them is retried.
#[derive(Clone, Debug, PartialEq, Eq)]
pub enum SqlError {
    /// A tag of the statement has no entry in the parameter map.
    MissingParameter(String),
    /// The batch, or the statement built from it, is malformed.
    MalformedBatch(BatchFault),
    /// A tag asks for text substitution of a binary value, or for binding of
    /// a value that is not binary.
    BindingRejected(String),
    /// A step that publishes an identity got no row back.
    NoRowsReturned,
    /// A column type name that stands for no column kind.
    UnknownColumnType(String),
    /// The driver failed; its message, unchanged.
    DriverError(String),
}

} // verus!

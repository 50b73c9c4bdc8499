//! Options and errors of building tables of borrowed columns.
use vstd::prelude::*;

verus! {

/// Options for building a table.
#[derive(Debug, Clone, Copy, PartialEq, Eq, Structural)]
pub struct TableOptions {
    /// The number of rows the table has; needed for a table without
    /// columns, checked against the columns otherwise.
    pub row_count: Option<usize>,
}

impl TableOptions {
    /// Options with the given row count.
    pub fn new(row_count: Option<usize>) -> (o: TableOptions)
        ensures
            o.row_count == row_count,
    {
        TableOptions { row_count }
    }
}

impl Default for TableOptions {
    /// No row count given.
    fn default() -> (o: TableOptions)
        ensures
            o.row_count is None,
    {
        TableOptions { row_count: None }
    }
}

/// Errors from building a table.
#[derive(Debug, Clone, Copy, PartialEq, Eq, Structural)]
pub enum TableError {
    /// The columns have different lengths.
    ColumnLengthMismatch,
    /// A column's length differs from the row count given.
    ColumnLengthMismatchWithSpecifiedRowCount,
    /// The table has no columns and no row count was given.
    EmptyTableWithoutSpecifiedRowCount,
}

/// The message of each error.
pub open spec fn table_error_message(e: TableError) -> Seq<char> {
    match e {
        TableError::ColumnLengthMismatch => "Columns have different lengths"@,
        TableError::ColumnLengthMismatchWithSpecifiedRowCount =>
            "Column has length different from the provided row count"@,
        TableError::EmptyTableWithoutSpecifiedRowCount => "Table is empty and no row count is specified"@,
    }
}

impl TableError {
    /// The error's message.
    pub fn to_string(&self) -> (s: String)
        ensures
            s@ == table_error_message(*self),
    {
        match self {
            TableError::ColumnLengthMismatch => String::from_str("Columns have different lengths"),
            TableError::ColumnLengthMismatchWithSpecifiedRowCount =>
                String::from_str("Column has length different from the provided row count"),
            TableError::EmptyTableWithoutSpecifiedRowCount =>
                String::from_str("Table is empty and no row count is specified"),
        }
    }
}

} // verus!

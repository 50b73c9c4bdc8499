//! Errors of operations on tables.
use vstd::prelude::*;
use crate::column_field::ColumnField;
use crate::column_operation_error::ColumnOperationError;
use crate::column_type::ColumnType;
use crate::text::{nat_digits, push, string_of, u64_to_string};
use sqlparser::ast::Ident;

verus! {

/// The text the derived `Debug` of `sqlparser::ast::Ident` gives for a name.
pub uninterp spec fn ident_debug(id: Ident) -> Seq<char>;

/// Renders a name as `Debug` shows it. Calls the derived `Debug` of
/// `sqlparser::ast::Ident` through `format!`, whose text depends on the
/// name alone; it is named `ident_debug`.
#[verifier::external_body]
fn debug_ident(id: &Ident) -> (s: String)
    ensures
        s@ == ident_debug(*id),
{
    format!("{:?}", id)
}

/// A field as `Debug` shows it in a schema: its name and its type.
pub open spec fn field_debug(f: ColumnField) -> Seq<char> {
    "ColumnField { name: "@ + ident_debug(f.spec_name()) + ", data_type: "@ + f.spec_data_type().spec_debug_name() + " }"@
}

/// The first `n` fields as `Debug` shows them, separated by commas.
pub open spec fn fields_debug(fields: Seq<ColumnField>, n: nat) -> Seq<char>
    decreases n,
{
    if n == 0 {
        Seq::empty()
    } else if n == 1 {
        field_debug(fields[0])
    } else {
        fields_debug(fields, (n - 1) as nat) + ", "@ + field_debug(fields[n - 1])
    }
}

/// A schema as `Debug` shows a list of fields.
pub open spec fn schema_debug_text(fields: Seq<ColumnField>) -> Seq<char> {
    "["@ + fields_debug(fields, fields.len()) + "]"@
}

/// Errors of operations on tables.
#[derive(Debug, PartialEq, Eq)]
pub enum TableOperationError {
    /// Tables with different schemas cannot be united.
    UnionIncompatibleSchemas {
        /// The schema of the first table.
        correct_schema: Vec<ColumnField>,
        /// The schema that differs from it.
        actual_schema: Vec<ColumnField>,
    },
    /// A union needs at least two tables.
    UnionNotEnoughTables,
    /// Tables joined on columns must join on as many columns on each side.
    JoinWithDifferentNumberOfColumns {
        /// The number of columns on the left.
        left_num_columns: usize,
        /// The number of columns on the right.
        right_num_columns: usize,
    },
    /// Columns joined on must have the same type.
    JoinIncompatibleTypes {
        /// The type on the left.
        left_type: ColumnType,
        /// The type on the right.
        right_type: ColumnType,
    },
    /// A column is not in the table.
    ColumnDoesNotExist {
        /// The name looked for.
        column_ident: Ident,
    },
    /// A column appears twice.
    DuplicateColumn,
    /// A column index is past the last column.
    ColumnIndexOutOfBounds {
        /// The index asked for.
        column_index: usize,
    },
    /// An error of an operation on columns.
    ColumnOperationError {
        /// The error of the column operation.
        source: ColumnOperationError,
    },
}

/// The result of an operation on tables.
pub type TableOperationResult<T> = Result<T, TableOperationError>;

impl TableOperationError {
    /// The error's message.
    pub open spec fn spec_message(&self) -> Seq<char> {
        match self {
            TableOperationError::UnionNotEnoughTables => "Cannot union fewer than 2 tables"@,
            TableOperationError::JoinWithDifferentNumberOfColumns { left_num_columns, right_num_columns } =>
                "Cannot join tables with different number of columns: "@ + nat_digits(*left_num_columns as nat)
                    + " and "@ + nat_digits(*right_num_columns as nat),
            TableOperationError::JoinIncompatibleTypes { left_type, right_type } =>
                "Cannot join tables with different column types: "@ + left_type.spec_debug_name() + " and "@
                    + right_type.spec_debug_name(),
            TableOperationError::DuplicateColumn => "Some column is duplicated"@,
            TableOperationError::ColumnIndexOutOfBounds { column_index } =>
                "Column index out of bounds: "@ + nat_digits(*column_index as nat),
            TableOperationError::ColumnOperationError { source } => source.spec_message(),
            TableOperationError::UnionIncompatibleSchemas { correct_schema, actual_schema } =>
                "Cannot union tables with incompatible schemas: "@ + schema_debug_text(correct_schema@) + " and "@
                    + schema_debug_text(actual_schema@),
            TableOperationError::ColumnDoesNotExist { column_ident } =>
                "Column "@ + ident_debug(*column_ident) + " does not exist"@,
        }
    }

    /// The error's message; names are shown as their `Debug` forms.
    pub fn to_string(&self) -> (s: String)
        ensures
            s@ == self.spec_message(),
    {
        match self {
            TableOperationError::UnionIncompatibleSchemas { correct_schema, actual_schema } => {
                let mut s = string_of("Cannot union tables with incompatible schemas: ");
                let a = schema_debug(correct_schema.as_slice());
                push(&mut s, a.as_str());
                push(&mut s, " and ");
                let b = schema_debug(actual_schema.as_slice());
                push(&mut s, b.as_str());
                s
            },
            TableOperationError::UnionNotEnoughTables => string_of("Cannot union fewer than 2 tables"),
            TableOperationError::JoinWithDifferentNumberOfColumns { left_num_columns, right_num_columns } => {
                let mut s = string_of("Cannot join tables with different number of columns: ");
                let a = u64_to_string(*left_num_columns as u64);
                push(&mut s, a.as_str());
                push(&mut s, " and ");
                let b = u64_to_string(*right_num_columns as u64);
                push(&mut s, b.as_str());
                s
            },
            TableOperationError::JoinIncompatibleTypes { left_type, right_type } => {
                let mut s = string_of("Cannot join tables with different column types: ");
                let a = left_type.debug_name();
                push(&mut s, a.as_str());
                push(&mut s, " and ");
                let b = right_type.debug_name();
                push(&mut s, b.as_str());
                s
            },
            TableOperationError::ColumnDoesNotExist { column_ident } => {
                let mut s = string_of("Column ");
                let a = debug_ident(column_ident);
                push(&mut s, a.as_str());
                push(&mut s, " does not exist");
                s
            },
            TableOperationError::DuplicateColumn => string_of("Some column is duplicated"),
            TableOperationError::ColumnIndexOutOfBounds { column_index } => {
                let mut s = string_of("Column index out of bounds: ");
                let a = u64_to_string(*column_index as u64);
                push(&mut s, a.as_str());
                s
            },
            TableOperationError::ColumnOperationError { source } => source.to_string(),
        }
    }
}

/// A schema as `Debug` shows a list of fields.
fn schema_debug(fields: &[ColumnField]) -> (s: String)
    ensures
        s@ == schema_debug_text(fields@),
{
    let mut s = string_of("[");
    let ghost head = s@;
    let mut i: usize = 0;
    while i < fields.len()
        invariant
            i <= fields@.len(),
            head == "["@,
            s@ == head + fields_debug(fields@, i as nat),
        decreases fields@.len() - i,
    {
        let ghost before = s@;
        if i > 0 {
            push(&mut s, ", ");
        }
        push(&mut s, "ColumnField { name: ");
        let n = fields[i].name();
        let d = debug_ident(&n);
        push(&mut s, d.as_str());
        push(&mut s, ", data_type: ");
        let t = fields[i].data_type().debug_name();
        push(&mut s, t.as_str());
        push(&mut s, " }");
        proof {
            if i == 0 {
                assert(s@ =~= head + fields_debug(fields@, 1));
            } else {
                assert(s@ =~= head + fields_debug(fields@, (i + 1) as nat));
            }
        }
        i = i + 1;
    }
    push(&mut s, "]");
    s
}

} // verus!

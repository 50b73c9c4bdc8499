//! The value of an evaluated expression: a column, or a literal of
//! unspecified length.
use vstd::prelude::*;
use crate::column::Column;
use crate::column_type::ColumnType;
use crate::literal_value::LiteralValue;
use crate::text::{nat_digits, push, string_of, u64_to_string};

verus! {

/// The value of an evaluated expression.
#[derive(Debug, Eq, PartialEq, Clone)]
pub enum ColumnarValue<'a> {
    /// A list of values.
    Column(Column<'a>),
    /// A single value standing for as many rows as needed.
    Literal(LiteralValue),
}

/// The errors of columnar values.
#[derive(Debug, PartialEq, Eq)]
pub enum ColumnarValueError {
    /// A column was asked for with a length other than its own.
    ColumnLengthMismatch {
        /// The length of the column.
        columnar_value_length: usize,
        /// The length asked for.
        attempt_to_convert_length: usize,
    },
}

impl ColumnarValueError {
    /// The error's message, which names both lengths.
    pub open spec fn spec_message(&self) -> Seq<char> {
        match self {
            ColumnarValueError::ColumnLengthMismatch { columnar_value_length, attempt_to_convert_length } =>
                "Column length mismatch: the column has "@ + nat_digits(*columnar_value_length as nat)
                    + " rows, not "@ + nat_digits(*attempt_to_convert_length as nat),
        }
    }

    /// The error's message.
    pub fn to_string(&self) -> (s: String)
        ensures
            s@ == self.spec_message(),
    {
        match self {
            ColumnarValueError::ColumnLengthMismatch { columnar_value_length, attempt_to_convert_length } => {
                let mut s = string_of("Column length mismatch: the column has ");
                let a = u64_to_string(*columnar_value_length as u64);
                push(&mut s, a.as_str());
                push(&mut s, " rows, not ");
                let b = u64_to_string(*attempt_to_convert_length as u64);
                push(&mut s, b.as_str());
                s
            },
        }
    }
}

impl<'a> ColumnarValue<'a> {
    /// The type of the values.
    pub open spec fn spec_column_type(&self) -> ColumnType {
        match self {
            ColumnarValue::Column(c) => c.spec_column_type(),
            ColumnarValue::Literal(l) => l.spec_column_type(),
        }
    }

    /// The type of the values.
    pub fn column_type(&self) -> (t: ColumnType)
        ensures
            t == self.spec_column_type(),
    {
        match self {
            ColumnarValue::Column(c) => c.column_type(),
            ColumnarValue::Literal(l) => l.column_type(),
        }
    }

    /// The value as a column of `num_rows` rows: a column only when it has
    /// that many rows; a literal repeated that many times.
    pub fn into_column(&self, num_rows: usize, alloc: &'a bumpalo::Bump) -> (res: Result<Column<'a>, ColumnarValueError>)
        ensures
            match self {
                ColumnarValue::Column(c) => if c.spec_len() == num_rows {
                    res == Ok::<Column<'a>, ColumnarValueError>(*c)
                } else {
                    res == Err::<Column<'a>, ColumnarValueError>(ColumnarValueError::ColumnLengthMismatch {
                        columnar_value_length: c.spec_len() as usize,
                        attempt_to_convert_length: num_rows,
                    })
                },
                ColumnarValue::Literal(l) => res matches Ok(c) && c.repeats_literal(*l, num_rows as nat),
            },
    {
        match self {
            ColumnarValue::Column(c) => {
                if c.len() == num_rows {
                    Ok(*c)
                } else {
                    Err(ColumnarValueError::ColumnLengthMismatch {
                        columnar_value_length: c.len(),
                        attempt_to_convert_length: num_rows,
                    })
                }
            },
            ColumnarValue::Literal(l) => Ok(Column::from_literal_with_length(l, num_rows, alloc)),
        }
    }
}

} // verus!

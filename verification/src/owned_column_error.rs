//! Errors of owned columns.
use vstd::prelude::*;
use crate::column_type::ColumnType;
use crate::text::{push, string_of};

verus! {

/// Errors of operations on owned columns.
#[derive(Debug, PartialEq, Eq)]
pub enum OwnedColumnError {
    /// A column cannot be cast to another type.
    TypeCastError {
        /// The type cast from.
        from_type: ColumnType,
        /// The type cast to.
        to_type: ColumnType,
    },
    /// Scalars cannot be read as values of a column type.
    ScalarConversionError {
        /// What went wrong.
        error: String,
    },
    /// The operation is not supported.
    Unsupported {
        /// What was asked for.
        error: String,
    },
}

impl OwnedColumnError {
    /// The error's message.
    pub open spec fn spec_message(&self) -> Seq<char> {
        match self {
            OwnedColumnError::TypeCastError { from_type, to_type } =>
                "Can not perform type casting from "@ + from_type.spec_debug_name() + " to "@
                    + to_type.spec_debug_name(),
            OwnedColumnError::ScalarConversionError { error } =>
                "Error in converting scalars to a given column type: "@ + error@,
            OwnedColumnError::Unsupported { error } => "Unsupported operation: "@ + error@,
        }
    }

    /// The error's message.
    pub fn to_string(&self) -> (s: String)
        ensures
            s@ == self.spec_message(),
    {
        match self {
            OwnedColumnError::TypeCastError { from_type, to_type } => {
                let mut s = string_of("Can not perform type casting from ");
                let f = from_type.debug_name();
                push(&mut s, f.as_str());
                push(&mut s, " to ");
                let t = to_type.debug_name();
                push(&mut s, t.as_str());
                s
            },
            OwnedColumnError::ScalarConversionError { error } => {
                let mut s = string_of("Error in converting scalars to a given column type: ");
                push(&mut s, error.as_str());
                s
            },
            OwnedColumnError::Unsupported { error } => {
                let mut s = string_of("Unsupported operation: ");
                push(&mut s, error.as_str());
                s
            },
        }
    }
}

/// The result of an operation on owned columns.
pub type OwnedColumnResult<T> = Result<T, OwnedColumnError>;

/// Errors of coercing a column to another type.
#[derive(Debug, Clone, Copy, PartialEq, Eq, Structural)]
pub enum ColumnCoercionError {
    /// A value does not fit into the target type.
    Overflow,
    /// The types cannot be coerced.
    InvalidTypeCoercion,
}

impl ColumnCoercionError {
    /// The error's message.
    pub open spec fn spec_message(&self) -> Seq<char> {
        match self {
            ColumnCoercionError::Overflow => "Overflow when coercing a column"@,
            ColumnCoercionError::InvalidTypeCoercion => "Invalid type coercion"@,
        }
    }

    /// The error's message.
    pub fn to_string(&self) -> (s: String)
        ensures
            s@ == self.spec_message(),
    {
        match self {
            ColumnCoercionError::Overflow => string_of("Overflow when coercing a column"),
            ColumnCoercionError::InvalidTypeCoercion => string_of("Invalid type coercion"),
        }
    }
}

} // verus!

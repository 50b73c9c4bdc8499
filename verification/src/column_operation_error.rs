//! Errors of operations on columns.
use vstd::prelude::*;
use crate::column_type::ColumnType;
use crate::math::DecimalError;
use crate::text::{push, string_of, u64_to_string, nat_digits, debug_str, debug_quoted};

verus! {

/// Errors from operations on columns.
#[derive(Debug, PartialEq, Eq)]
pub enum ColumnOperationError {
    /// Two columns do not have the same length.
    DifferentColumnLength {
        /// The length of the first column.
        len_a: usize,
        /// The length of the second column.
        len_b: usize,
    },
    /// A binary operation does not accept the operands' types.
    BinaryOperationInvalidColumnType {
        /// The operator.
        operator: String,
        /// The type of the left operand.
        left_type: ColumnType,
        /// The type of the right operand.
        right_type: ColumnType,
    },
    /// A unary operation does not accept the operand's type.
    UnaryOperationInvalidColumnType {
        /// The operator.
        operator: String,
        /// The type of the operand.
        operand_type: ColumnType,
    },
    /// An integer operation overflowed.
    IntegerOverflow {
        /// What overflowed.
        error: String,
    },
    /// A division by zero.
    DivisionByZero,
    /// A decimal type could not be formed.
    DecimalConversionError {
        /// The decimal error.
        source: DecimalError,
    },
    /// Columns of different types were to be unioned.
    UnionDifferentTypes {
        /// The expected type.
        correct_type: ColumnType,
        /// The type found.
        actual_type: ColumnType,
    },
    /// An index lies outside a column.
    IndexOutOfBounds {
        /// The index.
        index: usize,
        /// The length of the column.
        len: usize,
    },
    /// A signed and an unsigned type cannot be combined without a check that
    /// is not supported.
    SignedCastingError {
        /// The left type.
        left_type: ColumnType,
        /// The right type.
        right_type: ColumnType,
    },
    /// A cast between two types would lose data.
    CastingError {
        /// The left type.
        left_type: ColumnType,
        /// The right type.
        right_type: ColumnType,
    },
    /// A cast with scaling between two types would lose data.
    ScaleCastingError {
        /// The left type.
        left_type: ColumnType,
        /// The right type.
        right_type: ColumnType,
    },
    /// A column was not found.
    ColumnNotFound {
        /// The column's name.
        column_name: String,
    },
    /// A cast between two types is not valid.
    InvalidCast {
        /// The source type.
        from_type: ColumnType,
        /// The target type.
        to_type: ColumnType,
    },
}

/// The result of an operation on columns.
pub type ColumnOperationResult<T> = Result<T, ColumnOperationError>;

impl DecimalError {
    /// The error's message.
    pub open spec fn spec_message(&self) -> Seq<char> {
        match self {
            DecimalError::InvalidPrecision { error } => "Decimal precision is not valid: "@ + error@,
            DecimalError::InvalidScale { scale } => "Decimal scale is not valid: "@ + scale@,
        }
    }

    /// The error's message.
    pub fn to_string(&self) -> (s: String)
        ensures
            s@ == self.spec_message(),
    {
        match self {
            DecimalError::InvalidPrecision { error } => {
                let mut s = string_of("Decimal precision is not valid: ");
                push(&mut s, error.as_str());
                s
            },
            DecimalError::InvalidScale { scale } => {
                let mut s = string_of("Decimal scale is not valid: ");
                push(&mut s, scale.as_str());
                s
            },
        }
    }
}

/// `Cannot fit <left> into <right> without losing data`, with the types
/// named as they display.
pub open spec fn cannot_fit(l: ColumnType, r: ColumnType) -> Seq<char> {
    "Cannot fit "@ + l.spec_display() + " into "@ + r.spec_display() + " without losing data"@
}

fn cannot_fit_message(l: &ColumnType, r: &ColumnType) -> (s: String)
    ensures
        s@ == cannot_fit(*l, *r),
{
    let mut s = string_of("Cannot fit ");
    let ls = l.to_string();
    push(&mut s, ls.as_str());
    push(&mut s, " into ");
    let rs = r.to_string();
    push(&mut s, rs.as_str());
    push(&mut s, " without losing data");
    s
}

impl ColumnOperationError {
    /// The error's message.
    pub open spec fn spec_message(&self) -> Seq<char> {
        match self {
            ColumnOperationError::DifferentColumnLength { len_a, len_b } =>
                "Columns have different lengths: "@ + nat_digits(*len_a as nat) + " != "@
                    + nat_digits(*len_b as nat),
            ColumnOperationError::BinaryOperationInvalidColumnType { operator, left_type, right_type } =>
                debug_quoted(operator@) + "(lhs: "@ + left_type.spec_debug_name() + ", rhs: "@
                    + right_type.spec_debug_name() + ") is not supported"@,
            ColumnOperationError::UnaryOperationInvalidColumnType { operator, operand_type } =>
                debug_quoted(operator@) + "(operand: "@ + operand_type.spec_debug_name()
                    + ") is not supported"@,
            ColumnOperationError::IntegerOverflow { error } =>
                "Overflow in integer operation: "@ + error@,
            ColumnOperationError::DivisionByZero => "Division by zero"@,
            ColumnOperationError::DecimalConversionError { source } => source.spec_message(),
            ColumnOperationError::UnionDifferentTypes { correct_type, actual_type } =>
                "Cannot union columns of different types: "@ + correct_type.spec_debug_name()
                    + " and "@ + actual_type.spec_debug_name(),
            ColumnOperationError::IndexOutOfBounds { index, len } =>
                "Index out of bounds: "@ + nat_digits(*index as nat) + " >= "@ + nat_digits(*len as nat),
            ColumnOperationError::SignedCastingError { left_type, right_type } =>
                cannot_fit(*left_type, *right_type),
            ColumnOperationError::CastingError { left_type, right_type } =>
                cannot_fit(*left_type, *right_type),
            ColumnOperationError::ScaleCastingError { left_type, right_type } =>
                cannot_fit(*left_type, *right_type),
            ColumnOperationError::ColumnNotFound { column_name } =>
                "Column not found: "@ + column_name@,
            ColumnOperationError::InvalidCast { from_type, to_type } =>
                "Invalid cast from "@ + from_type.spec_display() + " to "@ + to_type.spec_display(),
        }
    }

    /// The error's message.
    pub fn to_string(&self) -> (s: String)
        ensures
            s@ == self.spec_message(),
    {
        match self {
            ColumnOperationError::DifferentColumnLength { len_a, len_b } => {
                let mut s = string_of("Columns have different lengths: ");
                let a = u64_to_string(*len_a as u64);
                push(&mut s, a.as_str());
                push(&mut s, " != ");
                let b = u64_to_string(*len_b as u64);
                push(&mut s, b.as_str());
                s
            },
            ColumnOperationError::BinaryOperationInvalidColumnType { operator, left_type, right_type } => {
                let mut s = debug_str(operator.as_str());
                push(&mut s, "(lhs: ");
                let l = left_type.debug_name();
                push(&mut s, l.as_str());
                push(&mut s, ", rhs: ");
                let r = right_type.debug_name();
                push(&mut s, r.as_str());
                push(&mut s, ") is not supported");
                s
            },
            ColumnOperationError::UnaryOperationInvalidColumnType { operator, operand_type } => {
                let mut s = debug_str(operator.as_str());
                push(&mut s, "(operand: ");
                let t = operand_type.debug_name();
                push(&mut s, t.as_str());
                push(&mut s, ") is not supported");
                s
            },
            ColumnOperationError::IntegerOverflow { error } => {
                let mut s = string_of("Overflow in integer operation: ");
                push(&mut s, error.as_str());
                s
            },
            ColumnOperationError::DivisionByZero => string_of("Division by zero"),
            ColumnOperationError::DecimalConversionError { source } => source.to_string(),
            ColumnOperationError::UnionDifferentTypes { correct_type, actual_type } => {
                let mut s = string_of("Cannot union columns of different types: ");
                let c = correct_type.debug_name();
                push(&mut s, c.as_str());
                push(&mut s, " and ");
                let a = actual_type.debug_name();
                push(&mut s, a.as_str());
                s
            },
            ColumnOperationError::IndexOutOfBounds { index, len } => {
                let mut s = string_of("Index out of bounds: ");
                let i = u64_to_string(*index as u64);
                push(&mut s, i.as_str());
                push(&mut s, " >= ");
                let l = u64_to_string(*len as u64);
                push(&mut s, l.as_str());
                s
            },
            ColumnOperationError::SignedCastingError { left_type, right_type } =>
                cannot_fit_message(left_type, right_type),
            ColumnOperationError::CastingError { left_type, right_type } =>
                cannot_fit_message(left_type, right_type),
            ColumnOperationError::ScaleCastingError { left_type, right_type } =>
                cannot_fit_message(left_type, right_type),
            ColumnOperationError::ColumnNotFound { column_name } => {
                let mut s = string_of("Column not found: ");
                push(&mut s, column_name.as_str());
                s
            },
            ColumnOperationError::InvalidCast { from_type, to_type } => {
                let mut s = string_of("Invalid cast from ");
                let f = from_type.to_string();
                push(&mut s, f.as_str());
                push(&mut s, " to ");
                let t = to_type.to_string();
                push(&mut s, t.as_str());
                s
            },
        }
    }
}

} // verus!

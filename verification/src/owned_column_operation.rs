//! Element-wise operations on owned columns.
use vstd::prelude::*;
use crate::column_arithmetic_operation::{ArithmeticOp, AddOp, DivOp, MulOp, SubOp, arithmetic_result_is};
use crate::column_comparison_operation::{
    ComparisonOp, EqualOp, GreaterThanOp, LessThanOp, bool_column_is, comparison_result_is, length_error,
};
use crate::column_operation_error::{ColumnOperationError, ColumnOperationResult};
use crate::owned_column::OwnedColumn;
use crate::slice_operation::{ArithKind, Relation, slice_and_or, slice_not};
use crate::text::string_of;

verus! {

/// What a boolean operation (`and` selects conjunction, else disjunction)
/// gives on two owned columns: a length error for columns of different
/// lengths; the booleans combined pair by pair for two boolean columns;
/// else an error naming the operator and both types.
pub open spec fn boolean_result_is(
    and: bool,
    lhs: OwnedColumn,
    rhs: OwnedColumn,
    res: ColumnOperationResult<OwnedColumn>,
) -> bool {
    if lhs.spec_len() != rhs.spec_len() {
        res == Err::<OwnedColumn, ColumnOperationError>(length_error(lhs.spec_len(), rhs.spec_len()))
    } else {
        match (lhs, rhs) {
            (OwnedColumn::Boolean(l), OwnedColumn::Boolean(r)) => bool_column_is(res, l@.len(),
                |i: int| if and { l@[i] && r@[i] } else { l@[i] || r@[i] }),
            _ => res matches Err(ColumnOperationError::BinaryOperationInvalidColumnType {
                operator, left_type, right_type })
                && operator@ == (if and { "AND"@ } else { "OR"@ })
                && left_type == lhs.spec_column_type() && right_type == rhs.spec_column_type(),
        }
    }
}

impl OwnedColumn {
    /// The negation of each value of a boolean column.
    pub fn element_wise_not(&self) -> (res: ColumnOperationResult<OwnedColumn>)
        ensures
            match self {
                OwnedColumn::Boolean(v) => bool_column_is(res, v@.len(), |i: int| !v@[i]),
                _ => res matches Err(ColumnOperationError::UnaryOperationInvalidColumnType {
                    operator, operand_type }) && operator@ == "NOT"@ && operand_type == self.spec_column_type(),
            },
    {
        match self {
            OwnedColumn::Boolean(v) => Ok(OwnedColumn::Boolean(slice_not(v.as_slice()))),
            _ => Err(ColumnOperationError::UnaryOperationInvalidColumnType {
                operator: string_of("NOT"),
                operand_type: self.column_type(),
            }),
        }
    }

    fn element_wise_and_or(&self, rhs: &OwnedColumn, and: bool) -> (res: ColumnOperationResult<OwnedColumn>)
        ensures
            boolean_result_is(and, *self, *rhs, res),
    {
        if self.len() != rhs.len() {
            return Err(ColumnOperationError::DifferentColumnLength { len_a: self.len(), len_b: rhs.len() });
        }
        match (self, rhs) {
            (OwnedColumn::Boolean(l), OwnedColumn::Boolean(r)) =>
                Ok(OwnedColumn::Boolean(slice_and_or(l.as_slice(), r.as_slice(), and))),
            _ => Err(ColumnOperationError::BinaryOperationInvalidColumnType {
                operator: if and { string_of("AND") } else { string_of("OR") },
                left_type: self.column_type(),
                right_type: rhs.column_type(),
            }),
        }
    }

    /// The conjunction of the pairs of two boolean columns.
    pub fn element_wise_and(&self, rhs: &OwnedColumn) -> (res: ColumnOperationResult<OwnedColumn>)
        ensures
            boolean_result_is(true, *self, *rhs, res),
    {
        self.element_wise_and_or(rhs, true)
    }

    /// The disjunction of the pairs of two boolean columns.
    pub fn element_wise_or(&self, rhs: &OwnedColumn) -> (res: ColumnOperationResult<OwnedColumn>)
        ensures
            boolean_result_is(false, *self, *rhs, res),
    {
        self.element_wise_and_or(rhs, false)
    }

    /// Whether the values of each pair are equal.
    pub fn element_wise_eq(&self, rhs: &OwnedColumn) -> (res: ColumnOperationResult<OwnedColumn>)
        ensures
            comparison_result_is(Relation::Eq, *self, *rhs, res),
    {
        EqualOp::owned_column_element_wise_comparison(self, rhs)
    }

    /// Whether the left value of each pair is below the right one.
    pub fn element_wise_lt(&self, rhs: &OwnedColumn) -> (res: ColumnOperationResult<OwnedColumn>)
        ensures
            comparison_result_is(Relation::Lt, *self, *rhs, res),
    {
        LessThanOp::owned_column_element_wise_comparison(self, rhs)
    }

    /// Whether the left value of each pair is above the right one.
    pub fn element_wise_gt(&self, rhs: &OwnedColumn) -> (res: ColumnOperationResult<OwnedColumn>)
        ensures
            comparison_result_is(Relation::Gt, *self, *rhs, res),
    {
        GreaterThanOp::owned_column_element_wise_comparison(self, rhs)
    }

    /// The sum of each pair.
    pub fn element_wise_add(&self, rhs: &OwnedColumn) -> (res: ColumnOperationResult<OwnedColumn>)
        ensures
            arithmetic_result_is(ArithKind::Add, *self, *rhs, res),
    {
        AddOp::owned_column_element_wise_arithmetic(self, rhs)
    }

    /// The difference of each pair.
    pub fn element_wise_sub(&self, rhs: &OwnedColumn) -> (res: ColumnOperationResult<OwnedColumn>)
        ensures
            arithmetic_result_is(ArithKind::Sub, *self, *rhs, res),
    {
        SubOp::owned_column_element_wise_arithmetic(self, rhs)
    }

    /// The product of each pair.
    pub fn element_wise_mul(&self, rhs: &OwnedColumn) -> (res: ColumnOperationResult<OwnedColumn>)
        ensures
            arithmetic_result_is(ArithKind::Mul, *self, *rhs, res),
    {
        MulOp::owned_column_element_wise_arithmetic(self, rhs)
    }

    /// The quotient of each pair, rounded toward zero.
    pub fn element_wise_div(&self, rhs: &OwnedColumn) -> (res: ColumnOperationResult<OwnedColumn>)
        ensures
            arithmetic_result_is(ArithKind::Div, *self, *rhs, res),
    {
        DivOp::owned_column_element_wise_arithmetic(self, rhs)
    }
}

} // verus!

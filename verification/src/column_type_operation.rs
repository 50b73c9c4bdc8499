//! Which column types the operations of SQL accept, and the types of their
//! results.
use vstd::prelude::*;
use crate::column_type::{ColumnType, spec_integer_range};
use crate::column_operation::{
    BinaryOperator, add_subtract_outcome, divide_outcome, multiply_outcome, prec, sc, type_result_is,
};
use crate::column_operation_error::{ColumnOperationError, ColumnOperationResult};
use crate::text::string_of;

verus! {

/// Whether two types are numeric with different scales.
pub open spec fn scales_differ(l: ColumnType, r: ColumnType) -> bool {
    l.spec_is_numeric() && r.spec_is_numeric() && sc(l) != sc(r)
}

/// Whether `res` is the error for operands `l`, `r` of the operator named
/// `op`.
pub open spec fn invalid_pair(res: ColumnOperationResult<ColumnType>, op: Seq<char>, l: ColumnType, r: ColumnType) -> bool {
    res matches Err(ColumnOperationError::BinaryOperationInvalidColumnType { operator, left_type, right_type })
        && operator@ == op && left_type == l && right_type == r
}

/// Whether `res` refuses operands `l`, `r` of the operator named `op`.
pub open spec fn refused_pair(res: ColumnOperationResult<()>, op: Seq<char>, l: ColumnType, r: ColumnType) -> bool {
    res matches Err(ColumnOperationError::BinaryOperationInvalidColumnType { operator, left_type, right_type })
        && operator@ == op && left_type == l && right_type == r
}

fn scales_of_numerics_differ(l: ColumnType, r: ColumnType) -> (b: bool)
    ensures
        b == scales_differ(l, r),
{
    l.is_numeric() && r.is_numeric() && l.scale().unwrap() != r.scale().unwrap()
}

/// The type of a sum or difference of values of two types of the same
/// scale, or why there is none; operands of different scales must first
/// be brought to one scale.
pub fn try_add_subtract_column_types(lhs: ColumnType, rhs: ColumnType) -> (res: ColumnOperationResult<ColumnType>)
    ensures
        scales_differ(lhs, rhs) ==> invalid_pair(res, "Add"@, lhs, rhs),
        !scales_differ(lhs, rhs) ==> type_result_is(res, add_subtract_outcome(lhs, rhs), "Add"@, lhs, rhs, false),
{
    if scales_of_numerics_differ(lhs, rhs) {
        return Err(ColumnOperationError::BinaryOperationInvalidColumnType {
            operator: string_of("Add"),
            left_type: lhs,
            right_type: rhs,
        });
    }
    crate::column_operation::try_add_subtract_column_types(lhs, rhs, BinaryOperator::Add)
}

/// The type of a sum or difference of values of two types, brought to the
/// larger scale, or why there is none.
pub fn try_add_subtract_column_types_with_scaling(lhs: ColumnType, rhs: ColumnType)
    -> (res: ColumnOperationResult<ColumnType>)
    ensures
        type_result_is(res, add_subtract_outcome(lhs, rhs), "Add"@, lhs, rhs, false),
{
    crate::column_operation::try_add_subtract_column_types(lhs, rhs, BinaryOperator::Add)
}

/// The type of a product of values of two types, or why there is none.
pub fn try_multiply_column_types(lhs: ColumnType, rhs: ColumnType) -> (res: ColumnOperationResult<ColumnType>)
    ensures
        type_result_is(res, multiply_outcome(lhs, rhs), "Multiply"@, lhs, rhs, true),
{
    crate::column_operation::try_multiply_column_types(lhs, rhs)
}

/// The type of a quotient of values of two types, or why there is none.
pub fn try_divide_column_types(lhs: ColumnType, rhs: ColumnType) -> (res: ColumnOperationResult<ColumnType>)
    ensures
        type_result_is(res, divide_outcome(lhs, rhs), "Division"@, lhs, rhs, false),
{
    crate::column_operation::try_divide_column_types(lhs, rhs)
}

/// Whether values of type `from` can be cast to type `to`: the same type,
/// or an integer type whose every value the other integer type holds.
pub open spec fn castable(from: ColumnType, to: ColumnType) -> bool {
    ||| from == to
    ||| from.spec_is_integer() && to.spec_is_integer()
        && spec_integer_range(to).0 <= spec_integer_range(from).0
        && spec_integer_range(from).1 <= spec_integer_range(to).1
}

/// The smallest and largest values of an integer type.
fn integer_range(t: ColumnType) -> (r: (i128, i128))
    requires
        t.spec_is_integer(),
    ensures
        r.0 as int == spec_integer_range(t).0,
        r.1 as int == spec_integer_range(t).1,
{
    match t {
        ColumnType::Uint8 => (0, 255),
        ColumnType::TinyInt => (-128, 127),
        ColumnType::SmallInt => (-32768, 32767),
        ColumnType::Int => (-2147483648, 2147483647),
        ColumnType::BigInt => (-9223372036854775808, 9223372036854775807),
        _ => (i128::MIN, i128::MAX),
    }
}

/// Checks that values of type `from` can be cast to type `to`.
pub fn try_cast_types(from: ColumnType, to: ColumnType) -> (res: ColumnOperationResult<()>)
    ensures
        res is Ok <==> castable(from, to),
        res matches Err(e) ==> e == (ColumnOperationError::CastingError { left_type: from, right_type: to }),
{
    if from == to {
        return Ok(());
    }
    if from.is_integer() && to.is_integer() {
        let (fl, fh) = integer_range(from);
        let (tl, th) = integer_range(to);
        if tl <= fl && fh <= th {
            return Ok(());
        }
    }
    Err(ColumnOperationError::CastingError { left_type: from, right_type: to })
}

/// Whether a type is an integer or decimal type.
pub open spec fn is_exact_numeric(t: ColumnType) -> bool {
    t.spec_is_integer() || t matches ColumnType::Decimal75(_, _)
}

/// Whether values of type `from` can be cast to type `to` with a change of
/// scale: the same type, or integer or decimal types where `to` has at
/// least the scale and at least the integer digits of `from`.
pub open spec fn scale_castable(from: ColumnType, to: ColumnType) -> bool {
    ||| from == to
    ||| is_exact_numeric(from) && is_exact_numeric(to) && sc(to) >= sc(from)
        && prec(to) - sc(to) >= prec(from) - sc(from)
}

/// Checks that values of type `from` can be cast to type `to`, changing
/// their scale.
pub fn try_scale_cast_types(from: ColumnType, to: ColumnType) -> (res: ColumnOperationResult<()>)
    ensures
        res is Ok <==> scale_castable(from, to),
        res matches Err(e) ==> e == (ColumnOperationError::ScaleCastingError { left_type: from, right_type: to }),
{
    if from == to {
        return Ok(());
    }
    let from_exact = from.is_integer() || match from { ColumnType::Decimal75(_, _) => true, _ => false };
    let to_exact = to.is_integer() || match to { ColumnType::Decimal75(_, _) => true, _ => false };
    if from_exact && to_exact {
        let fp = from.precision_value().unwrap() as i16;
        let fs = from.scale().unwrap() as i16;
        let tp = to.precision_value().unwrap() as i16;
        let ts = to.scale().unwrap() as i16;
        if ts >= fs && tp - ts >= fp - fs {
            return Ok(());
        }
    }
    Err(ColumnOperationError::ScaleCastingError { left_type: from, right_type: to })
}

/// Whether both types are timestamps.
pub open spec fn both_timestamps(l: ColumnType, r: ColumnType) -> bool {
    l matches ColumnType::TimestampTZ(_, _) && r matches ColumnType::TimestampTZ(_, _)
}

/// Whether values of types `l` and `r` can be tested for equality: the
/// same type, or numeric types of the same scale.
pub open spec fn equatable(l: ColumnType, r: ColumnType) -> bool {
    l == r || (l.spec_is_numeric() && r.spec_is_numeric() && sc(l) == sc(r))
}

/// Whether values of types `l` and `r` can be tested for equality once
/// brought to one scale: the same type, numeric types, or timestamps.
pub open spec fn equatable_with_scaling(l: ColumnType, r: ColumnType) -> bool {
    l == r || (l.spec_is_numeric() && r.spec_is_numeric()) || both_timestamps(l, r)
}

/// Whether values of types `l` and `r` can be ordered: numeric types of
/// the same scale, or the same timestamp type.
pub open spec fn orderable(l: ColumnType, r: ColumnType) -> bool {
    (l.spec_is_numeric() && r.spec_is_numeric() && sc(l) == sc(r)) || (both_timestamps(l, r) && l == r)
}

/// Whether values of types `l` and `r` can be ordered once brought to one
/// scale: numeric types, or timestamps.
pub open spec fn orderable_with_scaling(l: ColumnType, r: ColumnType) -> bool {
    (l.spec_is_numeric() && r.spec_is_numeric()) || both_timestamps(l, r)
}

fn is_timestamp(t: ColumnType) -> (b: bool)
    ensures
        b == (t matches ColumnType::TimestampTZ(_, _)),
{
    match t { ColumnType::TimestampTZ(_, _) => true, _ => false }
}

fn refuse(op: &str, lhs: ColumnType, rhs: ColumnType) -> (res: ColumnOperationResult<()>)
    ensures
        refused_pair(res, op@, lhs, rhs),
{
    Err(ColumnOperationError::BinaryOperationInvalidColumnType { operator: string_of(op), left_type: lhs, right_type: rhs })
}

/// Checks that values of types `lhs` and `rhs` can be tested for equality.
pub fn try_equals_types(lhs: ColumnType, rhs: ColumnType) -> (res: ColumnOperationResult<()>)
    ensures
        res is Ok <==> equatable(lhs, rhs),
        res is Err ==> refused_pair(res, "="@, lhs, rhs),
{
    if lhs == rhs || (lhs.is_numeric() && rhs.is_numeric() && lhs.scale().unwrap() == rhs.scale().unwrap()) {
        Ok(())
    } else {
        refuse("=", lhs, rhs)
    }
}

/// Checks that values of types `lhs` and `rhs` can be tested for equality
/// once brought to one scale.
pub fn try_equals_types_with_scaling(lhs: ColumnType, rhs: ColumnType) -> (res: ColumnOperationResult<()>)
    ensures
        res is Ok <==> equatable_with_scaling(lhs, rhs),
        res is Err ==> refused_pair(res, "="@, lhs, rhs),
{
    if lhs == rhs || (lhs.is_numeric() && rhs.is_numeric()) || (is_timestamp(lhs) && is_timestamp(rhs)) {
        Ok(())
    } else {
        refuse("=", lhs, rhs)
    }
}

/// Checks that values of types `lhs` and `rhs` can be ordered.
pub fn try_inequality_types(lhs: ColumnType, rhs: ColumnType) -> (res: ColumnOperationResult<()>)
    ensures
        res is Ok <==> orderable(lhs, rhs),
        res is Err ==> refused_pair(res, "<="@, lhs, rhs),
{
    if (lhs.is_numeric() && rhs.is_numeric() && lhs.scale().unwrap() == rhs.scale().unwrap())
        || (is_timestamp(lhs) && is_timestamp(rhs) && lhs == rhs) {
        Ok(())
    } else {
        refuse("<=", lhs, rhs)
    }
}

/// Checks that values of types `lhs` and `rhs` can be ordered once brought
/// to one scale.
pub fn try_inequality_types_with_scaling(lhs: ColumnType, rhs: ColumnType) -> (res: ColumnOperationResult<()>)
    ensures
        res is Ok <==> orderable_with_scaling(lhs, rhs),
        res is Err ==> refused_pair(res, "<="@, lhs, rhs),
{
    if (lhs.is_numeric() && rhs.is_numeric()) || (is_timestamp(lhs) && is_timestamp(rhs)) {
        Ok(())
    } else {
        refuse("<=", lhs, rhs)
    }
}

/// The type of the negation of values of a type: the same type, for
/// numeric types.
pub fn try_neg_type(operand: ColumnType) -> (res: ColumnOperationResult<ColumnType>)
    ensures
        operand.spec_is_numeric() ==> res == Ok::<ColumnType, ColumnOperationError>(operand),
        !operand.spec_is_numeric() ==> (res matches Err(ColumnOperationError::UnaryOperationInvalidColumnType {
            operator, operand_type }) && operator@ == "-"@ && operand_type == operand),
{
    if operand.is_numeric() {
        Ok(operand)
    } else {
        Err(ColumnOperationError::UnaryOperationInvalidColumnType { operator: string_of("-"), operand_type: operand })
    }
}

/// Whether `AND` and `OR` apply to values of these types: both boolean.
pub fn can_and_or_types(lhs: ColumnType, rhs: ColumnType) -> (b: bool)
    ensures
        b == (lhs == ColumnType::Boolean && rhs == ColumnType::Boolean),
{
    lhs == ColumnType::Boolean && rhs == ColumnType::Boolean
}

/// Whether `NOT` applies to values of this type: boolean.
pub fn can_not_type(operand: ColumnType) -> (b: bool)
    ensures
        b == (operand == ColumnType::Boolean),
{
    operand == ColumnType::Boolean
}

impl ColumnType {
    /// The type of a sum of values of this type and `rhs`, brought to one
    /// scale.
    pub fn try_add(self, rhs: ColumnType) -> (res: ColumnOperationResult<ColumnType>)
        ensures
            type_result_is(res, add_subtract_outcome(self, rhs), "Add"@, self, rhs, false),
    {
        try_add_subtract_column_types_with_scaling(self, rhs)
    }

    /// The type of a difference of values of this type and `rhs`, brought
    /// to one scale.
    pub fn try_sub(self, rhs: ColumnType) -> (res: ColumnOperationResult<ColumnType>)
        ensures
            type_result_is(res, add_subtract_outcome(self, rhs), "Add"@, self, rhs, false),
    {
        try_add_subtract_column_types_with_scaling(self, rhs)
    }

    /// The type of a product of values of this type and `rhs`.
    pub fn try_multiply(self, rhs: ColumnType) -> (res: ColumnOperationResult<ColumnType>)
        ensures
            type_result_is(res, multiply_outcome(self, rhs), "Multiply"@, self, rhs, true),
    {
        try_multiply_column_types(self, rhs)
    }

    /// The type of a quotient of values of this type by values of `rhs`.
    pub fn try_divide(self, rhs: ColumnType) -> (res: ColumnOperationResult<ColumnType>)
        ensures
            type_result_is(res, divide_outcome(self, rhs), "Division"@, self, rhs, false),
    {
        try_divide_column_types(self, rhs)
    }
}

} // verus!

//! Element-wise arithmetic on owned columns.
use vstd::prelude::*;
use crate::column_type::{ColumnType, spec_integer_bits, spec_integer_range};
use crate::column_operation::{
    DecimalOp, TypeOutcome, decimal_outcome, decimal_result_is, division_result_is, fields, signeds,
    try_decimal_columns, try_divide_decimal_columns,
};
use crate::column_operation_error::{ColumnOperationError, ColumnOperationResult};
use crate::math::Precision;
use crate::owned_column::OwnedColumn;
use crate::scalar::{Scalar, ToScalar};
use crate::slice_operation::{
    ArithKind, IntegerElement, arith_value, op_error, op_fits, try_int_op, try_slice_binary_op,
};
use crate::text::string_of;

verus! {

/// Whether two column types are a signed and an unsigned 8-bit type, which
/// arithmetic and comparison refuse to combine.
pub open spec fn is_signed_casting_pair(l: ColumnType, r: ColumnType) -> bool {
    (l == ColumnType::Uint8 && r == ColumnType::TinyInt) || (l == ColumnType::TinyInt && r == ColumnType::Uint8)
}

/// The type of the result of an element-wise operation on two integer
/// columns: the wider of the two types, when the pair is supported. A
/// `Uint8` right operand is supported only beside a `Uint8` left operand.
pub open spec fn int_pair_result_type(l: ColumnType, r: ColumnType) -> Option<ColumnType> {
    match (spec_integer_bits(l), spec_integer_bits(r)) {
        (Some(a), Some(b)) => if is_signed_casting_pair(l, r) || (r == ColumnType::Uint8 && l != ColumnType::Uint8) {
            None
        } else {
            Some(if b > a { r } else { l })
        },
        _ => None,
    }
}

/// Whether a column type is a decimal type.
pub open spec fn is_decimal_type(t: ColumnType) -> bool {
    t matches ColumnType::Decimal75(_, _)
}

/// Whether element-wise arithmetic combines the types as decimals: an
/// integer with a decimal, a decimal with an integer other than `Uint8`, or
/// two decimals.
pub open spec fn is_decimal_pair(l: ColumnType, r: ColumnType) -> bool {
    ||| l.spec_is_integer() && is_decimal_type(r)
    ||| is_decimal_type(l) && r.spec_is_integer() && r != ColumnType::Uint8
    ||| is_decimal_type(l) && is_decimal_type(r)
}

/// The decimal operation behind an arithmetic operation other than division.
pub open spec fn decimal_op_of(kind: ArithKind) -> DecimalOp {
    match kind {
        ArithKind::Add => DecimalOp::Add,
        ArithKind::Sub => DecimalOp::Sub,
        _ => DecimalOp::Mul,
    }
}

/// Whether `res` is the decimal column an arithmetic operation gives on
/// numeric values of types `lt`, `rt` (standing for the field elements
/// `lf`, `rf` and the signed integers `ls`, `rs`), or its error.
pub open spec fn decimal_arith_result_is(
    kind: ArithKind,
    lf: Seq<nat>,
    rf: Seq<nat>,
    ls: Seq<int>,
    rs: Seq<int>,
    lt: ColumnType,
    rt: ColumnType,
    res: ColumnOperationResult<OwnedColumn>,
) -> bool {
    let tuple: ColumnOperationResult<(Precision, i8, Vec<Scalar>)> = match res {
        Ok(OwnedColumn::Decimal75(p, s, v)) => Ok((p, s, v)),
        Ok(_) => Err(ColumnOperationError::DivisionByZero),
        Err(e) => Err(e),
    };
    &&& (res is Ok ==> res->Ok_0 is Decimal75)
    &&& if kind == ArithKind::Div {
        division_result_is(tuple, ls, rs, lt, rt)
    } else {
        decimal_result_is(tuple, decimal_op_of(kind), lf, rf, lt, rt)
    }
}

/// Whether `res` is what an integer operation gives on two integer columns
/// of the same length, with results of type `t`: the column of exact
/// results when every one is defined and fits in `t`, else the operation's
/// error.
pub open spec fn int_arith_result_is(
    kind: ArithKind,
    lhs: OwnedColumn,
    rhs: OwnedColumn,
    t: ColumnType,
    res: ColumnOperationResult<OwnedColumn>,
) -> bool {
    let li = lhs.spec_int_values()->0;
    let ri = rhs.spec_int_values()->0;
    let lo = spec_integer_range(t).0;
    let hi = spec_integer_range(t).1;
    &&& (res is Ok <==> forall|i: int| 0 <= i < li.len() ==> op_fits(kind, #[trigger] li[i], ri[i], lo, hi))
    &&& (res matches Ok(c) ==> c.spec_column_type() == t && c.spec_int_values() is Some
        && c.spec_int_values()->0.len() == li.len()
        && forall|i: int| 0 <= i < li.len() ==>
            arith_value(kind, li[i], ri[i]) == Some(#[trigger] c.spec_int_values()->0[i]))
    &&& (res matches Err(e) ==> op_error(kind, e))
}

/// What element-wise arithmetic on two owned columns gives: a length error
/// for columns of different lengths; a signed casting error for `Uint8`
/// beside `TinyInt`; the exact results in the wider integer type for a
/// supported pair of integer columns; decimal results for decimal pairs;
/// else an error naming both types.
pub open spec fn arithmetic_result_is(
    kind: ArithKind,
    lhs: OwnedColumn,
    rhs: OwnedColumn,
    res: ColumnOperationResult<OwnedColumn>,
) -> bool {
    let lt = lhs.spec_column_type();
    let rt = rhs.spec_column_type();
    if lhs.spec_len() != rhs.spec_len() {
        res == Err::<OwnedColumn, ColumnOperationError>(ColumnOperationError::DifferentColumnLength {
            len_a: lhs.spec_len() as usize,
            len_b: rhs.spec_len() as usize,
        })
    } else if is_signed_casting_pair(lt, rt) {
        res == Err::<OwnedColumn, ColumnOperationError>(ColumnOperationError::SignedCastingError {
            left_type: lt,
            right_type: rt,
        })
    } else if int_pair_result_type(lt, rt) is Some {
        int_arith_result_is(kind, lhs, rhs, int_pair_result_type(lt, rt)->0, res)
    } else if is_decimal_pair(lt, rt) {
        decimal_arith_result_is(kind, lhs.spec_field_values(), rhs.spec_field_values(),
            lhs.spec_signed_values(), rhs.spec_signed_values(), lt, rt, res)
    } else {
        res matches Err(ColumnOperationError::BinaryOperationInvalidColumnType { operator, left_type, right_type })
            && operator@ == "ArithmeticOp"@ && left_type == lt && right_type == rt
    }
}

/// Combines two numeric slices of the same length as decimals into a
/// decimal column.
fn decimal_arith<T0: ToScalar, T1: ToScalar>(
    kind: ArithKind,
    lhs: &[T0],
    rhs: &[T1],
    lt: ColumnType,
    rt: ColumnType,
) -> (res: ColumnOperationResult<OwnedColumn>)
    requires
        lhs@.len() == rhs@.len(),
        is_decimal_pair(lt, rt),
    ensures
        decimal_arith_result_is(kind, fields(lhs@), fields(rhs@), signeds(lhs@), signeds(rhs@), lt, rt, res),
{
    let r = match kind {
        ArithKind::Add => try_decimal_columns(DecimalOp::Add, lhs, rhs, lt, rt),
        ArithKind::Sub => try_decimal_columns(DecimalOp::Sub, lhs, rhs, lt, rt),
        ArithKind::Mul => try_decimal_columns(DecimalOp::Mul, lhs, rhs, lt, rt),
        ArithKind::Div => try_divide_decimal_columns(lhs, rhs, lt, rt),
    };
    match r {
        Ok((p, s, v)) => Ok(OwnedColumn::Decimal75(p, s, v)),
        Err(e) => Err(e),
    }
}

/// Integer arithmetic with a `Uint8` left operand.
fn int_arith_uint8(kind: ArithKind, lhs: &OwnedColumn, rhs: &OwnedColumn) -> (res: ColumnOperationResult<OwnedColumn>)
    requires
        lhs is Uint8,
        lhs.spec_len() == rhs.spec_len(),
        int_pair_result_type(lhs.spec_column_type(), rhs.spec_column_type()) is Some,
    ensures
        int_arith_result_is(kind, *lhs, *rhs, int_pair_result_type(lhs.spec_column_type(), rhs.spec_column_type())->0, res),
{
    match (lhs, rhs) {
        (OwnedColumn::Uint8(l), OwnedColumn::Uint8(r)) => {
            match try_slice_binary_op::<u8, u8, u8>(kind, l.as_slice(), r.as_slice()) {
                Ok(v) => Ok(OwnedColumn::Uint8(v)),
                Err(e) => Err(e),
            }
        },
        (OwnedColumn::Uint8(l), OwnedColumn::SmallInt(r)) => {
            match try_slice_binary_op::<u8, i16, i16>(kind, l.as_slice(), r.as_slice()) {
                Ok(v) => Ok(OwnedColumn::SmallInt(v)),
                Err(e) => Err(e),
            }
        },
        (OwnedColumn::Uint8(l), OwnedColumn::Int(r)) => {
            match try_slice_binary_op::<u8, i32, i32>(kind, l.as_slice(), r.as_slice()) {
                Ok(v) => Ok(OwnedColumn::Int(v)),
                Err(e) => Err(e),
            }
        },
        (OwnedColumn::Uint8(l), OwnedColumn::BigInt(r)) => {
            match try_slice_binary_op::<u8, i64, i64>(kind, l.as_slice(), r.as_slice()) {
                Ok(v) => Ok(OwnedColumn::BigInt(v)),
                Err(e) => Err(e),
            }
        },
        (OwnedColumn::Uint8(l), OwnedColumn::Int128(r)) => {
            match try_slice_binary_op::<u8, i128, i128>(kind, l.as_slice(), r.as_slice()) {
                Ok(v) => Ok(OwnedColumn::Int128(v)),
                Err(e) => Err(e),
            }
        },
        _ => {
            proof { assert(false); }
            Err(ColumnOperationError::DivisionByZero)
        },
    }
}

/// Integer arithmetic with a `TinyInt` left operand.
fn int_arith_tinyint(kind: ArithKind, lhs: &OwnedColumn, rhs: &OwnedColumn) -> (res: ColumnOperationResult<OwnedColumn>)
    requires
        lhs is TinyInt,
        lhs.spec_len() == rhs.spec_len(),
        int_pair_result_type(lhs.spec_column_type(), rhs.spec_column_type()) is Some,
    ensures
        int_arith_result_is(kind, *lhs, *rhs, int_pair_result_type(lhs.spec_column_type(), rhs.spec_column_type())->0, res),
{
    match (lhs, rhs) {
        (OwnedColumn::TinyInt(l), OwnedColumn::TinyInt(r)) => {
            match try_slice_binary_op::<i8, i8, i8>(kind, l.as_slice(), r.as_slice()) {
                Ok(v) => Ok(OwnedColumn::TinyInt(v)),
                Err(e) => Err(e),
            }
        },
        (OwnedColumn::TinyInt(l), OwnedColumn::SmallInt(r)) => {
            match try_slice_binary_op::<i8, i16, i16>(kind, l.as_slice(), r.as_slice()) {
                Ok(v) => Ok(OwnedColumn::SmallInt(v)),
                Err(e) => Err(e),
            }
        },
        (OwnedColumn::TinyInt(l), OwnedColumn::Int(r)) => {
            match try_slice_binary_op::<i8, i32, i32>(kind, l.as_slice(), r.as_slice()) {
                Ok(v) => Ok(OwnedColumn::Int(v)),
                Err(e) => Err(e),
            }
        },
        (OwnedColumn::TinyInt(l), OwnedColumn::BigInt(r)) => {
            match try_slice_binary_op::<i8, i64, i64>(kind, l.as_slice(), r.as_slice()) {
                Ok(v) => Ok(OwnedColumn::BigInt(v)),
                Err(e) => Err(e),
            }
        },
        (OwnedColumn::TinyInt(l), OwnedColumn::Int128(r)) => {
            match try_slice_binary_op::<i8, i128, i128>(kind, l.as_slice(), r.as_slice()) {
                Ok(v) => Ok(OwnedColumn::Int128(v)),
                Err(e) => Err(e),
            }
        },
        _ => {
            proof { assert(false); }
            Err(ColumnOperationError::DivisionByZero)
        },
    }
}

/// Integer arithmetic with a `SmallInt` left operand.
fn int_arith_smallint(kind: ArithKind, lhs: &OwnedColumn, rhs: &OwnedColumn) -> (res: ColumnOperationResult<OwnedColumn>)
    requires
        lhs is SmallInt,
        lhs.spec_len() == rhs.spec_len(),
        int_pair_result_type(lhs.spec_column_type(), rhs.spec_column_type()) is Some,
    ensures
        int_arith_result_is(kind, *lhs, *rhs, int_pair_result_type(lhs.spec_column_type(), rhs.spec_column_type())->0, res),
{
    match (lhs, rhs) {
        (OwnedColumn::SmallInt(l), OwnedColumn::TinyInt(r)) => {
            match try_slice_binary_op::<i16, i8, i16>(kind, l.as_slice(), r.as_slice()) {
                Ok(v) => Ok(OwnedColumn::SmallInt(v)),
                Err(e) => Err(e),
            }
        },
        (OwnedColumn::SmallInt(l), OwnedColumn::SmallInt(r)) => {
            match try_slice_binary_op::<i16, i16, i16>(kind, l.as_slice(), r.as_slice()) {
                Ok(v) => Ok(OwnedColumn::SmallInt(v)),
                Err(e) => Err(e),
            }
        },
        (OwnedColumn::SmallInt(l), OwnedColumn::Int(r)) => {
            match try_slice_binary_op::<i16, i32, i32>(kind, l.as_slice(), r.as_slice()) {
                Ok(v) => Ok(OwnedColumn::Int(v)),
                Err(e) => Err(e),
            }
        },
        (OwnedColumn::SmallInt(l), OwnedColumn::BigInt(r)) => {
            match try_slice_binary_op::<i16, i64, i64>(kind, l.as_slice(), r.as_slice()) {
                Ok(v) => Ok(OwnedColumn::BigInt(v)),
                Err(e) => Err(e),
            }
        },
        (OwnedColumn::SmallInt(l), OwnedColumn::Int128(r)) => {
            match try_slice_binary_op::<i16, i128, i128>(kind, l.as_slice(), r.as_slice()) {
                Ok(v) => Ok(OwnedColumn::Int128(v)),
                Err(e) => Err(e),
            }
        },
        _ => {
            proof { assert(false); }
            Err(ColumnOperationError::DivisionByZero)
        },
    }
}

/// Integer arithmetic with a `Int` left operand.
fn int_arith_int(kind: ArithKind, lhs: &OwnedColumn, rhs: &OwnedColumn) -> (res: ColumnOperationResult<OwnedColumn>)
    requires
        lhs is Int,
        lhs.spec_len() == rhs.spec_len(),
        int_pair_result_type(lhs.spec_column_type(), rhs.spec_column_type()) is Some,
    ensures
        int_arith_result_is(kind, *lhs, *rhs, int_pair_result_type(lhs.spec_column_type(), rhs.spec_column_type())->0, res),
{
    match (lhs, rhs) {
        (OwnedColumn::Int(l), OwnedColumn::TinyInt(r)) => {
            match try_slice_binary_op::<i32, i8, i32>(kind, l.as_slice(), r.as_slice()) {
                Ok(v) => Ok(OwnedColumn::Int(v)),
                Err(e) => Err(e),
            }
        },
        (OwnedColumn::Int(l), OwnedColumn::SmallInt(r)) => {
            match try_slice_binary_op::<i32, i16, i32>(kind, l.as_slice(), r.as_slice()) {
                Ok(v) => Ok(OwnedColumn::Int(v)),
                Err(e) => Err(e),
            }
        },
        (OwnedColumn::Int(l), OwnedColumn::Int(r)) => {
            match try_slice_binary_op::<i32, i32, i32>(kind, l.as_slice(), r.as_slice()) {
                Ok(v) => Ok(OwnedColumn::Int(v)),
                Err(e) => Err(e),
            }
        },
        (OwnedColumn::Int(l), OwnedColumn::BigInt(r)) => {
            match try_slice_binary_op::<i32, i64, i64>(kind, l.as_slice(), r.as_slice()) {
                Ok(v) => Ok(OwnedColumn::BigInt(v)),
                Err(e) => Err(e),
            }
        },
        (OwnedColumn::Int(l), OwnedColumn::Int128(r)) => {
            match try_slice_binary_op::<i32, i128, i128>(kind, l.as_slice(), r.as_slice()) {
                Ok(v) => Ok(OwnedColumn::Int128(v)),
                Err(e) => Err(e),
            }
        },
        _ => {
            proof { assert(false); }
            Err(ColumnOperationError::DivisionByZero)
        },
    }
}

/// Integer arithmetic with a `BigInt` left operand.
fn int_arith_bigint(kind: ArithKind, lhs: &OwnedColumn, rhs: &OwnedColumn) -> (res: ColumnOperationResult<OwnedColumn>)
    requires
        lhs is BigInt,
        lhs.spec_len() == rhs.spec_len(),
        int_pair_result_type(lhs.spec_column_type(), rhs.spec_column_type()) is Some,
    ensures
        int_arith_result_is(kind, *lhs, *rhs, int_pair_result_type(lhs.spec_column_type(), rhs.spec_column_type())->0, res),
{
    match (lhs, rhs) {
        (OwnedColumn::BigInt(l), OwnedColumn::TinyInt(r)) => {
            match try_slice_binary_op::<i64, i8, i64>(kind, l.as_slice(), r.as_slice()) {
                Ok(v) => Ok(OwnedColumn::BigInt(v)),
                Err(e) => Err(e),
            }
        },
        (OwnedColumn::BigInt(l), OwnedColumn::SmallInt(r)) => {
            match try_slice_binary_op::<i64, i16, i64>(kind, l.as_slice(), r.as_slice()) {
                Ok(v) => Ok(OwnedColumn::BigInt(v)),
                Err(e) => Err(e),
            }
        },
        (OwnedColumn::BigInt(l), OwnedColumn::Int(r)) => {
            match try_slice_binary_op::<i64, i32, i64>(kind, l.as_slice(), r.as_slice()) {
                Ok(v) => Ok(OwnedColumn::BigInt(v)),
                Err(e) => Err(e),
            }
        },
        (OwnedColumn::BigInt(l), OwnedColumn::BigInt(r)) => {
            match try_slice_binary_op::<i64, i64, i64>(kind, l.as_slice(), r.as_slice()) {
                Ok(v) => Ok(OwnedColumn::BigInt(v)),
                Err(e) => Err(e),
            }
        },
        (OwnedColumn::BigInt(l), OwnedColumn::Int128(r)) => {
            match try_slice_binary_op::<i64, i128, i128>(kind, l.as_slice(), r.as_slice()) {
                Ok(v) => Ok(OwnedColumn::Int128(v)),
                Err(e) => Err(e),
            }
        },
        _ => {
            proof { assert(false); }
            Err(ColumnOperationError::DivisionByZero)
        },
    }
}

/// Integer arithmetic with a `Int128` left operand.
fn int_arith_int128(kind: ArithKind, lhs: &OwnedColumn, rhs: &OwnedColumn) -> (res: ColumnOperationResult<OwnedColumn>)
    requires
        lhs is Int128,
        lhs.spec_len() == rhs.spec_len(),
        int_pair_result_type(lhs.spec_column_type(), rhs.spec_column_type()) is Some,
    ensures
        int_arith_result_is(kind, *lhs, *rhs, int_pair_result_type(lhs.spec_column_type(), rhs.spec_column_type())->0, res),
{
    match (lhs, rhs) {
        (OwnedColumn::Int128(l), OwnedColumn::TinyInt(r)) => {
            match try_slice_binary_op::<i128, i8, i128>(kind, l.as_slice(), r.as_slice()) {
                Ok(v) => Ok(OwnedColumn::Int128(v)),
                Err(e) => Err(e),
            }
        },
        (OwnedColumn::Int128(l), OwnedColumn::SmallInt(r)) => {
            match try_slice_binary_op::<i128, i16, i128>(kind, l.as_slice(), r.as_slice()) {
                Ok(v) => Ok(OwnedColumn::Int128(v)),
                Err(e) => Err(e),
            }
        },
        (OwnedColumn::Int128(l), OwnedColumn::Int(r)) => {
            match try_slice_binary_op::<i128, i32, i128>(kind, l.as_slice(), r.as_slice()) {
                Ok(v) => Ok(OwnedColumn::Int128(v)),
                Err(e) => Err(e),
            }
        },
        (OwnedColumn::Int128(l), OwnedColumn::BigInt(r)) => {
            match try_slice_binary_op::<i128, i64, i128>(kind, l.as_slice(), r.as_slice()) {
                Ok(v) => Ok(OwnedColumn::Int128(v)),
                Err(e) => Err(e),
            }
        },
        (OwnedColumn::Int128(l), OwnedColumn::Int128(r)) => {
            match try_slice_binary_op::<i128, i128, i128>(kind, l.as_slice(), r.as_slice()) {
                Ok(v) => Ok(OwnedColumn::Int128(v)),
                Err(e) => Err(e),
            }
        },
        _ => {
            proof { assert(false); }
            Err(ColumnOperationError::DivisionByZero)
        },
    }
}

/// Decimal arithmetic on a decimal pair of columns.
fn decimal_column_arith(kind: ArithKind, lhs: &OwnedColumn, rhs: &OwnedColumn) -> (res: ColumnOperationResult<OwnedColumn>)
    requires
        lhs.spec_len() == rhs.spec_len(),
        is_decimal_pair(lhs.spec_column_type(), rhs.spec_column_type()),
    ensures
        decimal_arith_result_is(kind, lhs.spec_field_values(), rhs.spec_field_values(),
            lhs.spec_signed_values(), rhs.spec_signed_values(), lhs.spec_column_type(), rhs.spec_column_type(), res),
{
    match (lhs, rhs) {
        (OwnedColumn::Uint8(l), OwnedColumn::Decimal75(_, _, r)) =>
            decimal_arith(kind, l.as_slice(), r.as_slice(), lhs.column_type(), rhs.column_type()),
        (OwnedColumn::TinyInt(l), OwnedColumn::Decimal75(_, _, r)) =>
            decimal_arith(kind, l.as_slice(), r.as_slice(), lhs.column_type(), rhs.column_type()),
        (OwnedColumn::SmallInt(l), OwnedColumn::Decimal75(_, _, r)) =>
            decimal_arith(kind, l.as_slice(), r.as_slice(), lhs.column_type(), rhs.column_type()),
        (OwnedColumn::Int(l), OwnedColumn::Decimal75(_, _, r)) =>
            decimal_arith(kind, l.as_slice(), r.as_slice(), lhs.column_type(), rhs.column_type()),
        (OwnedColumn::BigInt(l), OwnedColumn::Decimal75(_, _, r)) =>
            decimal_arith(kind, l.as_slice(), r.as_slice(), lhs.column_type(), rhs.column_type()),
        (OwnedColumn::Int128(l), OwnedColumn::Decimal75(_, _, r)) =>
            decimal_arith(kind, l.as_slice(), r.as_slice(), lhs.column_type(), rhs.column_type()),
        (OwnedColumn::Decimal75(_, _, l), OwnedColumn::TinyInt(r)) =>
            decimal_arith(kind, l.as_slice(), r.as_slice(), lhs.column_type(), rhs.column_type()),
        (OwnedColumn::Decimal75(_, _, l), OwnedColumn::SmallInt(r)) =>
            decimal_arith(kind, l.as_slice(), r.as_slice(), lhs.column_type(), rhs.column_type()),
        (OwnedColumn::Decimal75(_, _, l), OwnedColumn::Int(r)) =>
            decimal_arith(kind, l.as_slice(), r.as_slice(), lhs.column_type(), rhs.column_type()),
        (OwnedColumn::Decimal75(_, _, l), OwnedColumn::BigInt(r)) =>
            decimal_arith(kind, l.as_slice(), r.as_slice(), lhs.column_type(), rhs.column_type()),
        (OwnedColumn::Decimal75(_, _, l), OwnedColumn::Int128(r)) =>
            decimal_arith(kind, l.as_slice(), r.as_slice(), lhs.column_type(), rhs.column_type()),
        (OwnedColumn::Decimal75(_, _, l), OwnedColumn::Decimal75(_, _, r)) =>
            decimal_arith(kind, l.as_slice(), r.as_slice(), lhs.column_type(), rhs.column_type()),
        _ => {
            proof { assert(false); }
            Err(ColumnOperationError::DivisionByZero)
        },
    }
}

/// Applies an arithmetic operation element-wise to two owned columns.
pub fn element_wise_arithmetic(
    kind: ArithKind,
    lhs: &OwnedColumn,
    rhs: &OwnedColumn,
) -> (res: ColumnOperationResult<OwnedColumn>)
    ensures
        arithmetic_result_is(kind, *lhs, *rhs, res),
{
    if lhs.len() != rhs.len() {
        return Err(ColumnOperationError::DifferentColumnLength { len_a: lhs.len(), len_b: rhs.len() });
    }
    let lt = lhs.column_type();
    let rt = rhs.column_type();
    if (lt == ColumnType::Uint8 && rt == ColumnType::TinyInt) || (lt == ColumnType::TinyInt && rt == ColumnType::Uint8) {
        return Err(ColumnOperationError::SignedCastingError { left_type: lt, right_type: rt });
    }
    let both_int = lt.is_integer() && rt.is_integer();
    if both_int && (rt != ColumnType::Uint8 || lt == ColumnType::Uint8) {
        return match lhs {
            OwnedColumn::Uint8(_) => int_arith_uint8(kind, lhs, rhs),
            OwnedColumn::TinyInt(_) => int_arith_tinyint(kind, lhs, rhs),
            OwnedColumn::SmallInt(_) => int_arith_smallint(kind, lhs, rhs),
            OwnedColumn::Int(_) => int_arith_int(kind, lhs, rhs),
            OwnedColumn::BigInt(_) => int_arith_bigint(kind, lhs, rhs),
            _ => int_arith_int128(kind, lhs, rhs),
        };
    }
    let l_dec = match lt { ColumnType::Decimal75(_, _) => true, _ => false };
    let r_dec = match rt { ColumnType::Decimal75(_, _) => true, _ => false };
    if (lt.is_integer() && r_dec) || (l_dec && rt.is_integer() && rt != ColumnType::Uint8) || (l_dec && r_dec) {
        return decimal_column_arith(kind, lhs, rhs);
    }
    Err(ColumnOperationError::BinaryOperationInvalidColumnType {
        operator: string_of("ArithmeticOp"),
        left_type: lt,
        right_type: rt,
    })
}

/// An arithmetic operation on columns.
pub trait ArithmeticOp {
    /// Which operation this is.
    spec fn spec_kind() -> ArithKind;

    /// Which operation this is.
    fn kind() -> (k: ArithKind)
        ensures
            k == Self::spec_kind(),
    ;

    /// The operation on two integers of one type: the exact result when it
    /// is defined and fits in the type, else the operation's error.
    fn op<T: IntegerElement>(l: &T, r: &T) -> (res: ColumnOperationResult<T>)
        ensures
            res is Ok <==> op_fits(Self::spec_kind(), l.spec_int(), r.spec_int(), T::spec_min(), T::spec_max()),
            res matches Ok(x) ==> arith_value(Self::spec_kind(), l.spec_int(), r.spec_int()) == Some(x.spec_int()),
            res matches Err(e) ==> op_error(Self::spec_kind(), e),
    {
        try_int_op::<T>(Self::kind(), l.to_i128(), r.to_i128())
    }

    /// The operation on two numeric slices of the same length as decimals of
    /// types `left_column_type` and `right_column_type`.
    fn decimal_op<T0: ToScalar, T1: ToScalar>(
        lhs: &[T0],
        rhs: &[T1],
        left_column_type: ColumnType,
        right_column_type: ColumnType,
    ) -> (res: ColumnOperationResult<(Precision, i8, Vec<Scalar>)>)
        requires
            lhs@.len() == rhs@.len(),
            Self::spec_kind() != ArithKind::Div ==> decimal_outcome(decimal_op_of(Self::spec_kind()),
                left_column_type, right_column_type) != TypeOutcome::Type(ColumnType::Scalar),
        ensures
            Self::spec_kind() == ArithKind::Div ==> division_result_is(res, signeds(lhs@), signeds(rhs@),
                left_column_type, right_column_type),
            Self::spec_kind() != ArithKind::Div ==> decimal_result_is(res, decimal_op_of(Self::spec_kind()),
                fields(lhs@), fields(rhs@), left_column_type, right_column_type),
    {
        match Self::kind() {
            ArithKind::Add => try_decimal_columns(DecimalOp::Add, lhs, rhs, left_column_type, right_column_type),
            ArithKind::Sub => try_decimal_columns(DecimalOp::Sub, lhs, rhs, left_column_type, right_column_type),
            ArithKind::Mul => try_decimal_columns(DecimalOp::Mul, lhs, rhs, left_column_type, right_column_type),
            ArithKind::Div => try_divide_decimal_columns(lhs, rhs, left_column_type, right_column_type),
        }
    }

    /// The operation applied element-wise to two owned columns.
    fn owned_column_element_wise_arithmetic(lhs: &OwnedColumn, rhs: &OwnedColumn)
        -> (res: ColumnOperationResult<OwnedColumn>)
        ensures
            arithmetic_result_is(Self::spec_kind(), *lhs, *rhs, res),
    {
        element_wise_arithmetic(Self::kind(), lhs, rhs)
    }
}

/// Addition.
pub struct AddOp {}

impl ArithmeticOp for AddOp {
    open spec fn spec_kind() -> ArithKind { ArithKind::Add }
    fn kind() -> (k: ArithKind) { ArithKind::Add }
}

/// Subtraction.
pub struct SubOp {}

impl ArithmeticOp for SubOp {
    open spec fn spec_kind() -> ArithKind { ArithKind::Sub }
    fn kind() -> (k: ArithKind) { ArithKind::Sub }
}

/// Multiplication.
pub struct MulOp {}

impl ArithmeticOp for MulOp {
    open spec fn spec_kind() -> ArithKind { ArithKind::Mul }
    fn kind() -> (k: ArithKind) { ArithKind::Mul }
}

/// Division, rounding toward zero.
pub struct DivOp {}

impl ArithmeticOp for DivOp {
    open spec fn spec_kind() -> ArithKind { ArithKind::Div }
    fn kind() -> (k: ArithKind) { ArithKind::Div }
}

/// Whether two columns hold the same numbers: decimal columns of one
/// precision and scale whose values stand for the same field elements, or
/// integer columns of one type with the same values.
pub open spec fn same_numbers(x: OwnedColumn, y: OwnedColumn) -> bool {
    match (x, y) {
        (OwnedColumn::Decimal75(p, s, a), OwnedColumn::Decimal75(q, t, b)) =>
            p.spec_value() == q.spec_value() && s == t && a@.len() == b@.len()
                && forall|i: int| 0 <= i < a@.len() ==> (#[trigger] a@[i])@ == b@[i]@,
        _ => x.spec_column_type() == y.spec_column_type() && x.spec_int_values() is Some
            && x.spec_int_values() == y.spec_int_values(),
    }
}

/// Whether element-wise arithmetic combines columns of these types: a
/// supported pair of integer types, or a decimal pair.
pub open spec fn arithmetic_pair_supported(l: ColumnType, r: ColumnType) -> bool {
    int_pair_result_type(l, r) is Some || is_decimal_pair(l, r)
}

/// Two integer types of one width that are not `Uint8` beside `TinyInt`
/// are one type.
proof fn lemma_same_width_same_type(l: ColumnType, r: ColumnType)
    requires
        spec_integer_bits(l) is Some,
        spec_integer_bits(l) == spec_integer_bits(r),
        !is_signed_casting_pair(l, r),
    ensures
        l == r,
{
}

/// Addition and multiplication do not depend on the order of their
/// operands: on columns of one length whose types are supported in either
/// order, one order succeeds exactly when the other does, and both give
/// the same numbers.
pub proof fn law_add_multiply_commute(
    kind: ArithKind,
    lhs: OwnedColumn,
    rhs: OwnedColumn,
    res: ColumnOperationResult<OwnedColumn>,
    swapped: ColumnOperationResult<OwnedColumn>,
)
    requires
        kind == ArithKind::Add || kind == ArithKind::Mul,
        lhs.spec_len() == rhs.spec_len(),
        arithmetic_pair_supported(lhs.spec_column_type(), rhs.spec_column_type()),
        arithmetic_pair_supported(rhs.spec_column_type(), lhs.spec_column_type()),
        arithmetic_result_is(kind, lhs, rhs, res),
        arithmetic_result_is(kind, rhs, lhs, swapped),
    ensures
        res is Ok <==> swapped is Ok,
        res is Ok ==> same_numbers(res->Ok_0, swapped->Ok_0),
{
    let lt = lhs.spec_column_type();
    let rt = rhs.spec_column_type();
    if int_pair_result_type(lt, rt) is Some {
        assert(int_pair_result_type(rt, lt) is Some);
        if spec_integer_bits(lt) == spec_integer_bits(rt) {
            lemma_same_width_same_type(lt, rt);
        }
        let t = int_pair_result_type(lt, rt)->0;
        assert(int_pair_result_type(rt, lt)->0 == t);
        let li = lhs.spec_int_values()->0;
        let ri = rhs.spec_int_values()->0;
        let lo = spec_integer_range(t).0;
        let hi = spec_integer_range(t).1;
        assert forall|i: int| 0 <= i < li.len() implies
            (op_fits(kind, #[trigger] li[i], ri[i], lo, hi) <==> op_fits(kind, ri[i], li[i], lo, hi)) by {
            assert(li[i] * ri[i] == ri[i] * li[i]) by (nonlinear_arith);
        }
        if res is Ok {
            let c = res->Ok_0;
            let d = swapped->Ok_0;
            assert forall|i: int| 0 <= i < li.len() implies #[trigger] c.spec_int_values()->0[i] == d.spec_int_values()->0[i] by {
                assert(li[i] * ri[i] == ri[i] * li[i]) by (nonlinear_arith);
                assert(arith_value(kind, li[i], ri[i]) == arith_value(kind, ri[i], li[i]));
            }
            assert(c.spec_int_values()->0 =~= d.spec_int_values()->0);
        }
    } else {
        assert(is_decimal_pair(lt, rt));
        assert(is_decimal_pair(rt, lt));
        let op = decimal_op_of(kind);
        crate::column_operation::law_add_subtract_type_is_symmetric(lt, rt);
        crate::column_operation::law_multiply_type_is_symmetric(lt, rt);
        assert(decimal_outcome(op, lt, rt) == decimal_outcome(op, rt, lt));
        let lf = lhs.spec_field_values();
        let rf = rhs.spec_field_values();
        if res is Ok {
            let c = res->Ok_0;
            let d = swapped->Ok_0;
            assert forall|i: int| 0 <= i < c->Decimal75_2@.len() implies
                (#[trigger] c->Decimal75_2@[i])@ == d->Decimal75_2@[i]@ by {
                let a = lf[i];
                let b = rf[i];
                assert(a * b == b * a) by (nonlinear_arith);
            }
        }
    }
}

/// A numeric column has one signed value per row.
proof fn lemma_signed_values_len(c: OwnedColumn)
    requires
        c.spec_column_type().spec_is_integer() || is_decimal_type(c.spec_column_type()),
    ensures
        c.spec_signed_values().len() == c.spec_len(),
{
}

/// Dividing columns as decimals gives, in each row, the dividend times
/// `10^(s + sr - sl)` divided by the divisor and rounded toward zero, where
/// `s` is the result's scale and `sl`, `sr` the operands' scales (for a
/// negative exponent the divisor is scaled up instead); no divisor is zero.
pub proof fn law_decimal_division_divides(lhs: OwnedColumn, rhs: OwnedColumn, res: ColumnOperationResult<OwnedColumn>, i: int)
    requires
        lhs.spec_len() == rhs.spec_len(),
        is_decimal_pair(lhs.spec_column_type(), rhs.spec_column_type()),
        arithmetic_result_is(ArithKind::Div, lhs, rhs, res),
        res is Ok,
        0 <= i < lhs.spec_len(),
    ensures
        res->Ok_0 matches OwnedColumn::Decimal75(p, s, v) && {
            let e = s as int + crate::column_operation::sc(rhs.spec_column_type())
                - crate::column_operation::sc(lhs.spec_column_type());
            let l = lhs.spec_signed_values()[i];
            let r = rhs.spec_signed_values()[i];
            &&& r != 0
            &&& v@[i]@ == crate::scalar::field_of(if e >= 0 {
                    crate::slice_operation::trunc_div(l * crate::scalar::pow10_int(e as nat), r)
                } else {
                    crate::slice_operation::trunc_div(l, r * crate::scalar::pow10_int((-e) as nat))
                })
        },
{
    let lt = lhs.spec_column_type();
    let rt = rhs.spec_column_type();
    assert(!is_signed_casting_pair(lt, rt));
    assert(int_pair_result_type(lt, rt) is None);
    let c = res->Ok_0;
    let tuple: ColumnOperationResult<(Precision, i8, Vec<Scalar>)> = match c {
        OwnedColumn::Decimal75(p, s, v) => Ok((p, s, v)),
        _ => Err(ColumnOperationError::DivisionByZero),
    };
    assert(division_result_is(tuple, lhs.spec_signed_values(), rhs.spec_signed_values(), lt, rt));
    lemma_signed_values_len(lhs);
    crate::column_operation::law_decimal_quotient_is_scaled_quotient(tuple, lhs.spec_signed_values(),
        rhs.spec_signed_values(), lt, rt, i);
}

} // verus!

//! Element-wise comparison of owned columns.
use vstd::prelude::*;
use crate::column_type::ColumnType;
use crate::column_arithmetic_operation::{int_pair_result_type, is_decimal_pair, is_signed_casting_pair};
use crate::column_operation::sc;
use crate::column_operation_error::{ColumnOperationError, ColumnOperationResult};
use crate::owned_column::OwnedColumn;
use crate::scalar::{Scalar, ToScalar, field_of, lemma_scalar_bound, lemma_signed_negation, modulus, pow10, pow10_int, signed_value};
use crate::slice_operation::{Relation, IntegerElement, bool_int, relation_holds, slice_binary_relation, slice_bool_relation};
use crate::text::string_of;

verus! {

broadcast use vstd::std_specs::vec::group_vec_axioms;

/// A value that comparisons order by an integer key.
pub trait OrderKey: Copy {
    /// The key the value is ordered by.
    spec fn spec_key(&self) -> int;

    /// The key the value is ordered by.
    fn key(&self) -> (k: i128)
        ensures
            k as int == self.spec_key(),
    ;
}

impl OrderKey for bool {
    open spec fn spec_key(&self) -> int { bool_int(*self) }
    fn key(&self) -> (k: i128) { if *self { 1 } else { 0 } }
}

impl OrderKey for u8 {
    open spec fn spec_key(&self) -> int { *self as int }
    fn key(&self) -> (k: i128) { *self as i128 }
}

impl OrderKey for i8 {
    open spec fn spec_key(&self) -> int { *self as int }
    fn key(&self) -> (k: i128) { *self as i128 }
}

impl OrderKey for i16 {
    open spec fn spec_key(&self) -> int { *self as int }
    fn key(&self) -> (k: i128) { *self as i128 }
}

impl OrderKey for i32 {
    open spec fn spec_key(&self) -> int { *self as int }
    fn key(&self) -> (k: i128) { *self as i128 }
}

impl OrderKey for i64 {
    open spec fn spec_key(&self) -> int { *self as int }
    fn key(&self) -> (k: i128) { *self as i128 }
}

impl OrderKey for i128 {
    open spec fn spec_key(&self) -> int { *self as int }
    fn key(&self) -> (k: i128) { *self }
}

/// How many decimal places the left operand is shifted by to bring both
/// operands of types `lt`, `rt` to the larger scale.
pub open spec fn left_upscale(lt: ColumnType, rt: ColumnType) -> nat {
    if sc(rt) > sc(lt) { (sc(rt) - sc(lt)) as nat } else { 0 }
}

/// How many decimal places the right operand is shifted by to bring both
/// operands of types `lt`, `rt` to the larger scale.
pub open spec fn right_upscale(lt: ColumnType, rt: ColumnType) -> nat {
    if sc(lt) > sc(rt) { (sc(lt) - sc(rt)) as nat } else { 0 }
}

/// The upscale amounts of two types that have a scale.
fn upscale_amounts(lt: ColumnType, rt: ColumnType) -> (r: (u8, u8))
    requires
        lt.spec_scale() is Some,
        rt.spec_scale() is Some,
    ensures
        r.0 as nat == left_upscale(lt, rt),
        r.1 as nat == right_upscale(lt, rt),
{
    let ls = lt.scale().unwrap();
    let rs = rt.scale().unwrap();
    if rs > ls {
        ((rs as i16 - ls as i16) as u8, 0)
    } else {
        (0, (ls as i16 - rs as i16) as u8)
    }
}

/// The field element `v` stands for, shifted `k` decimal places up.
pub open spec fn scaled(v: nat, k: nat) -> nat {
    (v * field_of(pow10_int(k))) % modulus()
}

/// The difference, in the field, of `l` shifted `lu` places and `r`
/// shifted `ru` places.
pub open spec fn decimal_difference(l: nat, r: nat, lu: nat, ru: nat) -> nat {
    field_of(scaled(l, lu) - scaled(r, ru))
}

/// Whether a comparison holds of two decimal values brought to a common
/// scale: the sign of their difference read as a signed integer decides.
pub open spec fn decimal_comparison_holds(kind: Relation, l: nat, r: nat, lu: nat, ru: nat) -> bool {
    relation_holds(kind, signed_value(decimal_difference(l, r, lu, ru)), 0)
}

/// Whether `v` holds, for each index below `n`, what `p` gives there.
pub open spec fn bools_are(v: Seq<bool>, n: nat, p: spec_fn(int) -> bool) -> bool {
    &&& v.len() == n
    &&& forall|i: int| 0 <= i < n ==> #[trigger] v[i] == p(i)
}

/// Compares the pairs of two numeric slices of the same length as
/// decimals, after shifting the left values `lu` and the right values `ru`
/// decimal places up.
pub fn decimal_slices_compare<T0: ToScalar, T1: ToScalar>(
    kind: Relation,
    lhs: &[T0],
    rhs: &[T1],
    lu: u8,
    ru: u8,
) -> (res: Vec<bool>)
    requires
        lhs@.len() == rhs@.len(),
    ensures
        bools_are(res@, lhs@.len(), |i: int|
            decimal_comparison_holds(kind, lhs@[i].spec_field(), rhs@[i].spec_field(), lu as nat, ru as nat)),
{
    let lf = pow10(lu);
    let rf = pow10(ru);
    let n = lhs.len();
    let mut out: Vec<bool> = Vec::new();
    let mut i: usize = 0;
    while i < n
        invariant
            n == lhs@.len() == rhs@.len(),
            i <= n,
            lf@ == field_of(pow10_int(lu as nat)),
            rf@ == field_of(pow10_int(ru as nat)),
            out@.len() == i,
            forall|j: int| 0 <= j < i ==> #[trigger] out@[j]
                == decimal_comparison_holds(kind, lhs@[j].spec_field(), rhs@[j].spec_field(), lu as nat, ru as nat),
        decreases n - i,
    {
        let a = lhs[i].to_scalar().mul(&lf);
        let b = rhs[i].to_scalar().mul(&rf);
        let d = a.sub(&b);
        proof { lemma_scalar_bound(d); }
        let neg = d.is_negative();
        let zero = d.is_zero();
        let r = match kind {
            Relation::Eq => zero,
            Relation::Lt => neg,
            Relation::Gt => !neg && !zero,
        };
        out.push(r);
        i = i + 1;
    }
    out
}

/// Compares two numeric slices of the same length as decimals of types
/// `lt` and `rt`, brought to the larger of the two scales.
pub fn decimal_columns_compare<T0: ToScalar, T1: ToScalar>(
    kind: Relation,
    lhs: &[T0],
    rhs: &[T1],
    lt: ColumnType,
    rt: ColumnType,
) -> (res: Vec<bool>)
    requires
        lhs@.len() == rhs@.len(),
        lt.spec_scale() is Some,
        rt.spec_scale() is Some,
    ensures
        bools_are(res@, lhs@.len(), |i: int|
            decimal_comparison_holds(kind, lhs@[i].spec_field(), rhs@[i].spec_field(),
                left_upscale(lt, rt), right_upscale(lt, rt))),
{
    let (lu, ru) = upscale_amounts(lt, rt);
    decimal_slices_compare(kind, lhs, rhs, lu, ru)
}

/// What comparing two slices of strings gives: for equality, whether the
/// strings of each pair up to the shorter length are equal; the orderings
/// are refused with an error naming the operator.
pub open spec fn string_comparison_is(
    kind: Relation,
    lhs: Seq<String>,
    rhs: Seq<String>,
    res: ColumnOperationResult<Vec<bool>>,
) -> bool {
    if kind == Relation::Eq {
        res matches Ok(v) && bools_are(v@, if lhs.len() <= rhs.len() { lhs.len() } else { rhs.len() },
            |i: int| lhs[i]@ == rhs[i]@)
    } else {
        res matches Err(ColumnOperationError::BinaryOperationInvalidColumnType { operator, left_type, right_type })
            && operator@ == (if kind == Relation::Gt { ">"@ } else { "<"@ })
            && left_type == ColumnType::VarChar && right_type == ColumnType::VarChar
    }
}

/// Compares strings: equality of each pair; the orderings are refused.
pub fn strings_compare(kind: Relation, lhs: &[String], rhs: &[String]) -> (res: ColumnOperationResult<Vec<bool>>)
    ensures
        string_comparison_is(kind, lhs@, rhs@, res),
{
    match kind {
        Relation::Eq => {
            let n = if lhs.len() <= rhs.len() { lhs.len() } else { rhs.len() };
            let mut out: Vec<bool> = Vec::new();
            let mut i: usize = 0;
            while i < n
                invariant
                    n <= lhs@.len(),
                    n <= rhs@.len(),
                    i <= n,
                    out@.len() == i,
                    forall|j: int| 0 <= j < i ==> #[trigger] out@[j] == (lhs@[j]@ == rhs@[j]@),
                decreases n - i,
            {
                out.push(lhs[i] == rhs[i]);
                i = i + 1;
            }
            Ok(out)
        },
        Relation::Gt => Err(ColumnOperationError::BinaryOperationInvalidColumnType {
            operator: string_of(">"),
            left_type: ColumnType::VarChar,
            right_type: ColumnType::VarChar,
        }),
        Relation::Lt => Err(ColumnOperationError::BinaryOperationInvalidColumnType {
            operator: string_of("<"),
            left_type: ColumnType::VarChar,
            right_type: ColumnType::VarChar,
        }),
    }
}

/// The error for operands of lengths `a` and `b`.
pub open spec fn length_error(a: nat, b: nat) -> ColumnOperationError {
    ColumnOperationError::DifferentColumnLength { len_a: a as usize, len_b: b as usize }
}

/// Whether `res` is the boolean column that holds, for each index below
/// `n`, what `p` gives there.
pub open spec fn bool_column_is(res: ColumnOperationResult<OwnedColumn>, n: nat, p: spec_fn(int) -> bool) -> bool {
    res matches Ok(OwnedColumn::Boolean(v)) && bools_are(v@, n, p)
}

/// What element-wise comparison of two owned columns gives: a length error
/// for columns of different lengths; a signed casting error for `Uint8`
/// beside `TinyInt`; the comparison of the exact values for a supported
/// pair of integer columns; of the values brought to a common scale for a
/// decimal pair; of `false < true` for booleans; of equality for strings,
/// whose orderings are refused; else an error naming both types.
pub open spec fn comparison_result_is(
    kind: Relation,
    lhs: OwnedColumn,
    rhs: OwnedColumn,
    res: ColumnOperationResult<OwnedColumn>,
) -> bool {
    let lt = lhs.spec_column_type();
    let rt = rhs.spec_column_type();
    let n = lhs.spec_len();
    if lhs.spec_len() != rhs.spec_len() {
        res == Err::<OwnedColumn, ColumnOperationError>(length_error(lhs.spec_len(), rhs.spec_len()))
    } else if is_signed_casting_pair(lt, rt) {
        res == Err::<OwnedColumn, ColumnOperationError>(ColumnOperationError::SignedCastingError {
            left_type: lt,
            right_type: rt,
        })
    } else if int_pair_result_type(lt, rt) is Some {
        bool_column_is(res, n, |i: int|
            relation_holds(kind, lhs.spec_int_values()->0[i], rhs.spec_int_values()->0[i]))
    } else if is_decimal_pair(lt, rt) {
        bool_column_is(res, n, |i: int|
            decimal_comparison_holds(kind, lhs.spec_field_values()[i], rhs.spec_field_values()[i],
                left_upscale(lt, rt), right_upscale(lt, rt)))
    } else {
        match (lhs, rhs) {
            (OwnedColumn::Boolean(l), OwnedColumn::Boolean(r)) =>
                bool_column_is(res, n, |i: int| relation_holds(kind, bool_int(l@[i]), bool_int(r@[i]))),
            (OwnedColumn::VarChar(l), OwnedColumn::VarChar(r)) =>
                string_comparison_is(kind, l@, r@, match res {
                    Ok(OwnedColumn::Boolean(v)) => Ok(v),
                    Ok(_) => Err(ColumnOperationError::DivisionByZero),
                    Err(e) => Err(e),
                }) && (res is Ok ==> res->Ok_0 is Boolean),
            _ => res matches Err(ColumnOperationError::BinaryOperationInvalidColumnType {
                operator, left_type, right_type })
                && operator@ == "ComparisonOp"@ && left_type == lt && right_type == rt,
        }
    }
}

/// Wraps the booleans of an integer comparison into a column.
fn int_columns_compare<L: IntegerElement, R: IntegerElement>(kind: Relation, lhs: &[L], rhs: &[R])
    -> (res: ColumnOperationResult<OwnedColumn>)
    requires
        lhs@.len() == rhs@.len(),
    ensures
        bool_column_is(res, lhs@.len(), |i: int| relation_holds(kind, lhs@[i].spec_int(), rhs@[i].spec_int())),
{
    Ok(OwnedColumn::Boolean(slice_binary_relation(kind, lhs, rhs)))
}

/// Compares integer columns with a `Uint8` left operand.
fn int_compare_uint8(kind: Relation, lhs: &OwnedColumn, rhs: &OwnedColumn)
    -> (res: ColumnOperationResult<OwnedColumn>)
    requires
        lhs is Uint8,
        lhs.spec_len() == rhs.spec_len(),
        int_pair_result_type(lhs.spec_column_type(), rhs.spec_column_type()) is Some,
    ensures
        bool_column_is(res, lhs.spec_len(), |i: int|
            relation_holds(kind, lhs.spec_int_values()->0[i], rhs.spec_int_values()->0[i])),
{
    match (lhs, rhs) {
        (OwnedColumn::Uint8(l), OwnedColumn::Uint8(r)) => int_columns_compare(kind, l.as_slice(), r.as_slice()),
        (OwnedColumn::Uint8(l), OwnedColumn::SmallInt(r)) => int_columns_compare(kind, l.as_slice(), r.as_slice()),
        (OwnedColumn::Uint8(l), OwnedColumn::Int(r)) => int_columns_compare(kind, l.as_slice(), r.as_slice()),
        (OwnedColumn::Uint8(l), OwnedColumn::BigInt(r)) => int_columns_compare(kind, l.as_slice(), r.as_slice()),
        (OwnedColumn::Uint8(l), OwnedColumn::Int128(r)) => int_columns_compare(kind, l.as_slice(), r.as_slice()),
        _ => {
            proof { assert(false); }
            Err(ColumnOperationError::DivisionByZero)
        },
    }
}

/// Compares integer columns with a `TinyInt` left operand.
fn int_compare_tinyint(kind: Relation, lhs: &OwnedColumn, rhs: &OwnedColumn)
    -> (res: ColumnOperationResult<OwnedColumn>)
    requires
        lhs is TinyInt,
        lhs.spec_len() == rhs.spec_len(),
        int_pair_result_type(lhs.spec_column_type(), rhs.spec_column_type()) is Some,
    ensures
        bool_column_is(res, lhs.spec_len(), |i: int|
            relation_holds(kind, lhs.spec_int_values()->0[i], rhs.spec_int_values()->0[i])),
{
    match (lhs, rhs) {
        (OwnedColumn::TinyInt(l), OwnedColumn::TinyInt(r)) => int_columns_compare(kind, l.as_slice(), r.as_slice()),
        (OwnedColumn::TinyInt(l), OwnedColumn::SmallInt(r)) => int_columns_compare(kind, l.as_slice(), r.as_slice()),
        (OwnedColumn::TinyInt(l), OwnedColumn::Int(r)) => int_columns_compare(kind, l.as_slice(), r.as_slice()),
        (OwnedColumn::TinyInt(l), OwnedColumn::BigInt(r)) => int_columns_compare(kind, l.as_slice(), r.as_slice()),
        (OwnedColumn::TinyInt(l), OwnedColumn::Int128(r)) => int_columns_compare(kind, l.as_slice(), r.as_slice()),
        _ => {
            proof { assert(false); }
            Err(ColumnOperationError::DivisionByZero)
        },
    }
}

/// Compares integer columns with a `SmallInt` left operand.
fn int_compare_smallint(kind: Relation, lhs: &OwnedColumn, rhs: &OwnedColumn)
    -> (res: ColumnOperationResult<OwnedColumn>)
    requires
        lhs is SmallInt,
        lhs.spec_len() == rhs.spec_len(),
        int_pair_result_type(lhs.spec_column_type(), rhs.spec_column_type()) is Some,
    ensures
        bool_column_is(res, lhs.spec_len(), |i: int|
            relation_holds(kind, lhs.spec_int_values()->0[i], rhs.spec_int_values()->0[i])),
{
    match (lhs, rhs) {
        (OwnedColumn::SmallInt(l), OwnedColumn::TinyInt(r)) => int_columns_compare(kind, l.as_slice(), r.as_slice()),
        (OwnedColumn::SmallInt(l), OwnedColumn::SmallInt(r)) => int_columns_compare(kind, l.as_slice(), r.as_slice()),
        (OwnedColumn::SmallInt(l), OwnedColumn::Int(r)) => int_columns_compare(kind, l.as_slice(), r.as_slice()),
        (OwnedColumn::SmallInt(l), OwnedColumn::BigInt(r)) => int_columns_compare(kind, l.as_slice(), r.as_slice()),
        (OwnedColumn::SmallInt(l), OwnedColumn::Int128(r)) => int_columns_compare(kind, l.as_slice(), r.as_slice()),
        _ => {
            proof { assert(false); }
            Err(ColumnOperationError::DivisionByZero)
        },
    }
}

/// Compares integer columns with a `Int` left operand.
fn int_compare_int(kind: Relation, lhs: &OwnedColumn, rhs: &OwnedColumn)
    -> (res: ColumnOperationResult<OwnedColumn>)
    requires
        lhs is Int,
        lhs.spec_len() == rhs.spec_len(),
        int_pair_result_type(lhs.spec_column_type(), rhs.spec_column_type()) is Some,
    ensures
        bool_column_is(res, lhs.spec_len(), |i: int|
            relation_holds(kind, lhs.spec_int_values()->0[i], rhs.spec_int_values()->0[i])),
{
    match (lhs, rhs) {
        (OwnedColumn::Int(l), OwnedColumn::TinyInt(r)) => int_columns_compare(kind, l.as_slice(), r.as_slice()),
        (OwnedColumn::Int(l), OwnedColumn::SmallInt(r)) => int_columns_compare(kind, l.as_slice(), r.as_slice()),
        (OwnedColumn::Int(l), OwnedColumn::Int(r)) => int_columns_compare(kind, l.as_slice(), r.as_slice()),
        (OwnedColumn::Int(l), OwnedColumn::BigInt(r)) => int_columns_compare(kind, l.as_slice(), r.as_slice()),
        (OwnedColumn::Int(l), OwnedColumn::Int128(r)) => int_columns_compare(kind, l.as_slice(), r.as_slice()),
        _ => {
            proof { assert(false); }
            Err(ColumnOperationError::DivisionByZero)
        },
    }
}

/// Compares integer columns with a `BigInt` left operand.
fn int_compare_bigint(kind: Relation, lhs: &OwnedColumn, rhs: &OwnedColumn)
    -> (res: ColumnOperationResult<OwnedColumn>)
    requires
        lhs is BigInt,
        lhs.spec_len() == rhs.spec_len(),
        int_pair_result_type(lhs.spec_column_type(), rhs.spec_column_type()) is Some,
    ensures
        bool_column_is(res, lhs.spec_len(), |i: int|
            relation_holds(kind, lhs.spec_int_values()->0[i], rhs.spec_int_values()->0[i])),
{
    match (lhs, rhs) {
        (OwnedColumn::BigInt(l), OwnedColumn::TinyInt(r)) => int_columns_compare(kind, l.as_slice(), r.as_slice()),
        (OwnedColumn::BigInt(l), OwnedColumn::SmallInt(r)) => int_columns_compare(kind, l.as_slice(), r.as_slice()),
        (OwnedColumn::BigInt(l), OwnedColumn::Int(r)) => int_columns_compare(kind, l.as_slice(), r.as_slice()),
        (OwnedColumn::BigInt(l), OwnedColumn::BigInt(r)) => int_columns_compare(kind, l.as_slice(), r.as_slice()),
        (OwnedColumn::BigInt(l), OwnedColumn::Int128(r)) => int_columns_compare(kind, l.as_slice(), r.as_slice()),
        _ => {
            proof { assert(false); }
            Err(ColumnOperationError::DivisionByZero)
        },
    }
}

/// Compares integer columns with a `Int128` left operand.
fn int_compare_int128(kind: Relation, lhs: &OwnedColumn, rhs: &OwnedColumn)
    -> (res: ColumnOperationResult<OwnedColumn>)
    requires
        lhs is Int128,
        lhs.spec_len() == rhs.spec_len(),
        int_pair_result_type(lhs.spec_column_type(), rhs.spec_column_type()) is Some,
    ensures
        bool_column_is(res, lhs.spec_len(), |i: int|
            relation_holds(kind, lhs.spec_int_values()->0[i], rhs.spec_int_values()->0[i])),
{
    match (lhs, rhs) {
        (OwnedColumn::Int128(l), OwnedColumn::TinyInt(r)) => int_columns_compare(kind, l.as_slice(), r.as_slice()),
        (OwnedColumn::Int128(l), OwnedColumn::SmallInt(r)) => int_columns_compare(kind, l.as_slice(), r.as_slice()),
        (OwnedColumn::Int128(l), OwnedColumn::Int(r)) => int_columns_compare(kind, l.as_slice(), r.as_slice()),
        (OwnedColumn::Int128(l), OwnedColumn::BigInt(r)) => int_columns_compare(kind, l.as_slice(), r.as_slice()),
        (OwnedColumn::Int128(l), OwnedColumn::Int128(r)) => int_columns_compare(kind, l.as_slice(), r.as_slice()),
        _ => {
            proof { assert(false); }
            Err(ColumnOperationError::DivisionByZero)
        },
    }
}

/// Compares a supported pair of integer columns of the same length.
fn integer_pair_compare(kind: Relation, lhs: &OwnedColumn, rhs: &OwnedColumn)
    -> (res: ColumnOperationResult<OwnedColumn>)
    requires
        lhs.spec_len() == rhs.spec_len(),
        int_pair_result_type(lhs.spec_column_type(), rhs.spec_column_type()) is Some,
    ensures
        bool_column_is(res, lhs.spec_len(), |i: int|
            relation_holds(kind, lhs.spec_int_values()->0[i], rhs.spec_int_values()->0[i])),
{
    match lhs {
        OwnedColumn::Uint8(_) => int_compare_uint8(kind, lhs, rhs),
        OwnedColumn::TinyInt(_) => int_compare_tinyint(kind, lhs, rhs),
        OwnedColumn::SmallInt(_) => int_compare_smallint(kind, lhs, rhs),
        OwnedColumn::Int(_) => int_compare_int(kind, lhs, rhs),
        OwnedColumn::BigInt(_) => int_compare_bigint(kind, lhs, rhs),
        _ => int_compare_int128(kind, lhs, rhs),
    }
}

/// Wraps the booleans of a decimal comparison into a column.
fn decimal_slices_column<T0: ToScalar, T1: ToScalar>(
    kind: Relation,
    lhs: &[T0],
    rhs: &[T1],
    lt: ColumnType,
    rt: ColumnType,
) -> (res: ColumnOperationResult<OwnedColumn>)
    requires
        lhs@.len() == rhs@.len(),
        lt.spec_scale() is Some,
        rt.spec_scale() is Some,
    ensures
        bool_column_is(res, lhs@.len(), |i: int|
            decimal_comparison_holds(kind, lhs@[i].spec_field(), rhs@[i].spec_field(),
                left_upscale(lt, rt), right_upscale(lt, rt))),
{
    Ok(OwnedColumn::Boolean(decimal_columns_compare(kind, lhs, rhs, lt, rt)))
}

/// Compares a decimal pair of columns of the same length.
fn decimal_pair_compare(kind: Relation, lhs: &OwnedColumn, rhs: &OwnedColumn)
    -> (res: ColumnOperationResult<OwnedColumn>)
    requires
        lhs.spec_len() == rhs.spec_len(),
        is_decimal_pair(lhs.spec_column_type(), rhs.spec_column_type()),
    ensures
        bool_column_is(res, lhs.spec_len(), |i: int|
            decimal_comparison_holds(kind, lhs.spec_field_values()[i], rhs.spec_field_values()[i],
                left_upscale(lhs.spec_column_type(), rhs.spec_column_type()),
                right_upscale(lhs.spec_column_type(), rhs.spec_column_type()))),
{
    let lt = lhs.column_type();
    let rt = rhs.column_type();
    match (lhs, rhs) {
        (OwnedColumn::Uint8(l), OwnedColumn::Decimal75(_, _, r)) => decimal_slices_column(kind, l.as_slice(), r.as_slice(), lt, rt),
        (OwnedColumn::TinyInt(l), OwnedColumn::Decimal75(_, _, r)) => decimal_slices_column(kind, l.as_slice(), r.as_slice(), lt, rt),
        (OwnedColumn::SmallInt(l), OwnedColumn::Decimal75(_, _, r)) => decimal_slices_column(kind, l.as_slice(), r.as_slice(), lt, rt),
        (OwnedColumn::Int(l), OwnedColumn::Decimal75(_, _, r)) => decimal_slices_column(kind, l.as_slice(), r.as_slice(), lt, rt),
        (OwnedColumn::BigInt(l), OwnedColumn::Decimal75(_, _, r)) => decimal_slices_column(kind, l.as_slice(), r.as_slice(), lt, rt),
        (OwnedColumn::Int128(l), OwnedColumn::Decimal75(_, _, r)) => decimal_slices_column(kind, l.as_slice(), r.as_slice(), lt, rt),
        (OwnedColumn::Decimal75(_, _, l), OwnedColumn::TinyInt(r)) => decimal_slices_column(kind, l.as_slice(), r.as_slice(), lt, rt),
        (OwnedColumn::Decimal75(_, _, l), OwnedColumn::SmallInt(r)) => decimal_slices_column(kind, l.as_slice(), r.as_slice(), lt, rt),
        (OwnedColumn::Decimal75(_, _, l), OwnedColumn::Int(r)) => decimal_slices_column(kind, l.as_slice(), r.as_slice(), lt, rt),
        (OwnedColumn::Decimal75(_, _, l), OwnedColumn::BigInt(r)) => decimal_slices_column(kind, l.as_slice(), r.as_slice(), lt, rt),
        (OwnedColumn::Decimal75(_, _, l), OwnedColumn::Int128(r)) => decimal_slices_column(kind, l.as_slice(), r.as_slice(), lt, rt),
        (OwnedColumn::Decimal75(_, _, l), OwnedColumn::Decimal75(_, _, r)) => decimal_slices_column(kind, l.as_slice(), r.as_slice(), lt, rt),
        _ => {
            proof { assert(false); }
            Err(ColumnOperationError::DivisionByZero)
        },
    }
}

/// Applies a comparison element-wise to two owned columns.
pub fn element_wise_comparison(kind: Relation, lhs: &OwnedColumn, rhs: &OwnedColumn)
    -> (res: ColumnOperationResult<OwnedColumn>)
    ensures
        comparison_result_is(kind, *lhs, *rhs, res),
{
    if lhs.len() != rhs.len() {
        return Err(ColumnOperationError::DifferentColumnLength { len_a: lhs.len(), len_b: rhs.len() });
    }
    let lt = lhs.column_type();
    let rt = rhs.column_type();
    if (lt == ColumnType::Uint8 && rt == ColumnType::TinyInt) || (lt == ColumnType::TinyInt && rt == ColumnType::Uint8) {
        return Err(ColumnOperationError::SignedCastingError { left_type: lt, right_type: rt });
    }
    if lt.is_integer() && rt.is_integer() && (rt != ColumnType::Uint8 || lt == ColumnType::Uint8) {
        return integer_pair_compare(kind, lhs, rhs);
    }
    let l_dec = match lt { ColumnType::Decimal75(_, _) => true, _ => false };
    let r_dec = match rt { ColumnType::Decimal75(_, _) => true, _ => false };
    if (lt.is_integer() && r_dec) || (l_dec && rt.is_integer() && rt != ColumnType::Uint8) || (l_dec && r_dec) {
        return decimal_pair_compare(kind, lhs, rhs);
    }
    match (lhs, rhs) {
        (OwnedColumn::Boolean(l), OwnedColumn::Boolean(r)) =>
            Ok(OwnedColumn::Boolean(slice_bool_relation(kind, l.as_slice(), r.as_slice()))),
        (OwnedColumn::VarChar(l), OwnedColumn::VarChar(r)) =>
            match strings_compare(kind, l.as_slice(), r.as_slice()) {
                Ok(v) => Ok(OwnedColumn::Boolean(v)),
                Err(e) => Err(e),
            },
        _ => Err(ColumnOperationError::BinaryOperationInvalidColumnType {
            operator: string_of("ComparisonOp"),
            left_type: lt,
            right_type: rt,
        }),
    }
}

/// A comparison of columns.
pub trait ComparisonOp {
    /// Which comparison this is.
    spec fn spec_kind() -> Relation;

    /// Which comparison this is.
    fn kind() -> (k: Relation)
        ensures
            k == Self::spec_kind(),
    ;

    /// The comparison of two values of one type.
    fn op<T: OrderKey>(l: &T, r: &T) -> (b: bool)
        ensures
            b == relation_holds(Self::spec_kind(), l.spec_key(), r.spec_key()),
    {
        let a = l.key();
        let b = r.key();
        match Self::kind() {
            Relation::Eq => a == b,
            Relation::Lt => a < b,
            Relation::Gt => a > b,
        }
    }

    /// The comparison of integer values with decimal values of types
    /// `left_column_type` and `right_column_type`, at the larger scale.
    fn decimal_op_left_upcast<T: ToScalar>(
        lhs: &[T],
        rhs: &[Scalar],
        left_column_type: ColumnType,
        right_column_type: ColumnType,
    ) -> (res: Vec<bool>)
        requires
            lhs@.len() == rhs@.len(),
            left_column_type.spec_scale() is Some,
            right_column_type.spec_scale() is Some,
        ensures
            bools_are(res@, lhs@.len(), |i: int|
                decimal_comparison_holds(Self::spec_kind(), lhs@[i].spec_field(), rhs@[i]@,
                    left_upscale(left_column_type, right_column_type),
                    right_upscale(left_column_type, right_column_type))),
    {
        decimal_columns_compare(Self::kind(), lhs, rhs, left_column_type, right_column_type)
    }

    /// The comparison of decimal values with integer values of types
    /// `left_column_type` and `right_column_type`, at the larger scale.
    fn decimal_op_right_upcast<T: ToScalar>(
        lhs: &[Scalar],
        rhs: &[T],
        left_column_type: ColumnType,
        right_column_type: ColumnType,
    ) -> (res: Vec<bool>)
        requires
            lhs@.len() == rhs@.len(),
            left_column_type.spec_scale() is Some,
            right_column_type.spec_scale() is Some,
        ensures
            bools_are(res@, lhs@.len(), |i: int|
                decimal_comparison_holds(Self::spec_kind(), lhs@[i]@, rhs@[i].spec_field(),
                    left_upscale(left_column_type, right_column_type),
                    right_upscale(left_column_type, right_column_type))),
    {
        decimal_columns_compare(Self::kind(), lhs, rhs, left_column_type, right_column_type)
    }

    /// The comparison of the pairs of two string slices; only equality is
    /// defined on strings.
    fn string_op(lhs: &[String], rhs: &[String]) -> (res: ColumnOperationResult<Vec<bool>>)
        ensures
            string_comparison_is(Self::spec_kind(), lhs@, rhs@, res),
    {
        strings_compare(Self::kind(), lhs, rhs)
    }

    /// The comparison applied element-wise to two owned columns, giving a
    /// boolean column.
    fn owned_column_element_wise_comparison(lhs: &OwnedColumn, rhs: &OwnedColumn)
        -> (res: ColumnOperationResult<OwnedColumn>)
        ensures
            comparison_result_is(Self::spec_kind(), *lhs, *rhs, res),
    {
        element_wise_comparison(Self::kind(), lhs, rhs)
    }
}

/// Equality.
pub struct EqualOp {}

impl ComparisonOp for EqualOp {
    open spec fn spec_kind() -> Relation { Relation::Eq }
    fn kind() -> (k: Relation) { Relation::Eq }
}

/// Greater than.
pub struct GreaterThanOp {}

impl ComparisonOp for GreaterThanOp {
    open spec fn spec_kind() -> Relation { Relation::Gt }
    fn kind() -> (k: Relation) { Relation::Gt }
}

/// Less than.
pub struct LessThanOp {}

impl ComparisonOp for LessThanOp {
    open spec fn spec_kind() -> Relation { Relation::Lt }
    fn kind() -> (k: Relation) { Relation::Lt }
}

/// Swapping two decimal values negates the signed difference of their
/// scaled forms.
proof fn lemma_decimal_difference_swaps(l: nat, r: nat, lu: nat, ru: nat)
    ensures
        signed_value(decimal_difference(r, l, ru, lu)) == -signed_value(decimal_difference(l, r, lu, ru)),
{
    let x = scaled(l, lu) - scaled(r, ru);
    assert(scaled(r, ru) - scaled(l, lu) == -x);
    lemma_signed_negation(x);
}

/// `lhs < rhs` holds row by row exactly where `rhs > lhs` does, whenever
/// both comparisons are defined.
pub proof fn law_less_than_is_flipped_greater_than(
    lhs: OwnedColumn,
    rhs: OwnedColumn,
    lt: ColumnOperationResult<OwnedColumn>,
    gt: ColumnOperationResult<OwnedColumn>,
)
    requires
        comparison_result_is(Relation::Lt, lhs, rhs, lt),
        comparison_result_is(Relation::Gt, rhs, lhs, gt),
        lt is Ok,
        gt is Ok,
    ensures
        lt matches Ok(OwnedColumn::Boolean(a)) && gt matches Ok(OwnedColumn::Boolean(b)) && a@ == b@,
{
    let lt_t = lhs.spec_column_type();
    let rt_t = rhs.spec_column_type();
    if let (Ok(OwnedColumn::Boolean(a)), Ok(OwnedColumn::Boolean(b))) = (lt, gt) {
        if is_decimal_pair(lt_t, rt_t) && int_pair_result_type(lt_t, rt_t) is None {
            assert forall|i: int| 0 <= i < a@.len() implies a@[i] == b@[i] by {
                lemma_decimal_difference_swaps(lhs.spec_field_values()[i], rhs.spec_field_values()[i],
                    left_upscale(lt_t, rt_t), right_upscale(lt_t, rt_t));
            }
        }
        assert(a@ =~= b@);
    }
}

/// Equality holds row by row the same way whichever column comes first,
/// whenever both comparisons are defined.
pub proof fn law_equality_is_symmetric(
    lhs: OwnedColumn,
    rhs: OwnedColumn,
    lr: ColumnOperationResult<OwnedColumn>,
    rl: ColumnOperationResult<OwnedColumn>,
)
    requires
        comparison_result_is(Relation::Eq, lhs, rhs, lr),
        comparison_result_is(Relation::Eq, rhs, lhs, rl),
        lr is Ok,
        rl is Ok,
    ensures
        lr matches Ok(OwnedColumn::Boolean(a)) && rl matches Ok(OwnedColumn::Boolean(b)) && a@ == b@,
{
    let lt_t = lhs.spec_column_type();
    let rt_t = rhs.spec_column_type();
    if let (Ok(OwnedColumn::Boolean(a)), Ok(OwnedColumn::Boolean(b))) = (lr, rl) {
        if is_decimal_pair(lt_t, rt_t) && int_pair_result_type(lt_t, rt_t) is None {
            assert forall|i: int| 0 <= i < a@.len() implies a@[i] == b@[i] by {
                lemma_decimal_difference_swaps(lhs.spec_field_values()[i], rhs.spec_field_values()[i],
                    left_upscale(lt_t, rt_t), right_upscale(lt_t, rt_t));
            }
        }
        assert(a@ =~= b@);
    }
}

/// Of `lhs = rhs`, `lhs < rhs` and `lhs > rhs`, exactly one holds on each
/// row, whenever the three comparisons are defined.
pub proof fn law_comparisons_partition_rows(
    lhs: OwnedColumn,
    rhs: OwnedColumn,
    eq: ColumnOperationResult<OwnedColumn>,
    lt: ColumnOperationResult<OwnedColumn>,
    gt: ColumnOperationResult<OwnedColumn>,
)
    requires
        comparison_result_is(Relation::Eq, lhs, rhs, eq),
        comparison_result_is(Relation::Lt, lhs, rhs, lt),
        comparison_result_is(Relation::Gt, lhs, rhs, gt),
        eq is Ok,
        lt is Ok,
        gt is Ok,
    ensures
        eq matches Ok(OwnedColumn::Boolean(e)) && lt matches Ok(OwnedColumn::Boolean(a))
            && gt matches Ok(OwnedColumn::Boolean(b)) && e@.len() == a@.len() == b@.len()
            && forall|i: int| 0 <= i < e@.len() ==>
                (if #[trigger] e@[i] { 1int } else { 0int }) + (if a@[i] { 1int } else { 0int })
                    + (if b@[i] { 1int } else { 0int }) == 1,
{
}

} // verus!

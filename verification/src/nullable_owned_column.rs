//! Owned columns with an optional presence mask, and their operations:
//! binary operations are null where either operand is null, `AND` and `OR`
//! follow SQL's three-valued logic, and null rows always hold zero values.
use vstd::prelude::*;
use crate::column::Column;
use crate::column_arithmetic_operation::{arithmetic_result_is, int_pair_result_type, is_signed_casting_pair};
use crate::column_comparison_operation::{comparison_result_is, length_error};
use crate::column_operation_error::{ColumnOperationError, ColumnOperationResult};
use crate::column_type::ColumnType;
use crate::nullable_column::{
    NullableColumn, NullableColumnError, NullableColumnResult, SqlBooleanOp, boolean_known, check_presence_len,
    combine_presence, combined_presence, copy_bools, mask_view, owned_mask_view, presence_fits,
    replace_absent_values, sql_and_presence, sql_or_presence, boolean_presence, boolean_rows,
};
use crate::owned_column::{OwnedColumn, lemma_scalars_read_len, scalars_read_as};
use crate::owned_column_error::OwnedColumnError;
use crate::permutation::{Permutation, PermutationError};
use sqlparser::ast::Ident;
use crate::scalar::Scalar;
use crate::slice_operation::{ArithKind, Relation, ints};
use crate::text::string_of;

verus! {

broadcast use vstd::std_specs::vec::group_vec_axioms;

/// What the values of null rows are set to before an operation.
#[derive(Debug, Clone, Copy, PartialEq, Eq, Structural)]
pub enum NullRowReplacement {
    /// Zero, `false` or the empty string.
    Zero,
    /// One or `true`.
    One,
}

/// Whether row `i` is absent from a mask.
pub open spec fn absent(presence: Seq<bool>, i: int) -> bool {
    i < presence.len() && !presence[i]
}

/// Whether row `i` of `new` is row `i` of `old`, or, when the mask marks
/// it absent, the replacement value: one (`true`) when `one` is set, else
/// zero (`false`, the empty string or byte string).
pub open spec fn row_replaced(old: OwnedColumn, presence: Seq<bool>, one: bool, new: OwnedColumn, i: int) -> bool {
    let gone = absent(presence, i);
    match (old, new) {
        (OwnedColumn::Boolean(a), OwnedColumn::Boolean(b)) => b@[i] == (if gone { one } else { a@[i] }),
        (OwnedColumn::Uint8(a), OwnedColumn::Uint8(b)) =>
            b@[i] == (if gone { if one { 1u8 } else { 0u8 } } else { a@[i] }),
        (OwnedColumn::TinyInt(a), OwnedColumn::TinyInt(b)) =>
            b@[i] == (if gone { if one { 1i8 } else { 0i8 } } else { a@[i] }),
        (OwnedColumn::SmallInt(a), OwnedColumn::SmallInt(b)) =>
            b@[i] == (if gone { if one { 1i16 } else { 0i16 } } else { a@[i] }),
        (OwnedColumn::Int(a), OwnedColumn::Int(b)) =>
            b@[i] == (if gone { if one { 1i32 } else { 0i32 } } else { a@[i] }),
        (OwnedColumn::BigInt(a), OwnedColumn::BigInt(b)) =>
            b@[i] == (if gone { if one { 1i64 } else { 0i64 } } else { a@[i] }),
        (OwnedColumn::TimestampTZ(_, _, a), OwnedColumn::TimestampTZ(_, _, b)) =>
            b@[i] == (if gone { if one { 1i64 } else { 0i64 } } else { a@[i] }),
        (OwnedColumn::Int128(a), OwnedColumn::Int128(b)) =>
            b@[i] == (if gone { if one { 1i128 } else { 0i128 } } else { a@[i] }),
        (OwnedColumn::Decimal75(_, _, a), OwnedColumn::Decimal75(_, _, b)) =>
            b@[i]@ == (if gone { if one { 1nat } else { 0nat } } else { a@[i]@ }),
        (OwnedColumn::Scalar(a), OwnedColumn::Scalar(b)) =>
            b@[i]@ == (if gone { if one { 1nat } else { 0nat } } else { a@[i]@ }),
        (OwnedColumn::VarChar(a), OwnedColumn::VarChar(b)) =>
            b@[i]@ == (if gone { Seq::<char>::empty() } else { a@[i]@ }),
        (OwnedColumn::VarBinary(a), OwnedColumn::VarBinary(b)) =>
            b@[i]@ == (if gone { Seq::<u8>::empty() } else { a@[i]@ }),
        _ => false,
    }
}

/// Whether `new` is `old` with the values of the rows the mask marks
/// absent replaced (by one when `one` is set, else by zero).
pub open spec fn replaced_is(old: OwnedColumn, presence: Seq<bool>, one: bool, new: OwnedColumn) -> bool {
    &&& new.spec_column_type() == old.spec_column_type()
    &&& new.spec_len() == old.spec_len()
    &&& forall|i: int| 0 <= i < old.spec_len() ==> #[trigger] row_replaced(old, presence, one, new, i)
}

/// Replaces, in place, the values of the rows the mask marks absent.
pub fn replace_absent_rows(column: &mut OwnedColumn, presence: &[bool], replacement: NullRowReplacement)
    ensures
        replaced_is(*old(column), presence@, replacement == NullRowReplacement::One, *final(column)),
{
    let one = match replacement { NullRowReplacement::Zero => false, NullRowReplacement::One => true };
    match column {
        OwnedColumn::Boolean(values) => replace_absent_values(values.as_mut_slice(), presence, one),
        OwnedColumn::Uint8(values) => replace_absent_values(values.as_mut_slice(), presence, if one { 1u8 } else { 0u8 }),
        OwnedColumn::TinyInt(values) => replace_absent_values(values.as_mut_slice(), presence, if one { 1i8 } else { 0i8 }),
        OwnedColumn::SmallInt(values) =>
            replace_absent_values(values.as_mut_slice(), presence, if one { 1i16 } else { 0i16 }),
        OwnedColumn::Int(values) => replace_absent_values(values.as_mut_slice(), presence, if one { 1i32 } else { 0i32 }),
        OwnedColumn::BigInt(values) => replace_absent_values(values.as_mut_slice(), presence, if one { 1i64 } else { 0i64 }),
        OwnedColumn::TimestampTZ(_, _, values) =>
            replace_absent_values(values.as_mut_slice(), presence, if one { 1i64 } else { 0i64 }),
        OwnedColumn::Int128(values) =>
            replace_absent_values(values.as_mut_slice(), presence, if one { 1i128 } else { 0i128 }),
        OwnedColumn::Decimal75(_, _, values) => {
            let r = if one { Scalar::one() } else { Scalar::zero() };
            replace_absent_values(values.as_mut_slice(), presence, r)
        },
        OwnedColumn::Scalar(values) => {
            let r = if one { Scalar::one() } else { Scalar::zero() };
            replace_absent_values(values.as_mut_slice(), presence, r)
        },
        OwnedColumn::VarChar(values) => replace_absent_values(values.as_mut_slice(), presence, String::new()),
        OwnedColumn::VarBinary(values) => replace_absent_values(values.as_mut_slice(), presence, Vec::new()),
    }
}

/// A copy of a column with the values of the rows the mask marks absent
/// replaced.
fn replace_null_rows_with(column: &OwnedColumn, presence: &[bool], replacement: NullRowReplacement) -> (c: OwnedColumn)
    ensures
        replaced_is(*column, presence@, replacement == NullRowReplacement::One, c),
{
    let mut c = column.duplicate();
    let ghost d = c;
    let ghost one = replacement == NullRowReplacement::One;
    replace_absent_rows(&mut c, presence, replacement);
    proof {
        assert forall|i: int| 0 <= i < column.spec_len() implies
            #[trigger] row_replaced(*column, presence@, one, c, i) by {
            assert(d.spec_len() == column.spec_len());
            assert(row_replaced(d, presence@, one, c, i));
            assert(d.same_row(i, column, i));
        }
    }
    c
}

/// A column whose null rows, by the mask, are set to zero.
fn canonicalize_null_rows(column: OwnedColumn, presence: &[bool]) -> (c: OwnedColumn)
    ensures
        replaced_is(column, presence@, false, c),
{
    let mut column = column;
    replace_absent_rows(&mut column, presence, NullRowReplacement::Zero);
    column
}

/// The operations on nullable columns whose result is null where either
/// operand is.
#[derive(Debug, Clone, Copy, PartialEq, Eq, Structural)]
pub enum NullableBinaryOp {
    /// `=`
    Eq,
    /// `<`
    Lt,
    /// `>`
    Gt,
    /// `+`
    Add,
    /// `-`
    Sub,
    /// `*`
    Mul,
    /// `/`
    Div,
}

/// What the operation gives on two owned columns.
pub open spec fn binary_result_is(
    op: NullableBinaryOp,
    lhs: OwnedColumn,
    rhs: OwnedColumn,
    res: ColumnOperationResult<OwnedColumn>,
) -> bool {
    match op {
        NullableBinaryOp::Eq => comparison_result_is(Relation::Eq, lhs, rhs, res),
        NullableBinaryOp::Lt => comparison_result_is(Relation::Lt, lhs, rhs, res),
        NullableBinaryOp::Gt => comparison_result_is(Relation::Gt, lhs, rhs, res),
        NullableBinaryOp::Add => arithmetic_result_is(ArithKind::Add, lhs, rhs, res),
        NullableBinaryOp::Sub => arithmetic_result_is(ArithKind::Sub, lhs, rhs, res),
        NullableBinaryOp::Mul => arithmetic_result_is(ArithKind::Mul, lhs, rhs, res),
        NullableBinaryOp::Div => arithmetic_result_is(ArithKind::Div, lhs, rhs, res),
    }
}

/// A successful result of an operation on two columns of `n` rows has `n`
/// rows.
proof fn lemma_binary_result_len(op: NullableBinaryOp, lhs: OwnedColumn, rhs: OwnedColumn, res: ColumnOperationResult<OwnedColumn>)
    requires
        binary_result_is(op, lhs, rhs, res),
        lhs.spec_len() == rhs.spec_len(),
        res is Ok,
    ensures
        res->Ok_0.spec_len() == lhs.spec_len(),
{
    let c = res->Ok_0;
    match c {
        OwnedColumn::Uint8(v) => { assert(crate::slice_operation::ints(v@).len() == v@.len()); },
        OwnedColumn::TinyInt(v) => { assert(crate::slice_operation::ints(v@).len() == v@.len()); },
        OwnedColumn::SmallInt(v) => { assert(crate::slice_operation::ints(v@).len() == v@.len()); },
        OwnedColumn::Int(v) => { assert(crate::slice_operation::ints(v@).len() == v@.len()); },
        OwnedColumn::BigInt(v) => { assert(crate::slice_operation::ints(v@).len() == v@.len()); },
        OwnedColumn::Int128(v) => { assert(crate::slice_operation::ints(v@).len() == v@.len()); },
        _ => {},
    }
}

/// Applies an operation to two columns: to the values themselves, or,
/// with a mask, to copies whose null rows hold zero (one, for a divisor).
fn apply_binary(op: NullableBinaryOp, lhs: &OwnedColumn, rhs: &OwnedColumn) -> (res: ColumnOperationResult<OwnedColumn>)
    ensures
        binary_result_is(op, *lhs, *rhs, res),
{
    match op {
        NullableBinaryOp::Eq => lhs.element_wise_eq(rhs),
        NullableBinaryOp::Lt => lhs.element_wise_lt(rhs),
        NullableBinaryOp::Gt => lhs.element_wise_gt(rhs),
        NullableBinaryOp::Add => lhs.element_wise_add(rhs),
        NullableBinaryOp::Sub => lhs.element_wise_sub(rhs),
        NullableBinaryOp::Mul => lhs.element_wise_mul(rhs),
        NullableBinaryOp::Div => lhs.element_wise_div(rhs),
    }
}

/// An owned column with an optional presence mask. Without a mask every
/// row is present; with one, a row is present when its entry is `true`.
#[derive(Debug, PartialEq, Eq)]
pub struct NullableOwnedColumn {
    values: OwnedColumn,
    presence: Option<Vec<bool>>,
}

/// Whether `res` is what an operation on nullable columns gives where the
/// rows are null by the mask `p`: with no mask, the operation on the
/// values; with one, the operation on the values with null rows set to
/// zero (one for the divisor), whose own null rows are then set to zero.
pub open spec fn nullable_binary_is(
    op: NullableBinaryOp,
    lhs: OwnedColumn,
    rhs: OwnedColumn,
    p: Option<Seq<bool>>,
    res: ColumnOperationResult<NullableOwnedColumn>,
) -> bool {
    match p {
        None => exists|raw: ColumnOperationResult<OwnedColumn>| {
            &&& binary_result_is(op, lhs, rhs, raw)
            &&& (raw matches Err(e) ==> res == Err::<NullableOwnedColumn, ColumnOperationError>(e))
            &&& (raw matches Ok(o) ==> res matches Ok(c) && c.spec_values() == o && c.spec_presence() is None)
        },
        Some(m) => exists|lv: OwnedColumn, rv: OwnedColumn, raw: ColumnOperationResult<OwnedColumn>| {
            &&& replaced_is(lhs, m, false, lv)
            &&& replaced_is(rhs, m, op == NullableBinaryOp::Div, rv)
            &&& binary_result_is(op, lv, rv, raw)
            &&& (raw matches Err(e) ==> res == Err::<NullableOwnedColumn, ColumnOperationError>(e))
            &&& (raw matches Ok(o) ==> res matches Ok(c) && c.spec_presence() == p
                && replaced_is(o, m, false, c.spec_values()))
        },
    }
}

impl NullableOwnedColumn {
    /// The mask, when there is one, has one entry per row.
    #[verifier::type_invariant]
    closed spec fn mask_fits(self) -> bool {
        presence_fits(self.values.spec_len(), owned_mask_view(self.presence))
    }

    /// The value column.
    pub closed spec fn spec_values(self) -> OwnedColumn {
        self.values
    }

    /// The presence mask.
    pub closed spec fn spec_presence(self) -> Option<Seq<bool>> {
        owned_mask_view(self.presence)
    }

    /// A column's mask is held in a vector.
    pub proof fn lemma_mask_in_vec(self)
        ensures
            self.spec_presence() matches Some(m) ==> exists|v: Vec<bool>| v@ == m,
    {
        if let Some(v) = self.presence {
            assert(v@ == self.spec_presence()->0);
        }
    }

    /// Pairs a value column with a presence mask, which must have one
    /// entry per row.
    pub fn try_new(values: OwnedColumn, presence: Option<Vec<bool>>) -> (res: NullableColumnResult<Self>)
        ensures
            res is Ok <==> presence_fits(values.spec_len(), owned_mask_view(presence)),
            res matches Ok(c) ==> c.spec_values() == values && c.spec_presence() == owned_mask_view(presence),
            res matches Err(e) ==> e == (NullableColumnError::PresenceLengthMismatch {
                values_len: values.spec_len() as usize,
                presence_len: presence->0@.len() as usize,
            }),
    {
        let check = match &presence {
            Some(p) => check_presence_len(values.len(), Some(p.as_slice())),
            None => check_presence_len(values.len(), None),
        };
        match check {
            Ok(()) => Ok(NullableOwnedColumn { values, presence }),
            Err(e) => Err(e),
        }
    }

    /// A column whose every row is present.
    pub fn non_nullable(values: OwnedColumn) -> (c: Self)
        ensures
            c.spec_values() == values,
            c.spec_presence() is None,
    {
        NullableOwnedColumn { values, presence: None }
    }

    /// A column whose every row is present.
    pub fn new_nonnullable(values: OwnedColumn) -> (c: Self)
        ensures
            c.spec_values() == values,
            c.spec_presence() is None,
    {
        Self::non_nullable(values)
    }

    /// The value column.
    pub fn values(&self) -> (v: &OwnedColumn)
        ensures
            *v == self.spec_values(),
    {
        &self.values
    }

    /// The presence mask.
    pub fn presence(&self) -> (p: Option<&[bool]>)
        ensures
            mask_view(p) == self.spec_presence(),
            presence_fits(self.spec_values().spec_len(), self.spec_presence()),
    {
        proof { use_type_invariant(self); }
        match &self.presence {
            Some(p) => Some(p.as_slice()),
            None => None,
        }
    }

    /// The value column and the mask.
    pub fn into_inner(self) -> (r: (OwnedColumn, Option<Vec<bool>>))
        ensures
            r.0 == self.spec_values(),
            owned_mask_view(r.1) == self.spec_presence(),
    {
        (self.values, self.presence)
    }

    /// A column of optional scalars read as the given type: a null reads
    /// as zero and is marked absent; with no null, the column has no mask.
    pub fn try_from_option_scalars(option_scalars: &[Option<Scalar>], column_type: ColumnType)
        -> (res: Result<Self, OwnedColumnError>)
        ensures
            ({
                let s = Seq::new(option_scalars@.len(), |i: int| match option_scalars@[i] {
                    Some(x) => x,
                    None => Scalar::spec_zero(),
                });
                exists|read: Result<OwnedColumn, OwnedColumnError>| {
                    &&& scalars_read_as(s, column_type, read)
                    &&& (read matches Err(e) ==> res == Err::<Self, OwnedColumnError>(e))
                    &&& (read matches Ok(v) ==> res matches Ok(c) && c.spec_values() == v
                        && c.spec_presence() == (if exists|i: int| 0 <= i < option_scalars@.len()
                                && (#[trigger] option_scalars@[i]) is None {
                                Some(Seq::new(option_scalars@.len(), |i: int| option_scalars@[i] is Some))
                            } else {
                                None::<Seq<bool>>
                            }))
                }
            }),
    {
        let n = option_scalars.len();
        let mut scalars: Vec<Scalar> = Vec::new();
        let mut mask: Vec<bool> = Vec::new();
        let mut saw_null = false;
        let mut i: usize = 0;
        while i < n
            invariant
                n == option_scalars@.len(),
                i <= n,
                scalars@.len() == i,
                mask@.len() == i,
                forall|j: int| 0 <= j < i ==> #[trigger] scalars@[j] == match option_scalars@[j] {
                    Some(x) => x,
                    None => Scalar::spec_zero(),
                },
                forall|j: int| 0 <= j < i ==> #[trigger] mask@[j] == option_scalars@[j] is Some,
                saw_null == exists|j: int| 0 <= j < i && (#[trigger] option_scalars@[j]) is None,
            decreases n - i,
        {
            match option_scalars[i] {
                Some(x) => {
                    scalars.push(x);
                    mask.push(true);
                },
                None => {
                    scalars.push(Scalar::zero());
                    mask.push(false);
                    saw_null = true;
                },
            }
            i = i + 1;
        }
        let ghost s = Seq::new(option_scalars@.len(), |i: int| match option_scalars@[i] {
            Some(x) => x,
            None => Scalar::spec_zero(),
        });
        assert(scalars@ =~= s);
        let read = OwnedColumn::try_from_scalars(scalars.as_slice(), column_type);
        match read {
            Ok(values) => {
                proof { lemma_scalars_read_len(s, column_type, values); }
                if saw_null {
                    assert(mask@ =~= Seq::new(option_scalars@.len(), |i: int| option_scalars@[i] is Some));
                    Ok(NullableOwnedColumn { values, presence: Some(mask) })
                } else {
                    Ok(NullableOwnedColumn { values, presence: None })
                }
            },
            Err(e) => Err(e),
        }
    }

    /// The value column, named, as a table holds it.
    pub fn value_owned_column(&self, name: Ident) -> (r: (Ident, OwnedColumn))
        ensures
            r.0 == name,
            r.1.same_as(&self.spec_values()),
    {
        (name, self.values.duplicate())
    }

    /// The mask as a named boolean column, when there is one.
    pub fn presence_owned_column(&self, name: Ident) -> (r: Option<(Ident, OwnedColumn)>)
        ensures
            r is Some <==> self.spec_presence() is Some,
            r matches Some(x) ==> x.0 == name,
            r matches Some(x) ==> (x.1 matches OwnedColumn::Boolean(b) && b@ == self.spec_presence()->0),
    {
        match &self.presence {
            Some(p) => Some((name, OwnedColumn::Boolean(copy_bools(p.as_slice())))),
            None => None,
        }
    }

    /// The column with its rows, and their presence, reordered by a
    /// permutation.
    pub fn try_permute(&self, permutation: &Permutation) -> (res: Result<Self, PermutationError>)
        ensures
            res is Ok <==> permutation@.len() == self.spec_values().spec_len(),
            res matches Ok(c) ==> {
                &&& c.spec_values().spec_column_type() == self.spec_values().spec_column_type()
                &&& c.spec_values().spec_len() == self.spec_values().spec_len()
                &&& forall|k: int| 0 <= k < c.spec_values().spec_len() ==>
                    #[trigger] c.spec_values().same_row(k, &self.spec_values(), permutation@[k] as int)
                &&& (c.spec_presence() is Some <==> self.spec_presence() is Some)
                &&& (self.spec_presence() matches Some(m) ==> forall|k: int| 0 <= k < c.spec_values().spec_len() ==>
                    #[trigger] c.spec_presence()->0[k] == m[permutation@[k] as int])
            },
            res matches Err(e) ==> e == (PermutationError::PermutationSizeMismatch {
                permutation_size: permutation@.len() as usize, slice_length: self.spec_values().spec_len() as usize }),
    {
        proof { use_type_invariant(self); }
        let values = match self.values.try_permute(permutation) {
            Ok(v) => v,
            Err(e) => return Err(e),
        };
        let presence = match &self.presence {
            Some(p) => match permutation.try_apply(p.as_slice()) {
                Ok(q) => Some(q),
                Err(e) => return Err(e),
            },
            None => None,
        };
        Ok(NullableOwnedColumn { values, presence })
    }

    /// The value column and the mask.
    pub fn into_parts(self) -> (r: (OwnedColumn, Option<Vec<bool>>))
        ensures
            r.0 == self.spec_values(),
            owned_mask_view(r.1) == self.spec_presence(),
    {
        self.into_inner()
    }

    /// Whether the column has a presence mask.
    pub fn is_nullable(&self) -> (b: bool)
        ensures
            b == self.spec_presence() is Some,
    {
        self.presence.is_some()
    }

    /// The type of the values.
    pub fn column_type(&self) -> (t: ColumnType)
        ensures
            t == self.spec_values().spec_column_type(),
    {
        self.values.column_type()
    }

    /// The number of rows.
    pub fn len(&self) -> (n: usize)
        ensures
            n == self.spec_values().spec_len(),
    {
        self.values.len()
    }

    /// Whether there are no rows.
    pub fn is_empty(&self) -> (b: bool)
        ensures
            b == (self.spec_values().spec_len() == 0),
    {
        self.values.is_empty()
    }

    /// Whether each row is null.
    pub fn is_null(&self) -> (c: OwnedColumn)
        ensures
            c matches OwnedColumn::Boolean(v) && v@ == null_rows(*self),
    {
        proof { use_type_invariant(self); }
        let n = self.values.len();
        let mut out: Vec<bool> = Vec::new();
        let mut i: usize = 0;
        while i < n
            invariant
                n == self.spec_values().spec_len(),
                presence_fits(n as nat, self.spec_presence()),
                owned_mask_view(self.presence) == self.spec_presence(),
                i <= n,
                out@.len() == i,
                forall|j: int| 0 <= j < i ==> #[trigger] out@[j] == match self.spec_presence() {
                    Some(p) => !p[j],
                    None => false,
                },
            decreases n - i,
        {
            let b = match &self.presence { Some(p) => !p[i], None => false };
            out.push(b);
            i = i + 1;
        }
        proof { assert(out@ =~= null_rows(*self)); }
        OwnedColumn::Boolean(out)
    }

    /// Whether each row is present.
    pub fn is_not_null(&self) -> (c: OwnedColumn)
        ensures
            c matches OwnedColumn::Boolean(v) && v@ == present_rows(*self),
    {
        proof { use_type_invariant(self); }
        let n = self.values.len();
        let mut out: Vec<bool> = Vec::new();
        let mut i: usize = 0;
        while i < n
            invariant
                n == self.spec_values().spec_len(),
                presence_fits(n as nat, self.spec_presence()),
                owned_mask_view(self.presence) == self.spec_presence(),
                i <= n,
                out@.len() == i,
                forall|j: int| 0 <= j < i ==> #[trigger] out@[j] == match self.spec_presence() {
                    Some(p) => p[j],
                    None => true,
                },
            decreases n - i,
        {
            let b = match &self.presence { Some(p) => p[i], None => true };
            out.push(b);
            i = i + 1;
        }
        proof { assert(out@ =~= present_rows(*self)); }
        OwnedColumn::Boolean(out)
    }

    /// The rows `start..end`, with their presence.
    pub fn slice(&self, start: usize, end: usize) -> (c: Self)
        requires
            start <= end <= self.spec_values().spec_len(),
        ensures
            c.spec_values().spec_column_type() == self.spec_values().spec_column_type(),
            c.spec_values().spec_len() == end - start,
            forall|r: int| 0 <= r < end - start ==> #[trigger] c.spec_values().same_row(r, &self.spec_values(), start + r),
            c.spec_presence() == match self.spec_presence() {
                Some(p) => Some(p.subrange(start as int, end as int)),
                None => None,
            },
    {
        proof { use_type_invariant(self); }
        let values = self.values.slice(start, end);
        let presence = match &self.presence {
            Some(p) => Some(crate::owned_column::copy_range(p.as_slice(), start, end)),
            None => None,
        };
        NullableOwnedColumn { values, presence }
    }

    /// Borrows the column: its values copied into the arena, its mask
    /// borrowed.
    pub fn as_column<'a>(&'a self, alloc: &'a bumpalo::Bump) -> (c: NullableColumn<'a>)
        ensures
            c.spec_values().borrows(self.spec_values()),
            c.spec_presence() == self.spec_presence(),
    {
        let values = Column::from_owned_column(&self.values, alloc);
        let presence = self.presence();
        match NullableColumn::try_new(values, presence) {
            Ok(c) => c,
            Err(_) => {
                proof { assert(false); }
                NullableColumn::non_nullable(values)
            },
        }
    }

    /// An owned copy of a borrowed nullable column.
    pub fn try_from_column(value: NullableColumn) -> (res: NullableColumnResult<Self>)
        ensures
            res matches Ok(c) && value.spec_values().same_values(c.spec_values())
                && c.spec_presence() == value.spec_presence(),
    {
        let values = OwnedColumn::from_column(&value.values());
        let presence = match value.presence() {
            Some(p) => Some(copy_bools(p)),
            None => None,
        };
        Self::try_new(values, presence)
    }
}

/// For each row, whether it is present: its mask entry, or `true` for a
/// column without a mask.
pub open spec fn present_rows(c: NullableOwnedColumn) -> Seq<bool> {
    Seq::new(c.spec_values().spec_len(), |i: int| match c.spec_presence() {
        Some(p) => p[i],
        None => true,
    })
}

/// For each row, whether it is null: the negation of its mask entry, or
/// `false` for a column without a mask.
pub open spec fn null_rows(c: NullableOwnedColumn) -> Seq<bool> {
    Seq::new(c.spec_values().spec_len(), |i: int| match c.spec_presence() {
        Some(p) => !p[i],
        None => false,
    })
}

/// `IS NULL` and `IS NOT NULL` give opposite answers on every row.
pub proof fn law_is_null_negates_is_not_null(c: NullableOwnedColumn)
    ensures
        null_rows(c).len() == present_rows(c).len(),
        forall|i: int| 0 <= i < null_rows(c).len() ==> #[trigger] null_rows(c)[i] == !present_rows(c)[i],
{
}

/// Whether a column is a boolean column of `n` values, each what `f`
/// gives at its index.
pub open spec fn bool_values_are(c: OwnedColumn, n: nat, f: spec_fn(int) -> bool) -> bool {
    c matches OwnedColumn::Boolean(w) && w@.len() == n && forall|i: int| 0 <= i < n ==> #[trigger] w@[i] == f(i)
}

/// What a boolean operation on nullable columns of values `lv`, `rv` and
/// masks `lp`, `rp` gives: the values combined row by row, known where
/// SQL's three-valued logic makes them known.
pub open spec fn nullable_boolean_is(
    op: SqlBooleanOp,
    lhs: NullableOwnedColumn,
    rhs: NullableOwnedColumn,
    res: ColumnOperationResult<NullableOwnedColumn>,
) -> bool {
    let l = lhs.spec_values();
    let r = rhs.spec_values();
    if l.spec_len() != r.spec_len() {
        res == Err::<NullableOwnedColumn, ColumnOperationError>(length_error(l.spec_len(), r.spec_len()))
    } else {
        match (l, r) {
            (OwnedColumn::Boolean(a), OwnedColumn::Boolean(b)) => res matches Ok(c)
                && bool_values_are(c.spec_values(), a@.len(), |i: int| match op {
                    SqlBooleanOp::And => a@[i] && b@[i],
                    SqlBooleanOp::Or => a@[i] || b@[i],
                })
                && c.spec_presence() == boolean_presence(op, a@, lhs.spec_presence(), b@, rhs.spec_presence(),
                    boolean_rows(a@, lhs.spec_presence(), b@, rhs.spec_presence())),
            _ => res matches Err(ColumnOperationError::BinaryOperationInvalidColumnType {
                operator, left_type, right_type })
                && operator@ == op.spec_operator_name()
                && left_type == l.spec_column_type() && right_type == r.spec_column_type(),
        }
    }
}

impl NullableOwnedColumn {
    /// Applies an operation whose result is null where either operand is.
    fn try_binary_op(&self, rhs: &Self, op: NullableBinaryOp) -> (res: ColumnOperationResult<Self>)
        ensures
            self.spec_values().spec_len() != rhs.spec_values().spec_len() ==>
                res == Err::<Self, ColumnOperationError>(length_error(self.spec_values().spec_len(), rhs.spec_values().spec_len())),
            self.spec_values().spec_len() == rhs.spec_values().spec_len() ==>
                nullable_binary_is(op, self.spec_values(), rhs.spec_values(),
                    combined_presence(self.spec_presence(), rhs.spec_presence()), res),
    {
        if self.len() != rhs.len() {
            return Err(ColumnOperationError::DifferentColumnLength { len_a: self.len(), len_b: rhs.len() });
        }
        let n = self.len();
        let lp = self.presence();
        let rp = rhs.presence();
        let presence = combine_presence(lp, rp);
        match presence {
            None => {
                let raw = apply_binary(op, &self.values, &rhs.values);
                match raw {
                    Ok(values) => {
                        proof { lemma_binary_result_len(op, self.values, rhs.values, raw); }
                        Ok(NullableOwnedColumn { values, presence: None })
                    },
                    Err(e) => Err(e),
                }
            },
            Some(p) => {
                let rhs_rep = match op { NullableBinaryOp::Div => NullRowReplacement::One, _ => NullRowReplacement::Zero };
                let lv = replace_null_rows_with(&self.values, p.as_slice(), NullRowReplacement::Zero);
                let rv = replace_null_rows_with(&rhs.values, p.as_slice(), rhs_rep);
                let raw = apply_binary(op, &lv, &rv);
                match raw {
                    Ok(o) => {
                        proof { lemma_binary_result_len(op, lv, rv, raw); }
                        let values = canonicalize_null_rows(o, p.as_slice());
                        let c = NullableOwnedColumn { values, presence: Some(p) };
                        proof {
                            assert(nullable_binary_is(op, self.spec_values(), rhs.spec_values(),
                                combined_presence(self.spec_presence(), rhs.spec_presence()), Ok::<Self, ColumnOperationError>(c)));
                        }
                        Ok(c)
                    },
                    Err(e) => Err(e),
                }
            },
        }
    }

    /// Applies `AND` or `OR` in SQL's three-valued logic.
    fn try_boolean_op(&self, rhs: &Self, op: SqlBooleanOp) -> (res: ColumnOperationResult<Self>)
        ensures
            nullable_boolean_is(op, *self, *rhs, res),
    {
        proof { use_type_invariant(self); use_type_invariant(rhs); }
        if self.len() != rhs.len() {
            return Err(ColumnOperationError::DifferentColumnLength { len_a: self.len(), len_b: rhs.len() });
        }
        match (&self.values, &rhs.values) {
            (OwnedColumn::Boolean(l), OwnedColumn::Boolean(r)) => {
                let and = match op { SqlBooleanOp::And => true, SqlBooleanOp::Or => false };
                let values = crate::slice_operation::slice_and_or(l.as_slice(), r.as_slice(), and);
                let presence = match op {
                    SqlBooleanOp::And => sql_and_presence(l.as_slice(), self.presence(), r.as_slice(), rhs.presence()),
                    SqlBooleanOp::Or => sql_or_presence(l.as_slice(), self.presence(), r.as_slice(), rhs.presence()),
                };
                Ok(NullableOwnedColumn { values: OwnedColumn::Boolean(values), presence })
            },
            _ => Err(ColumnOperationError::BinaryOperationInvalidColumnType {
                operator: string_of(op.operator_name()),
                left_type: self.column_type(),
                right_type: rhs.column_type(),
            }),
        }
    }

    /// The negation of each value of a boolean column; null rows stay null
    /// and hold `false`.
    pub fn element_wise_not(&self) -> (res: ColumnOperationResult<Self>)
        ensures
            match self.spec_values() {
                OwnedColumn::Boolean(v) => res matches Ok(c) && c.spec_presence() == self.spec_presence()
                    && bool_values_are(c.spec_values(), v@.len(), |i: int| match self.spec_presence() {
                        Some(p) => p[i] && !v@[i],
                        None => !v@[i],
                    }),
                _ => res matches Err(ColumnOperationError::UnaryOperationInvalidColumnType { operator, operand_type })
                    && operator@ == "NOT"@ && operand_type == self.spec_values().spec_column_type(),
            },
    {
        proof { use_type_invariant(self); }
        match &self.values {
            OwnedColumn::Boolean(v) => {
                let n = v.len();
                let mut out: Vec<bool> = Vec::new();
                let mut i: usize = 0;
                while i < n
                    invariant
                        n == v@.len(),
                        presence_fits(n as nat, owned_mask_view(self.presence)),
                        i <= n,
                        out@.len() == i,
                        forall|j: int| 0 <= j < i ==> #[trigger] out@[j] == match owned_mask_view(self.presence) {
                            Some(p) => p[j] && !v@[j],
                            None => !v@[j],
                        },
                    decreases n - i,
                {
                    let b = match &self.presence { Some(p) => p[i] && !v[i], None => !v[i] };
                    out.push(b);
                    i = i + 1;
                }
                let presence = match &self.presence { Some(p) => Some(copy_bools(p.as_slice())), None => None };
                Ok(NullableOwnedColumn { values: OwnedColumn::Boolean(out), presence })
            },
            _ => Err(ColumnOperationError::UnaryOperationInvalidColumnType {
                operator: string_of("NOT"),
                operand_type: self.column_type(),
            }),
        }
    }

    /// `AND` of each pair in SQL's three-valued logic: a known `false` on
    /// either side makes the row a known `false`.
    pub fn element_wise_and(&self, rhs: &Self) -> (res: ColumnOperationResult<Self>)
        ensures
            nullable_boolean_is(SqlBooleanOp::And, *self, *rhs, res),
    {
        self.try_boolean_op(rhs, SqlBooleanOp::And)
    }

    /// `OR` of each pair in SQL's three-valued logic: a known `true` on
    /// either side makes the row a known `true`.
    pub fn element_wise_or(&self, rhs: &Self) -> (res: ColumnOperationResult<Self>)
        ensures
            nullable_boolean_is(SqlBooleanOp::Or, *self, *rhs, res),
    {
        self.try_boolean_op(rhs, SqlBooleanOp::Or)
    }

    /// Whether the values of each pair are equal; null where either operand is.
    pub fn element_wise_eq(&self, rhs: &Self) -> (res: ColumnOperationResult<Self>)
        ensures
            self.spec_values().spec_len() != rhs.spec_values().spec_len() ==>
                res == Err::<Self, ColumnOperationError>(length_error(self.spec_values().spec_len(), rhs.spec_values().spec_len())),
            self.spec_values().spec_len() == rhs.spec_values().spec_len() ==>
                nullable_binary_is(NullableBinaryOp::Eq, self.spec_values(), rhs.spec_values(),
                    combined_presence(self.spec_presence(), rhs.spec_presence()), res),
    {
        self.try_binary_op(rhs, NullableBinaryOp::Eq)
    }

    /// Whether the left value of each pair is below the right one; null where either operand is.
    pub fn element_wise_lt(&self, rhs: &Self) -> (res: ColumnOperationResult<Self>)
        ensures
            self.spec_values().spec_len() != rhs.spec_values().spec_len() ==>
                res == Err::<Self, ColumnOperationError>(length_error(self.spec_values().spec_len(), rhs.spec_values().spec_len())),
            self.spec_values().spec_len() == rhs.spec_values().spec_len() ==>
                nullable_binary_is(NullableBinaryOp::Lt, self.spec_values(), rhs.spec_values(),
                    combined_presence(self.spec_presence(), rhs.spec_presence()), res),
    {
        self.try_binary_op(rhs, NullableBinaryOp::Lt)
    }

    /// Whether the left value of each pair is above the right one; null where either operand is.
    pub fn element_wise_gt(&self, rhs: &Self) -> (res: ColumnOperationResult<Self>)
        ensures
            self.spec_values().spec_len() != rhs.spec_values().spec_len() ==>
                res == Err::<Self, ColumnOperationError>(length_error(self.spec_values().spec_len(), rhs.spec_values().spec_len())),
            self.spec_values().spec_len() == rhs.spec_values().spec_len() ==>
                nullable_binary_is(NullableBinaryOp::Gt, self.spec_values(), rhs.spec_values(),
                    combined_presence(self.spec_presence(), rhs.spec_presence()), res),
    {
        self.try_binary_op(rhs, NullableBinaryOp::Gt)
    }

    /// The sum of each pair; null where either operand is.
    pub fn element_wise_add(&self, rhs: &Self) -> (res: ColumnOperationResult<Self>)
        ensures
            self.spec_values().spec_len() != rhs.spec_values().spec_len() ==>
                res == Err::<Self, ColumnOperationError>(length_error(self.spec_values().spec_len(), rhs.spec_values().spec_len())),
            self.spec_values().spec_len() == rhs.spec_values().spec_len() ==>
                nullable_binary_is(NullableBinaryOp::Add, self.spec_values(), rhs.spec_values(),
                    combined_presence(self.spec_presence(), rhs.spec_presence()), res),
    {
        self.try_binary_op(rhs, NullableBinaryOp::Add)
    }

    /// The difference of each pair; null where either operand is.
    pub fn element_wise_sub(&self, rhs: &Self) -> (res: ColumnOperationResult<Self>)
        ensures
            self.spec_values().spec_len() != rhs.spec_values().spec_len() ==>
                res == Err::<Self, ColumnOperationError>(length_error(self.spec_values().spec_len(), rhs.spec_values().spec_len())),
            self.spec_values().spec_len() == rhs.spec_values().spec_len() ==>
                nullable_binary_is(NullableBinaryOp::Sub, self.spec_values(), rhs.spec_values(),
                    combined_presence(self.spec_presence(), rhs.spec_presence()), res),
    {
        self.try_binary_op(rhs, NullableBinaryOp::Sub)
    }

    /// The product of each pair; null where either operand is.
    pub fn element_wise_mul(&self, rhs: &Self) -> (res: ColumnOperationResult<Self>)
        ensures
            self.spec_values().spec_len() != rhs.spec_values().spec_len() ==>
                res == Err::<Self, ColumnOperationError>(length_error(self.spec_values().spec_len(), rhs.spec_values().spec_len())),
            self.spec_values().spec_len() == rhs.spec_values().spec_len() ==>
                nullable_binary_is(NullableBinaryOp::Mul, self.spec_values(), rhs.spec_values(),
                    combined_presence(self.spec_presence(), rhs.spec_presence()), res),
    {
        self.try_binary_op(rhs, NullableBinaryOp::Mul)
    }

    /// The quotient of each pair, rounded toward zero; a null divisor counts as one, so null rows never divide by zero; null where either operand is.
    pub fn element_wise_div(&self, rhs: &Self) -> (res: ColumnOperationResult<Self>)
        ensures
            self.spec_values().spec_len() != rhs.spec_values().spec_len() ==>
                res == Err::<Self, ColumnOperationError>(length_error(self.spec_values().spec_len(), rhs.spec_values().spec_len())),
            self.spec_values().spec_len() == rhs.spec_values().spec_len() ==>
                nullable_binary_is(NullableBinaryOp::Div, self.spec_values(), rhs.spec_values(),
                    combined_presence(self.spec_presence(), rhs.spec_presence()), res),
    {
        self.try_binary_op(rhs, NullableBinaryOp::Div)
    }
}

/// The truth value of row `i` of a boolean column with a mask: `None`
/// when the row is null.
pub open spec fn truth_at(values: Seq<bool>, presence: Option<Seq<bool>>, i: int) -> Option<bool> {
    let present = match presence { Some(p) => p[i], None => true };
    if present { Some(values[i]) } else { None }
}

/// `AND` in SQL's three-valued logic: `false` wins over null, null wins
/// over `true`.
pub open spec fn sql_and(a: Option<bool>, b: Option<bool>) -> Option<bool> {
    if a == Some(false) || b == Some(false) {
        Some(false)
    } else if a == Some(true) && b == Some(true) {
        Some(true)
    } else {
        None
    }
}

/// `OR` in SQL's three-valued logic: `true` wins over null, null wins over
/// `false`.
pub open spec fn sql_or(a: Option<bool>, b: Option<bool>) -> Option<bool> {
    if a == Some(true) || b == Some(true) {
        Some(true)
    } else if a == Some(false) && b == Some(false) {
        Some(false)
    } else {
        None
    }
}

/// Each row of `lhs AND rhs` (and of `lhs OR rhs`) is what SQL's
/// three-valued logic gives on the rows of the operands, whatever values
/// the null rows hold.
pub proof fn law_boolean_ops_follow_three_valued_logic(
    op: SqlBooleanOp,
    lhs: NullableOwnedColumn,
    rhs: NullableOwnedColumn,
    res: ColumnOperationResult<NullableOwnedColumn>,
)
    requires
        presence_fits(lhs.spec_values().spec_len(), lhs.spec_presence()),
        presence_fits(rhs.spec_values().spec_len(), rhs.spec_presence()),
        nullable_boolean_is(op, lhs, rhs, res),
        res is Ok,
    ensures
        lhs.spec_values() matches OwnedColumn::Boolean(a) && rhs.spec_values() matches OwnedColumn::Boolean(b)
            && res matches Ok(c) && c.spec_values() matches OwnedColumn::Boolean(v)
            && forall|i: int| 0 <= i < a@.len() ==> #[trigger] truth_at(v@, c.spec_presence(), i) == match op {
                SqlBooleanOp::And => sql_and(truth_at(a@, lhs.spec_presence(), i), truth_at(b@, rhs.spec_presence(), i)),
                SqlBooleanOp::Or => sql_or(truth_at(a@, lhs.spec_presence(), i), truth_at(b@, rhs.spec_presence(), i)),
            },
{
}

/// A row is present in the combination of two masks exactly when it is
/// present in both, whichever mask comes first.
pub proof fn law_combined_presence_commutes(lhs: Option<Seq<bool>>, rhs: Option<Seq<bool>>)
    ensures
        combined_presence(lhs, rhs) == combined_presence(rhs, lhs),
{
    if let (Some(l), Some(r)) = (lhs, rhs) {
        assert(combined_presence(lhs, rhs)->0 =~= combined_presence(rhs, lhs)->0);
    }
}

/// Replacing the null rows of an integer column keeps it an integer
/// column: a null row holds the replacement, any other row its value.
proof fn lemma_replaced_int_value(old: OwnedColumn, m: Seq<bool>, one: bool, new: OwnedColumn, i: int)
    requires
        replaced_is(old, m, one, new),
        old.spec_int_values() is Some,
        0 <= i < old.spec_len(),
    ensures
        new.spec_int_values() is Some,
        new.spec_int_values()->0.len() == new.spec_len(),
        old.spec_int_values()->0.len() == old.spec_len(),
        new.spec_int_values()->0[i] == (if absent(m, i) { if one { 1int } else { 0int } } else { old.spec_int_values()->0[i] }),
{
    assert(row_replaced(old, m, one, new, i));
    match (old, new) {
        (OwnedColumn::Uint8(a), OwnedColumn::Uint8(b)) => { assert(ints(a@)[i] == a@[i] as int && ints(b@)[i] == b@[i] as int); },
        (OwnedColumn::TinyInt(a), OwnedColumn::TinyInt(b)) => { assert(ints(a@)[i] == a@[i] as int && ints(b@)[i] == b@[i] as int); },
        (OwnedColumn::SmallInt(a), OwnedColumn::SmallInt(b)) => { assert(ints(a@)[i] == a@[i] as int && ints(b@)[i] == b@[i] as int); },
        (OwnedColumn::Int(a), OwnedColumn::Int(b)) => { assert(ints(a@)[i] == a@[i] as int && ints(b@)[i] == b@[i] as int); },
        (OwnedColumn::BigInt(a), OwnedColumn::BigInt(b)) => { assert(ints(a@)[i] == a@[i] as int && ints(b@)[i] == b@[i] as int); },
        (OwnedColumn::Int128(a), OwnedColumn::Int128(b)) => { assert(ints(a@)[i] == a@[i] as int && ints(b@)[i] == b@[i] as int); },
        _ => {},
    }
}

/// An integer column has one integer value per row.
proof fn lemma_int_values_len(c: OwnedColumn)
    requires
        c.spec_int_values() is Some,
    ensures
        c.spec_int_values()->0.len() == c.spec_len(),
{
}

/// Nullable addition, subtraction and multiplication of integer columns
/// work row by row: on a row present in both operands the result holds
/// the sum, difference or product of the operands' values; on a row null
/// in either it holds zero; the result's mask is the operands' masks
/// combined.
pub proof fn law_nullable_integer_arithmetic(
    op: NullableBinaryOp,
    lhs: NullableOwnedColumn,
    rhs: NullableOwnedColumn,
    res: ColumnOperationResult<NullableOwnedColumn>,
    i: int,
)
    requires
        op == NullableBinaryOp::Add || op == NullableBinaryOp::Sub || op == NullableBinaryOp::Mul,
        lhs.spec_values().spec_len() == rhs.spec_values().spec_len(),
        int_pair_result_type(lhs.spec_values().spec_column_type(), rhs.spec_values().spec_column_type()) is Some,
        nullable_binary_is(op, lhs.spec_values(), rhs.spec_values(),
            combined_presence(lhs.spec_presence(), rhs.spec_presence()), res),
        res is Ok,
        0 <= i < lhs.spec_values().spec_len(),
    ensures
        ({
            let p = combined_presence(lhs.spec_presence(), rhs.spec_presence());
            let c = res->Ok_0;
            let l = lhs.spec_values().spec_int_values()->0[i];
            let r = rhs.spec_values().spec_int_values()->0[i];
            let null_row = p matches Some(m) && absent(m, i);
            &&& c.spec_presence() == p
            &&& c.spec_values().spec_int_values() is Some
            &&& null_row ==> c.spec_values().spec_int_values()->0[i] == 0
            &&& !null_row ==> c.spec_values().spec_int_values()->0[i] == match op {
                    NullableBinaryOp::Add => l + r,
                    NullableBinaryOp::Sub => l - r,
                    _ => l * r,
                }
        }),
{
    let p = combined_presence(lhs.spec_presence(), rhs.spec_presence());
    let lv0 = lhs.spec_values();
    let rv0 = rhs.spec_values();
    let kind = match op {
        NullableBinaryOp::Add => ArithKind::Add,
        NullableBinaryOp::Sub => ArithKind::Sub,
        _ => ArithKind::Mul,
    };
    lemma_int_values_len(lv0);
    lemma_int_values_len(rv0);
    match p {
        None => {
            let raw = choose|raw: ColumnOperationResult<OwnedColumn>| {
                &&& binary_result_is(op, lv0, rv0, raw)
                &&& (raw matches Err(e) ==> res == Err::<NullableOwnedColumn, ColumnOperationError>(e))
                &&& (raw matches Ok(o) ==> res matches Ok(c) && c.spec_values() == o && c.spec_presence() is None)
            };
            assert(arithmetic_result_is(kind, lv0, rv0, raw));
            assert(!is_signed_casting_pair(lv0.spec_column_type(), rv0.spec_column_type()));
        },
        Some(m) => {
            let (lv, rv, raw) = choose|lv: OwnedColumn, rv: OwnedColumn, raw: ColumnOperationResult<OwnedColumn>| {
                &&& replaced_is(lv0, m, false, lv)
                &&& replaced_is(rv0, m, op == NullableBinaryOp::Div, rv)
                &&& binary_result_is(op, lv, rv, raw)
                &&& (raw matches Err(e) ==> res == Err::<NullableOwnedColumn, ColumnOperationError>(e))
                &&& (raw matches Ok(o) ==> res matches Ok(c) && c.spec_presence() == p
                    && replaced_is(o, m, false, c.spec_values()))
            };
            lemma_replaced_int_value(lv0, m, false, lv, i);
            lemma_replaced_int_value(rv0, m, false, rv, i);
            assert(arithmetic_result_is(kind, lv, rv, raw));
            assert(!is_signed_casting_pair(lv.spec_column_type(), rv.spec_column_type()));
            assert(int_pair_result_type(lv.spec_column_type(), rv.spec_column_type()) is Some);
            let o = raw->Ok_0;
            lemma_replaced_int_value(o, m, false, res->Ok_0.spec_values(), i);
        },
    }
}

} // verus!

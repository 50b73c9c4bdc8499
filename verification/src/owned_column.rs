//! Owned columns: a type and a vector of values of that type.
use vstd::prelude::*;
use crate::column::Column;
use crate::column_type::{ColumnType, spec_integer_range};
use crate::column_operation_error::{ColumnOperationError, ColumnOperationResult};
use crate::math::Precision;
use crate::posql_time::{PoSQLTimeUnit, PoSQLTimeZone};
use crate::scalar::{Scalar, signed_value};
use crate::owned_column_error::{ColumnCoercionError, OwnedColumnError};
use crate::permutation::{Permutation, PermutationError};
use crate::slice_operation::IntegerElement;
use crate::text::string_of;
use crate::slice_operation::ints;
use crate::column_operation::{fields, signeds};

verus! {

broadcast use vstd::std_specs::vec::group_vec_axioms;

/// A column that owns its values.
#[derive(Debug, Clone, PartialEq, Eq)]
pub enum OwnedColumn {
    /// Booleans.
    Boolean(Vec<bool>),
    /// `u8` values.
    Uint8(Vec<u8>),
    /// `i8` values.
    TinyInt(Vec<i8>),
    /// `i16` values.
    SmallInt(Vec<i16>),
    /// `i32` values.
    Int(Vec<i32>),
    /// `i64` values.
    BigInt(Vec<i64>),
    /// Strings.
    VarChar(Vec<String>),
    /// Byte strings.
    VarBinary(Vec<Vec<u8>>),
    /// `i128` values.
    Int128(Vec<i128>),
    /// Decimals: precision, scale and their values as scalars.
    Decimal75(Precision, i8, Vec<Scalar>),
    /// Scalars.
    Scalar(Vec<Scalar>),
    /// Timestamps: unit, time zone and counts of the unit.
    TimestampTZ(PoSQLTimeUnit, PoSQLTimeZone, Vec<i64>),
}

impl OwnedColumn {
    /// The number of values.
    pub open spec fn spec_len(&self) -> nat {
        match self {
            OwnedColumn::Boolean(c) => c@.len(),
            OwnedColumn::Uint8(c) => c@.len(),
            OwnedColumn::TinyInt(c) => c@.len(),
            OwnedColumn::SmallInt(c) => c@.len(),
            OwnedColumn::Int(c) => c@.len(),
            OwnedColumn::BigInt(c) => c@.len(),
            OwnedColumn::VarChar(c) => c@.len(),
            OwnedColumn::VarBinary(c) => c@.len(),
            OwnedColumn::Int128(c) => c@.len(),
            OwnedColumn::Decimal75(_, _, c) => c@.len(),
            OwnedColumn::Scalar(c) => c@.len(),
            OwnedColumn::TimestampTZ(_, _, c) => c@.len(),
        }
    }

    /// The type of the values.
    pub open spec fn spec_column_type(&self) -> ColumnType {
        match self {
            OwnedColumn::Boolean(_) => ColumnType::Boolean,
            OwnedColumn::Uint8(_) => ColumnType::Uint8,
            OwnedColumn::TinyInt(_) => ColumnType::TinyInt,
            OwnedColumn::SmallInt(_) => ColumnType::SmallInt,
            OwnedColumn::Int(_) => ColumnType::Int,
            OwnedColumn::BigInt(_) => ColumnType::BigInt,
            OwnedColumn::VarChar(_) => ColumnType::VarChar,
            OwnedColumn::VarBinary(_) => ColumnType::VarBinary,
            OwnedColumn::Int128(_) => ColumnType::Int128,
            OwnedColumn::Decimal75(p, s, _) => ColumnType::Decimal75(*p, *s),
            OwnedColumn::Scalar(_) => ColumnType::Scalar,
            OwnedColumn::TimestampTZ(u, z, _) => ColumnType::TimestampTZ(*u, *z),
        }
    }

    /// The values of an integer column, as integers.
    pub open spec fn spec_int_values(&self) -> Option<Seq<int>> {
        match self {
            OwnedColumn::Uint8(c) => Some(ints(c@)),
            OwnedColumn::TinyInt(c) => Some(ints(c@)),
            OwnedColumn::SmallInt(c) => Some(ints(c@)),
            OwnedColumn::Int(c) => Some(ints(c@)),
            OwnedColumn::BigInt(c) => Some(ints(c@)),
            OwnedColumn::Int128(c) => Some(ints(c@)),
            _ => None,
        }
    }

    /// The field elements the values of a numeric column stand for.
    pub open spec fn spec_field_values(&self) -> Seq<nat> {
        match self {
            OwnedColumn::Uint8(c) => fields(c@),
            OwnedColumn::TinyInt(c) => fields(c@),
            OwnedColumn::SmallInt(c) => fields(c@),
            OwnedColumn::Int(c) => fields(c@),
            OwnedColumn::BigInt(c) => fields(c@),
            OwnedColumn::Int128(c) => fields(c@),
            OwnedColumn::Decimal75(_, _, c) => fields(c@),
            OwnedColumn::Scalar(c) => fields(c@),
            _ => Seq::empty(),
        }
    }

    /// The signed integers the values of a numeric column stand for.
    pub open spec fn spec_signed_values(&self) -> Seq<int> {
        match self {
            OwnedColumn::Uint8(c) => signeds(c@),
            OwnedColumn::TinyInt(c) => signeds(c@),
            OwnedColumn::SmallInt(c) => signeds(c@),
            OwnedColumn::Int(c) => signeds(c@),
            OwnedColumn::BigInt(c) => signeds(c@),
            OwnedColumn::Int128(c) => signeds(c@),
            OwnedColumn::Decimal75(_, _, c) => signeds(c@),
            OwnedColumn::Scalar(c) => signeds(c@),
            _ => Seq::empty(),
        }
    }

    /// Whether two columns hold the same type and the same values.
    pub open spec fn same_as(&self, other: &OwnedColumn) -> bool {
        match (self, other) {
            (OwnedColumn::Boolean(a), OwnedColumn::Boolean(b)) => a@ == b@,
            (OwnedColumn::Uint8(a), OwnedColumn::Uint8(b)) => a@ == b@,
            (OwnedColumn::TinyInt(a), OwnedColumn::TinyInt(b)) => a@ == b@,
            (OwnedColumn::SmallInt(a), OwnedColumn::SmallInt(b)) => a@ == b@,
            (OwnedColumn::Int(a), OwnedColumn::Int(b)) => a@ == b@,
            (OwnedColumn::BigInt(a), OwnedColumn::BigInt(b)) => a@ == b@,
            (OwnedColumn::VarChar(a), OwnedColumn::VarChar(b)) =>
                a@.len() == b@.len() && forall|i: int| 0 <= i < a@.len() ==> (#[trigger] a@[i])@ == b@[i]@,
            (OwnedColumn::VarBinary(a), OwnedColumn::VarBinary(b)) =>
                a@.len() == b@.len() && forall|i: int| 0 <= i < a@.len() ==> (#[trigger] a@[i])@ == b@[i]@,
            (OwnedColumn::Int128(a), OwnedColumn::Int128(b)) => a@ == b@,
            (OwnedColumn::Decimal75(p, s, a), OwnedColumn::Decimal75(q, t, b)) =>
                p == q && s == t && a@ == b@,
            (OwnedColumn::Scalar(a), OwnedColumn::Scalar(b)) => a@ == b@,
            (OwnedColumn::TimestampTZ(u, z, a), OwnedColumn::TimestampTZ(v, w, b)) =>
                u == v && z == w && a@ == b@,
            _ => false,
        }
    }

    /// The number of values.
    pub fn len(&self) -> (n: usize)
        ensures
            n == self.spec_len(),
    {
        match self {
            OwnedColumn::Boolean(c) => c.len(),
            OwnedColumn::Uint8(c) => c.len(),
            OwnedColumn::TinyInt(c) => c.len(),
            OwnedColumn::SmallInt(c) => c.len(),
            OwnedColumn::Int(c) => c.len(),
            OwnedColumn::BigInt(c) => c.len(),
            OwnedColumn::VarChar(c) => c.len(),
            OwnedColumn::VarBinary(c) => c.len(),
            OwnedColumn::Int128(c) => c.len(),
            OwnedColumn::Decimal75(_, _, c) => c.len(),
            OwnedColumn::Scalar(c) => c.len(),
            OwnedColumn::TimestampTZ(_, _, c) => c.len(),
        }
    }

    /// Whether there are no values.
    pub fn is_empty(&self) -> (b: bool)
        ensures
            b == (self.spec_len() == 0),
    {
        self.len() == 0
    }

    /// The type of the values.
    pub fn column_type(&self) -> (t: ColumnType)
        ensures
            t == self.spec_column_type(),
    {
        match self {
            OwnedColumn::Boolean(_) => ColumnType::Boolean,
            OwnedColumn::Uint8(_) => ColumnType::Uint8,
            OwnedColumn::TinyInt(_) => ColumnType::TinyInt,
            OwnedColumn::SmallInt(_) => ColumnType::SmallInt,
            OwnedColumn::Int(_) => ColumnType::Int,
            OwnedColumn::BigInt(_) => ColumnType::BigInt,
            OwnedColumn::VarChar(_) => ColumnType::VarChar,
            OwnedColumn::VarBinary(_) => ColumnType::VarBinary,
            OwnedColumn::Int128(_) => ColumnType::Int128,
            OwnedColumn::Decimal75(p, s, _) => ColumnType::Decimal75(*p, *s),
            OwnedColumn::Scalar(_) => ColumnType::Scalar,
            OwnedColumn::TimestampTZ(u, z, _) => ColumnType::TimestampTZ(*u, *z),
        }
    }

    /// A copy of the column.
    pub fn duplicate(&self) -> (c: OwnedColumn)
        ensures
            c.same_as(self),
    {
        match self {
            OwnedColumn::Boolean(v) => OwnedColumn::Boolean(v.clone()),
            OwnedColumn::Uint8(v) => OwnedColumn::Uint8(v.clone()),
            OwnedColumn::TinyInt(v) => OwnedColumn::TinyInt(v.clone()),
            OwnedColumn::SmallInt(v) => OwnedColumn::SmallInt(v.clone()),
            OwnedColumn::Int(v) => OwnedColumn::Int(v.clone()),
            OwnedColumn::BigInt(v) => OwnedColumn::BigInt(v.clone()),
            OwnedColumn::VarChar(v) => OwnedColumn::VarChar(v.clone()),
            OwnedColumn::VarBinary(v) => {
                let c = v.clone();
                proof {
                    assert forall|i: int| 0 <= i < c@.len() implies (#[trigger] c@[i])@ == v@[i]@ by {
                        assert(c@[i]@ =~= v@[i]@);
                    }
                }
                OwnedColumn::VarBinary(c)
            },
            OwnedColumn::Int128(v) => OwnedColumn::Int128(v.clone()),
            OwnedColumn::Decimal75(p, s, v) => OwnedColumn::Decimal75(*p, *s, v.clone()),
            OwnedColumn::Scalar(v) => OwnedColumn::Scalar(v.clone()),
            OwnedColumn::TimestampTZ(u, z, v) => OwnedColumn::TimestampTZ(*u, *z, v.clone()),
        }
    }

    /// Whether row `i` of this column holds what row `j` of `other` holds,
    /// the two being of the same variant; strings and byte strings compare
    /// by their contents.
    pub open spec fn same_row(&self, i: int, other: &OwnedColumn, j: int) -> bool {
        match (*self, *other) {
            (OwnedColumn::Boolean(a), OwnedColumn::Boolean(b)) => a@[i] == b@[j],
            (OwnedColumn::Uint8(a), OwnedColumn::Uint8(b)) => a@[i] == b@[j],
            (OwnedColumn::TinyInt(a), OwnedColumn::TinyInt(b)) => a@[i] == b@[j],
            (OwnedColumn::SmallInt(a), OwnedColumn::SmallInt(b)) => a@[i] == b@[j],
            (OwnedColumn::Int(a), OwnedColumn::Int(b)) => a@[i] == b@[j],
            (OwnedColumn::BigInt(a), OwnedColumn::BigInt(b)) => a@[i] == b@[j],
            (OwnedColumn::VarChar(a), OwnedColumn::VarChar(b)) => a@[i]@ == b@[j]@,
            (OwnedColumn::VarBinary(a), OwnedColumn::VarBinary(b)) => a@[i]@ == b@[j]@,
            (OwnedColumn::Int128(a), OwnedColumn::Int128(b)) => a@[i] == b@[j],
            (OwnedColumn::Decimal75(_, _, a), OwnedColumn::Decimal75(_, _, b)) => a@[i] == b@[j],
            (OwnedColumn::Scalar(a), OwnedColumn::Scalar(b)) => a@[i] == b@[j],
            (OwnedColumn::TimestampTZ(_, _, a), OwnedColumn::TimestampTZ(_, _, b)) => a@[i] == b@[j],
            _ => false,
        }
    }

    /// The rows `start..end` of the column.
    pub fn slice(&self, start: usize, end: usize) -> (c: OwnedColumn)
        requires
            start <= end <= self.spec_len(),
        ensures
            c.spec_column_type() == self.spec_column_type(),
            c.spec_len() == end - start,
            forall|r: int| 0 <= r < end - start ==> #[trigger] c.same_row(r, self, start + r),
    {
        match self {
            OwnedColumn::Boolean(v) => OwnedColumn::Boolean(copy_range(v.as_slice(), start, end)),
            OwnedColumn::Uint8(v) => OwnedColumn::Uint8(copy_range(v.as_slice(), start, end)),
            OwnedColumn::TinyInt(v) => OwnedColumn::TinyInt(copy_range(v.as_slice(), start, end)),
            OwnedColumn::SmallInt(v) => OwnedColumn::SmallInt(copy_range(v.as_slice(), start, end)),
            OwnedColumn::Int(v) => OwnedColumn::Int(copy_range(v.as_slice(), start, end)),
            OwnedColumn::BigInt(v) => OwnedColumn::BigInt(copy_range(v.as_slice(), start, end)),
            OwnedColumn::VarChar(v) => OwnedColumn::VarChar(clone_range(v.as_slice(), start, end)),
            OwnedColumn::VarBinary(v) => {
                let c = clone_range(v.as_slice(), start, end);
                proof {
                    assert forall|r: int| 0 <= r < end - start implies (#[trigger] c@[r])@ == v@[start + r]@ by {
                        assert(c@[r]@ =~= v@[start + r]@);
                    }
                }
                OwnedColumn::VarBinary(c)
            },
            OwnedColumn::Int128(v) => OwnedColumn::Int128(copy_range(v.as_slice(), start, end)),
            OwnedColumn::Decimal75(p, s, v) => OwnedColumn::Decimal75(*p, *s, copy_range(v.as_slice(), start, end)),
            OwnedColumn::Scalar(v) => OwnedColumn::Scalar(copy_range(v.as_slice(), start, end)),
            OwnedColumn::TimestampTZ(u, z, v) => OwnedColumn::TimestampTZ(*u, *z, copy_range(v.as_slice(), start, end)),
        }
    }

    /// An iterator over the values of a `Uint8` column.
    pub fn u8_iter(&self) -> (it: std::slice::Iter<'_, u8>)
        requires
            self is Uint8,
        ensures
            vstd::std_specs::slice::into_iter_elts(it) == self->Uint8_0@,
    {
        match self {
            OwnedColumn::Uint8(v) => {
                let it = v.as_slice().iter();
                proof { broadcast use vstd::std_specs::slice::axiom_spec_slice_iter; }
                it
            },
            _ => vstd::pervasive::unreached(),
        }
    }

    /// An iterator over the values of a `TinyInt` column.
    pub fn i8_iter(&self) -> (it: std::slice::Iter<'_, i8>)
        requires
            self is TinyInt,
        ensures
            vstd::std_specs::slice::into_iter_elts(it) == self->TinyInt_0@,
    {
        match self {
            OwnedColumn::TinyInt(v) => {
                let it = v.as_slice().iter();
                proof { broadcast use vstd::std_specs::slice::axiom_spec_slice_iter; }
                it
            },
            _ => vstd::pervasive::unreached(),
        }
    }

    /// An iterator over the values of a `SmallInt` column.
    pub fn i16_iter(&self) -> (it: std::slice::Iter<'_, i16>)
        requires
            self is SmallInt,
        ensures
            vstd::std_specs::slice::into_iter_elts(it) == self->SmallInt_0@,
    {
        match self {
            OwnedColumn::SmallInt(v) => {
                let it = v.as_slice().iter();
                proof { broadcast use vstd::std_specs::slice::axiom_spec_slice_iter; }
                it
            },
            _ => vstd::pervasive::unreached(),
        }
    }

    /// An iterator over the values of a `Int` column.
    pub fn i32_iter(&self) -> (it: std::slice::Iter<'_, i32>)
        requires
            self is Int,
        ensures
            vstd::std_specs::slice::into_iter_elts(it) == self->Int_0@,
    {
        match self {
            OwnedColumn::Int(v) => {
                let it = v.as_slice().iter();
                proof { broadcast use vstd::std_specs::slice::axiom_spec_slice_iter; }
                it
            },
            _ => vstd::pervasive::unreached(),
        }
    }

    /// An iterator over the values of a `BigInt` or `TimestampTZ` column.
    pub fn i64_iter(&self) -> (it: std::slice::Iter<'_, i64>)
        requires
            self is BigInt || self is TimestampTZ,
        ensures
            self is BigInt ==> vstd::std_specs::slice::into_iter_elts(it) == self->BigInt_0@,
            self is TimestampTZ ==> vstd::std_specs::slice::into_iter_elts(it) == self->TimestampTZ_2@,
    {
        match self {
            OwnedColumn::BigInt(v) => {
                let it = v.as_slice().iter();
                proof { broadcast use vstd::std_specs::slice::axiom_spec_slice_iter; }
                it
            },
            OwnedColumn::TimestampTZ(_, _, v) => {
                let it = v.as_slice().iter();
                proof { broadcast use vstd::std_specs::slice::axiom_spec_slice_iter; }
                it
            },
            _ => vstd::pervasive::unreached(),
        }
    }

    /// An iterator over the values of a `Int128` column.
    pub fn i128_iter(&self) -> (it: std::slice::Iter<'_, i128>)
        requires
            self is Int128,
        ensures
            vstd::std_specs::slice::into_iter_elts(it) == self->Int128_0@,
    {
        match self {
            OwnedColumn::Int128(v) => {
                let it = v.as_slice().iter();
                proof { broadcast use vstd::std_specs::slice::axiom_spec_slice_iter; }
                it
            },
            _ => vstd::pervasive::unreached(),
        }
    }

    /// An iterator over the values of a `Boolean` column.
    pub fn bool_iter(&self) -> (it: std::slice::Iter<'_, bool>)
        requires
            self is Boolean,
        ensures
            vstd::std_specs::slice::into_iter_elts(it) == self->Boolean_0@,
    {
        match self {
            OwnedColumn::Boolean(v) => {
                let it = v.as_slice().iter();
                proof { broadcast use vstd::std_specs::slice::axiom_spec_slice_iter; }
                it
            },
            _ => vstd::pervasive::unreached(),
        }
    }

    /// An iterator over the values of a `Scalar` or `Decimal75` column.
    pub fn scalar_iter(&self) -> (it: std::slice::Iter<'_, Scalar>)
        requires
            self is Scalar || self is Decimal75,
        ensures
            self is Scalar ==> vstd::std_specs::slice::into_iter_elts(it) == self->Scalar_0@,
            self is Decimal75 ==> vstd::std_specs::slice::into_iter_elts(it) == self->Decimal75_2@,
    {
        match self {
            OwnedColumn::Scalar(v) => {
                let it = v.as_slice().iter();
                proof { broadcast use vstd::std_specs::slice::axiom_spec_slice_iter; }
                it
            },
            OwnedColumn::Decimal75(_, _, v) => {
                let it = v.as_slice().iter();
                proof { broadcast use vstd::std_specs::slice::axiom_spec_slice_iter; }
                it
            },
            _ => vstd::pervasive::unreached(),
        }
    }

    /// An iterator over the values of a `VarChar` column.
    pub fn string_iter(&self) -> (it: std::slice::Iter<'_, String>)
        requires
            self is VarChar,
        ensures
            vstd::std_specs::slice::into_iter_elts(it) == self->VarChar_0@,
    {
        match self {
            OwnedColumn::VarChar(v) => {
                let it = v.as_slice().iter();
                proof { broadcast use vstd::std_specs::slice::axiom_spec_slice_iter; }
                it
            },
            _ => vstd::pervasive::unreached(),
        }
    }

    /// Reads scalars as a column of the given type: integers and timestamps
    /// from the signed integers the scalars stand for, booleans from `0` and
    /// `1`, decimals and scalars as they are.
    pub fn try_from_scalars(scalars: &[Scalar], column_type: ColumnType) -> (res: Result<OwnedColumn, OwnedColumnError>)
        ensures
            scalars_read_as(scalars@, column_type, res),
    {
        match column_type {
            ColumnType::Boolean => {
                let mut out: Vec<bool> = Vec::new();
                let mut i: usize = 0;
                while i < scalars.len()
                    invariant
                        column_type == ColumnType::Boolean,
                        i <= scalars@.len(),
                        out@.len() == i,
                        forall|j: int| 0 <= j < i ==> (#[trigger] scalars@[j])@ == 0 || scalars@[j]@ == 1,
                        forall|j: int| 0 <= j < i ==> #[trigger] out@[j] == (scalars@[j]@ == 1),
                    decreases scalars@.len() - i,
                {
                    if scalars[i].is_zero() {
                        out.push(false);
                    } else if scalars[i].equals(&Scalar::one()) {
                        out.push(true);
                    } else {
                        assert(!((scalars@[i as int])@ == 0 || scalars@[i as int]@ == 1));
                        return Err(scalar_conversion_error());
                    }
                    i = i + 1;
                }
                Ok(OwnedColumn::Boolean(out))
            },
            ColumnType::Uint8 => match scalars_to_ints::<u8>(scalars) {
                Some(v) => Ok(OwnedColumn::Uint8(v)),
                None => Err(scalar_conversion_error()),
            },
            ColumnType::TinyInt => match scalars_to_ints::<i8>(scalars) {
                Some(v) => Ok(OwnedColumn::TinyInt(v)),
                None => Err(scalar_conversion_error()),
            },
            ColumnType::SmallInt => match scalars_to_ints::<i16>(scalars) {
                Some(v) => Ok(OwnedColumn::SmallInt(v)),
                None => Err(scalar_conversion_error()),
            },
            ColumnType::Int => match scalars_to_ints::<i32>(scalars) {
                Some(v) => Ok(OwnedColumn::Int(v)),
                None => Err(scalar_conversion_error()),
            },
            ColumnType::BigInt => match scalars_to_ints::<i64>(scalars) {
                Some(v) => Ok(OwnedColumn::BigInt(v)),
                None => Err(scalar_conversion_error()),
            },
            ColumnType::Int128 => match scalars_to_ints::<i128>(scalars) {
                Some(v) => Ok(OwnedColumn::Int128(v)),
                None => Err(scalar_conversion_error()),
            },
            ColumnType::TimestampTZ(u, z) => match scalars_to_ints::<i64>(scalars) {
                Some(v) => Ok(OwnedColumn::TimestampTZ(u, z, v)),
                None => Err(scalar_conversion_error()),
            },
            ColumnType::Scalar => Ok(OwnedColumn::Scalar(copy_range(scalars, 0, scalars.len()))),
            ColumnType::Decimal75(p, k) => Ok(OwnedColumn::Decimal75(p, k, copy_range(scalars, 0, scalars.len()))),
            _ => Err(OwnedColumnError::TypeCastError { from_type: ColumnType::Scalar, to_type: column_type }),
        }
    }

    /// The column with its rows reordered by a permutation: row `k` of the
    /// result is row `permutation[k]` of this column.
    pub fn try_permute(&self, permutation: &Permutation) -> (res: Result<OwnedColumn, PermutationError>)
        ensures
            res is Ok <==> permutation@.len() == self.spec_len(),
            res matches Ok(c) ==> c.spec_column_type() == self.spec_column_type()
                && c.spec_len() == self.spec_len()
                && forall|k: int| 0 <= k < c.spec_len() ==> #[trigger] c.same_row(k, self, permutation@[k] as int),
            res matches Err(e) ==> e == (PermutationError::PermutationSizeMismatch {
                permutation_size: permutation@.len() as usize, slice_length: self.spec_len() as usize }),
    {
        match self {
            OwnedColumn::Boolean(v) => match permutation.try_apply(v.as_slice()) {
                Ok(w) => Ok(OwnedColumn::Boolean(w)),
                Err(e) => Err(e),
            },
            OwnedColumn::Uint8(v) => match permutation.try_apply(v.as_slice()) {
                Ok(w) => Ok(OwnedColumn::Uint8(w)),
                Err(e) => Err(e),
            },
            OwnedColumn::TinyInt(v) => match permutation.try_apply(v.as_slice()) {
                Ok(w) => Ok(OwnedColumn::TinyInt(w)),
                Err(e) => Err(e),
            },
            OwnedColumn::SmallInt(v) => match permutation.try_apply(v.as_slice()) {
                Ok(w) => Ok(OwnedColumn::SmallInt(w)),
                Err(e) => Err(e),
            },
            OwnedColumn::Int(v) => match permutation.try_apply(v.as_slice()) {
                Ok(w) => Ok(OwnedColumn::Int(w)),
                Err(e) => Err(e),
            },
            OwnedColumn::BigInt(v) => match permutation.try_apply(v.as_slice()) {
                Ok(w) => Ok(OwnedColumn::BigInt(w)),
                Err(e) => Err(e),
            },
            OwnedColumn::VarChar(v) => match permutation.try_apply(v.as_slice()) {
                Ok(w) => Ok(OwnedColumn::VarChar(w)),
                Err(e) => Err(e),
            },
            OwnedColumn::VarBinary(v) => match permutation.try_apply(v.as_slice()) {
                Ok(w) => Ok(OwnedColumn::VarBinary(w)),
                Err(e) => Err(e),
            },
            OwnedColumn::Int128(v) => match permutation.try_apply(v.as_slice()) {
                Ok(w) => Ok(OwnedColumn::Int128(w)),
                Err(e) => Err(e),
            },
            OwnedColumn::Decimal75(p, k, v) => match permutation.try_apply(v.as_slice()) {
                Ok(w) => Ok(OwnedColumn::Decimal75(*p, *k, w)),
                Err(e) => Err(e),
            },
            OwnedColumn::Scalar(v) => match permutation.try_apply(v.as_slice()) {
                Ok(w) => Ok(OwnedColumn::Scalar(w)),
                Err(e) => Err(e),
            },
            OwnedColumn::TimestampTZ(u, z, v) => match permutation.try_apply(v.as_slice()) {
                Ok(w) => Ok(OwnedColumn::TimestampTZ(*u, *z, w)),
                Err(e) => Err(e),
            },
        }
    }

    /// Coerces a column to a type: a column of that type is returned as it
    /// is; a column of scalars is read as a column of a numeric type, as
    /// `try_from_scalars` does, and a value that does not fit is an
    /// overflow; any other column or target type cannot be coerced.
    pub fn try_coerce_scalar_to_numeric(self, to_type: ColumnType) -> (res: Result<OwnedColumn, ColumnCoercionError>)
        ensures
            coerced_to(self, to_type, res),
    {
        if self.column_type() == to_type {
            return Ok(self);
        }
        match self {
            OwnedColumn::Scalar(v) => {
                if to_type.is_numeric() {
                    match Self::try_from_scalars(v.as_slice(), to_type) {
                        Ok(c) => Ok(c),
                        Err(_) => Err(ColumnCoercionError::Overflow),
                    }
                } else {
                    Err(ColumnCoercionError::InvalidTypeCoercion)
                }
            },
            _ => Err(ColumnCoercionError::InvalidTypeCoercion),
        }
    }

    /// An owned copy of a borrowed column: strings and byte strings are
    /// copied, their scalars dropped.
    pub fn from_column(column: &Column) -> (c: OwnedColumn)
        ensures
            column.same_values(c),
    {
        match column {
            Column::Boolean(v) => OwnedColumn::Boolean(copy_range(v, 0, v.len())),
            Column::Uint8(v) => OwnedColumn::Uint8(copy_range(v, 0, v.len())),
            Column::TinyInt(v) => OwnedColumn::TinyInt(copy_range(v, 0, v.len())),
            Column::SmallInt(v) => OwnedColumn::SmallInt(copy_range(v, 0, v.len())),
            Column::Int(v) => OwnedColumn::Int(copy_range(v, 0, v.len())),
            Column::BigInt(v) => OwnedColumn::BigInt(copy_range(v, 0, v.len())),
            Column::Int128(v) => OwnedColumn::Int128(copy_range(v, 0, v.len())),
            Column::Decimal75(p, s, v) => OwnedColumn::Decimal75(*p, *s, copy_range(v, 0, v.len())),
            Column::Scalar(v) => OwnedColumn::Scalar(copy_range(v, 0, v.len())),
            Column::TimestampTZ(u, z, v) => OwnedColumn::TimestampTZ(*u, *z, copy_range(v, 0, v.len())),
            Column::VarChar((strs, _)) => {
                let mut out: Vec<String> = Vec::new();
                let mut i: usize = 0;
                while i < strs.len()
                    invariant
                        i <= strs@.len(),
                        out@.len() == i,
                        forall|j: int| 0 <= j < i ==> (#[trigger] out@[j])@ == strs@[j]@,
                    decreases strs@.len() - i,
                {
                    out.push(string_of(strs[i]));
                    i = i + 1;
                }
                OwnedColumn::VarChar(out)
            },
            Column::VarBinary((bytes, _)) => {
                let mut out: Vec<Vec<u8>> = Vec::new();
                let mut i: usize = 0;
                while i < bytes.len()
                    invariant
                        i <= bytes@.len(),
                        out@.len() == i,
                        forall|j: int| 0 <= j < i ==> (#[trigger] out@[j])@ == bytes@[j]@,
                    decreases bytes@.len() - i,
                {
                    let b = copy_range(bytes[i], 0, bytes[i].len());
                    out.push(b);
                    i = i + 1;
                }
                OwnedColumn::VarBinary(out)
            },
        }
    }
}

/// The signed integers a sequence of scalars stands for.
pub open spec fn signed_values(s: Seq<Scalar>) -> Seq<int> {
    s.map_values(|x: Scalar| signed_value(x@))
}

/// Whether every scalar stands for a signed integer in `lo..=hi`.
pub open spec fn scalars_fit(s: Seq<Scalar>, lo: int, hi: int) -> bool {
    forall|i: int| 0 <= i < s.len() ==> lo <= #[trigger] signed_values(s)[i] <= hi
}

/// Whether a column can be coerced to a type: it has the type, or it holds
/// scalars that can be read as the numeric type.
pub open spec fn coercible(c: OwnedColumn, t: ColumnType) -> bool {
    ||| c.spec_column_type() == t
    ||| (c is Scalar && t.spec_is_numeric() && scalars_readable(c->Scalar_0@, t))
}

/// The error of coercing a column that cannot be coerced to a type.
pub open spec fn coercion_error(c: OwnedColumn, t: ColumnType) -> ColumnCoercionError {
    if c is Scalar && t.spec_is_numeric() { ColumnCoercionError::Overflow } else { ColumnCoercionError::InvalidTypeCoercion }
}

/// What coercing a column to a type gives: the column itself when it has
/// the type; for scalars read as a numeric type, the column reading them
/// gives; otherwise the error.
pub open spec fn coerced_to(c: OwnedColumn, t: ColumnType, res: Result<OwnedColumn, ColumnCoercionError>) -> bool {
    &&& (res is Ok <==> coercible(c, t))
    &&& (res matches Err(e) ==> e == coercion_error(c, t))
    &&& (c.spec_column_type() == t ==> res == Ok::<OwnedColumn, ColumnCoercionError>(c))
    &&& (c.spec_column_type() != t ==> (res matches Ok(d) ==> scalars_read_as(c->Scalar_0@, t, Ok(d))))
}

/// Scalars read as a column give a column of their number.
pub proof fn lemma_scalars_read_len(s: Seq<Scalar>, t: ColumnType, c: OwnedColumn)
    requires
        scalars_read_as(s, t, Ok(c)),
    ensures
        c.spec_len() == s.len(),
{
    let sv = signed_values(s);
    assert(sv.len() == s.len());
    match c {
        OwnedColumn::Uint8(v) => { assert(ints(v@).len() == v@.len()); },
        OwnedColumn::TinyInt(v) => { assert(ints(v@).len() == v@.len()); },
        OwnedColumn::SmallInt(v) => { assert(ints(v@).len() == v@.len()); },
        OwnedColumn::Int(v) => { assert(ints(v@).len() == v@.len()); },
        OwnedColumn::BigInt(v) => { assert(ints(v@).len() == v@.len()); },
        OwnedColumn::Int128(v) => { assert(ints(v@).len() == v@.len()); },
        OwnedColumn::TimestampTZ(_, _, v) => { assert(ints(v@).len() == v@.len()); },
        _ => {},
    }
}

/// Coercing a column keeps its number of values.
pub proof fn lemma_coerced_len(c: OwnedColumn, t: ColumnType, d: OwnedColumn)
    requires
        coerced_to(c, t, Ok(d)),
    ensures
        d.spec_len() == c.spec_len(),
        d.spec_column_type() == t || c.spec_column_type() == t,
{
    if c.spec_column_type() != t {
        lemma_scalars_read_len(c->Scalar_0@, t, d);
    }
}

/// Whether scalars can be read as a column of type `t`: see
/// `scalars_read_as`.
pub open spec fn scalars_readable(s: Seq<Scalar>, t: ColumnType) -> bool {
    match t {
        ColumnType::VarChar | ColumnType::VarBinary => false,
        ColumnType::Scalar | ColumnType::Decimal75(_, _) => true,
        ColumnType::Boolean => forall|i: int| 0 <= i < s.len() ==> (#[trigger] s[i])@ == 0 || s[i]@ == 1,
        ColumnType::TimestampTZ(_, _) => scalars_fit(s, i64::MIN as int, i64::MAX as int),
        _ => scalars_fit(s, spec_integer_range(t).0, spec_integer_range(t).1),
    }
}

/// What reading scalars as a column of type `t` gives: integer and
/// timestamp columns of the signed integers they stand for, when all fit;
/// booleans when all are `0` or `1`; decimal and scalar columns of the
/// scalars themselves. Strings and byte strings cannot be read from
/// scalars.
pub open spec fn scalars_read_as(s: Seq<Scalar>, t: ColumnType, res: Result<OwnedColumn, OwnedColumnError>) -> bool {
    match t {
        ColumnType::VarChar | ColumnType::VarBinary =>
            res == Err::<OwnedColumn, OwnedColumnError>(OwnedColumnError::TypeCastError { from_type: ColumnType::Scalar, to_type: t }),
        ColumnType::Scalar => res matches Ok(c) && c == OwnedColumn::Scalar(c->Scalar_0) && c->Scalar_0@ == s,
        ColumnType::Decimal75(p, k) => res matches Ok(c) && c matches OwnedColumn::Decimal75(q, l, v)
            && q == p && l == k && v@ == s,
        ColumnType::Boolean => {
            &&& (res is Ok <==> forall|i: int| 0 <= i < s.len() ==> (#[trigger] s[i])@ == 0 || s[i]@ == 1)
            &&& (res matches Ok(c) ==> c matches OwnedColumn::Boolean(b) && b@.len() == s.len()
                    && forall|i: int| 0 <= i < s.len() ==> #[trigger] b@[i] == (s[i]@ == 1))
            &&& (res matches Err(e) ==> scalar_conversion_error_is(e))
        },
        ColumnType::TimestampTZ(u, z) => {
            &&& (res is Ok <==> scalars_fit(s, i64::MIN as int, i64::MAX as int))
            &&& (res matches Ok(c) ==> c matches OwnedColumn::TimestampTZ(u2, z2, v) && u2 == u && z2 == z
                    && ints(v@) == signed_values(s))
            &&& (res matches Err(e) ==> scalar_conversion_error_is(e))
        },
        _ => {
            &&& (res is Ok <==> scalars_fit(s, spec_integer_range(t).0, spec_integer_range(t).1))
            &&& (res matches Ok(c) ==> c.spec_column_type() == t && c.spec_int_values() == Some(signed_values(s)))
            &&& (res matches Err(e) ==> scalar_conversion_error_is(e))
        },
    }
}

/// Whether an error is the one for scalars that do not fit the column
/// type they are read as.
pub open spec fn scalar_conversion_error_is(e: OwnedColumnError) -> bool {
    e matches OwnedColumnError::ScalarConversionError { error }
        && error@ == "Overflow error: a scalar does not fit in the column type"@
}

/// The error for scalars that do not fit the column type they are read as.
fn scalar_conversion_error() -> (e: OwnedColumnError)
    ensures
        e matches OwnedColumnError::ScalarConversionError { error }
            && error@ == "Overflow error: a scalar does not fit in the column type"@,
{
    OwnedColumnError::ScalarConversionError {
        error: string_of("Overflow error: a scalar does not fit in the column type"),
    }
}

/// Reads each scalar as a signed integer of type `T`; `None` when one does
/// not fit.
fn scalars_to_ints<T: IntegerElement>(s: &[Scalar]) -> (r: Option<Vec<T>>)
    ensures
        r is Some <==> scalars_fit(s@, T::spec_min(), T::spec_max()),
        r matches Some(v) ==> ints(v@) == signed_values(s@),
{
    proof { T::lemma_bounds(); }
    let mut out: Vec<T> = Vec::new();
    let mut i: usize = 0;
    while i < s.len()
        invariant
            i <= s@.len(),
            out@.len() == i,
            i128::MIN <= T::spec_min() <= 0,
            0 < T::spec_max() <= i128::MAX,
            forall|j: int| 0 <= j < i ==> #[trigger] ints(out@)[j] == signed_values(s@)[j],
            forall|j: int| 0 <= j < i ==> T::spec_min() <= #[trigger] signed_values(s@)[j] <= T::spec_max(),
        decreases s@.len() - i,
    {
        assert(signed_values(s@)[i as int] == signed_value(s@[i as int]@));
        match s[i].signed_i128() {
            Some(v) => match T::try_from_i128(v) {
                Some(x) => {
                    let ghost before = out@;
                    out.push(x);
                    proof {
                        assert forall|j: int| 0 <= j < i + 1 implies #[trigger] ints(out@)[j] == signed_values(s@)[j] by {
                            if j < i { assert(out@[j] == before[j]); assert(ints(before)[j] == before[j].spec_int()); }
                        }
                        T::lemma_range(&x);
                    }
                },
                None => {
                    proof { assert(signed_values(s@)[i as int] == signed_values(s@)[i as int]); }
                    return None;
                },
            },
            None => return None,
        }
        i = i + 1;
    }
    proof {
        assert(ints(out@) =~= signed_values(s@));
    }
    Some(out)
}

/// Copies the values `start..end` of a slice.
pub fn copy_range<T: Copy>(v: &[T], start: usize, end: usize) -> (out: Vec<T>)
    requires
        start <= end <= v@.len(),
    ensures
        out@ == v@.subrange(start as int, end as int),
        start == 0 && end == v@.len() ==> out@ == v@,
{
    let mut out: Vec<T> = Vec::new();
    let mut i: usize = start;
    while i < end
        invariant
            start <= i <= end <= v@.len(),
            out@ == v@.subrange(start as int, i as int),
        decreases end - i,
    {
        out.push(v[i]);
        i = i + 1;
        proof { assert(out@ =~= v@.subrange(start as int, i as int)); }
    }
    proof { assert(v@.subrange(0, v@.len() as int) =~= v@); }
    out
}

/// Clones the values `start..end` of a slice.
pub fn clone_range<T: Clone>(v: &[T], start: usize, end: usize) -> (out: Vec<T>)
    requires
        start <= end <= v@.len(),
    ensures
        out@.len() == end - start,
        forall|r: int| 0 <= r < end - start ==> cloned(v@[start + r], #[trigger] out@[r]),
{
    let mut out: Vec<T> = Vec::new();
    let mut i: usize = start;
    while i < end
        invariant
            start <= i <= end <= v@.len(),
            out@.len() == i - start,
            forall|r: int| 0 <= r < i - start ==> cloned(v@[start + r], #[trigger] out@[r]),
        decreases end - i,
    {
        out.push(v[i].clone());
        i = i + 1;
    }
    out
}

} // verus!

//! Columns: borrowed (`Column`) and owned (`OwnedColumn`) sequences of values
//! of one `ColumnType`.
use vstd::prelude::*;
use crate::column_type::ColumnType;
use crate::math::Precision;
use crate::posql_time::{PoSQLTimeUnit, PoSQLTimeZone};
use crate::scalar::{Scalar, ToScalar, field_of, hash_value};
use crate::literal_value::LiteralValue;
use crate::owned_column::OwnedColumn;
use vstd::utf8::encode_utf8;

verus! {

/// The arena that borrowed columns live in.
#[verifier::external_type_specification]
#[verifier::external_body]
pub struct ExBump<const MIN_ALIGN: usize>(bumpalo::Bump<MIN_ALIGN>);

/// A new, empty arena. Calls `bumpalo::Bump::new`, which reserves no
/// memory yet; nothing about the arena is stated.
#[verifier::external_body]
pub(crate) fn new_bump() -> (b: bumpalo::Bump) {
    bumpalo::Bump::new()
}

/// Copies a slice into the arena. Calls `bumpalo::Bump::alloc_slice_copy`,
/// which returns a slice holding the same values as `src`.
#[verifier::external_body]
pub(crate) fn alloc_slice_copy<'a, T: Copy>(alloc: &'a bumpalo::Bump, src: &[T]) -> (r: &'a [T])
    ensures
        r@ == src@,
{
    alloc.alloc_slice_copy(src)
}

/// Copies a string into the arena. Calls `bumpalo::Bump::alloc_str`,
/// which copies the bytes of `src` and returns them as a string equal to it.
#[verifier::external_body]
fn alloc_str<'a>(alloc: &'a bumpalo::Bump, src: &str) -> (r: &'a str)
    ensures
        r@ == src@,
{
    alloc.alloc_str(src)
}

/// Fills a new slice of the arena with copies of a value. Calls
/// `bumpalo::Bump::alloc_slice_fill_copy`, which returns `len` copies of
/// `value`.
#[verifier::external_body]
pub(crate) fn alloc_slice_fill_copy<'a, T: Copy>(alloc: &'a bumpalo::Bump, len: usize, value: T) -> (r: &'a [T])
    ensures
        r@ == Seq::new(len as nat, |i: int| value),
{
    alloc.alloc_slice_fill_copy(len, value)
}

/// The field element each value of a slice stands for.
fn slice_to_scalars<T: ToScalar>(s: &[T]) -> (v: Vec<Scalar>)
    ensures
        v@.len() == s@.len(),
        forall|i: int| 0 <= i < s@.len() ==> (#[trigger] v@[i])@ == s@[i].spec_field(),
{
    let mut out: Vec<Scalar> = Vec::new();
    let mut i: usize = 0;
    while i < s.len()
        invariant
            i <= s@.len(),
            out@.len() == i,
            forall|j: int| 0 <= j < i ==> (#[trigger] out@[j])@ == s@[j].spec_field(),
        decreases s@.len() - i,
    {
        out.push(s[i].to_scalar());
        i = i + 1;
    }
    out
}

/// A column borrowed from elsewhere, most often from an arena.
#[derive(Debug, Clone, Copy, PartialEq, Eq)]
pub enum Column<'a> {
    /// Booleans.
    Boolean(&'a [bool]),
    /// `u8` values.
    Uint8(&'a [u8]),
    /// `i8` values.
    TinyInt(&'a [i8]),
    /// `i16` values.
    SmallInt(&'a [i16]),
    /// `i32` values.
    Int(&'a [i32]),
    /// `i64` values.
    BigInt(&'a [i64]),
    /// `i128` values.
    Int128(&'a [i128]),
    /// Decimals: precision, scale and their values as scalars.
    Decimal75(Precision, i8, &'a [Scalar]),
    /// Scalars.
    Scalar(&'a [Scalar]),
    /// Strings, with the scalar each hashes to.
    VarChar((&'a [&'a str], &'a [Scalar])),
    /// Timestamps: unit, time zone and counts of the unit.
    TimestampTZ(PoSQLTimeUnit, PoSQLTimeZone, &'a [i64]),
    /// Byte strings, with the scalar each hashes to.
    VarBinary((&'a [&'a [u8]], &'a [Scalar])),
}

impl<'a> Column<'a> {
    /// The number of values.
    pub open spec fn spec_len(&self) -> nat {
        match self {
            Column::Boolean(c) => c@.len(),
            Column::Uint8(c) => c@.len(),
            Column::TinyInt(c) => c@.len(),
            Column::SmallInt(c) => c@.len(),
            Column::Int(c) => c@.len(),
            Column::BigInt(c) => c@.len(),
            Column::Int128(c) => c@.len(),
            Column::Decimal75(_, _, c) => c@.len(),
            Column::Scalar(c) => c@.len(),
            Column::VarChar((c, _)) => c@.len(),
            Column::TimestampTZ(_, _, c) => c@.len(),
            Column::VarBinary((c, _)) => c@.len(),
        }
    }

    /// The type of the values.
    pub open spec fn spec_column_type(&self) -> ColumnType {
        match self {
            Column::Boolean(_) => ColumnType::Boolean,
            Column::Uint8(_) => ColumnType::Uint8,
            Column::TinyInt(_) => ColumnType::TinyInt,
            Column::SmallInt(_) => ColumnType::SmallInt,
            Column::Int(_) => ColumnType::Int,
            Column::BigInt(_) => ColumnType::BigInt,
            Column::Int128(_) => ColumnType::Int128,
            Column::Decimal75(p, s, _) => ColumnType::Decimal75(*p, *s),
            Column::Scalar(_) => ColumnType::Scalar,
            Column::VarChar(_) => ColumnType::VarChar,
            Column::TimestampTZ(u, z, _) => ColumnType::TimestampTZ(*u, *z),
            Column::VarBinary(_) => ColumnType::VarBinary,
        }
    }

    /// The number of values.
    pub fn len(&self) -> (n: usize)
        ensures
            n == self.spec_len(),
    {
        match self {
            Column::Boolean(c) => c.len(),
            Column::Uint8(c) => c.len(),
            Column::TinyInt(c) => c.len(),
            Column::SmallInt(c) => c.len(),
            Column::Int(c) => c.len(),
            Column::BigInt(c) => c.len(),
            Column::Int128(c) => c.len(),
            Column::Decimal75(_, _, c) => c.len(),
            Column::Scalar(c) => c.len(),
            Column::VarChar((c, _)) => c.len(),
            Column::TimestampTZ(_, _, c) => c.len(),
            Column::VarBinary((c, _)) => c.len(),
        }
    }

    /// Whether there are no values.
    pub fn is_empty(&self) -> (b: bool)
        ensures
            b == (self.spec_len() == 0),
    {
        self.len() == 0
    }

    /// The type of the values.
    pub fn column_type(&self) -> (t: ColumnType)
        ensures
            t == self.spec_column_type(),
    {
        match self {
            Column::Boolean(_) => ColumnType::Boolean,
            Column::Uint8(_) => ColumnType::Uint8,
            Column::TinyInt(_) => ColumnType::TinyInt,
            Column::SmallInt(_) => ColumnType::SmallInt,
            Column::Int(_) => ColumnType::Int,
            Column::BigInt(_) => ColumnType::BigInt,
            Column::Int128(_) => ColumnType::Int128,
            Column::Decimal75(p, s, _) => ColumnType::Decimal75(*p, *s),
            Column::Scalar(_) => ColumnType::Scalar,
            Column::VarChar(_) => ColumnType::VarChar,
            Column::TimestampTZ(u, z, _) => ColumnType::TimestampTZ(*u, *z),
            Column::VarBinary(_) => ColumnType::VarBinary,
        }
    }

    /// The booleans of a boolean column.
    pub fn as_boolean(&self) -> (r: Option<&'a [bool]>)
        ensures
            match self { Column::Boolean(c) => r == Some(*c), _ => r is None },
    {
        match self { Column::Boolean(c) => Some(*c), _ => None }
    }

    /// The values of a `Uint8` column.
    pub fn as_uint8(&self) -> (r: Option<&'a [u8]>)
        ensures
            match self { Column::Uint8(c) => r == Some(*c), _ => r is None },
    {
        match self { Column::Uint8(c) => Some(*c), _ => None }
    }

    /// The values of a `TinyInt` column.
    pub fn as_tinyint(&self) -> (r: Option<&'a [i8]>)
        ensures
            match self { Column::TinyInt(c) => r == Some(*c), _ => r is None },
    {
        match self { Column::TinyInt(c) => Some(*c), _ => None }
    }

    /// The values of a `SmallInt` column.
    pub fn as_smallint(&self) -> (r: Option<&'a [i16]>)
        ensures
            match self { Column::SmallInt(c) => r == Some(*c), _ => r is None },
    {
        match self { Column::SmallInt(c) => Some(*c), _ => None }
    }

    /// The values of an `Int` column.
    pub fn as_int(&self) -> (r: Option<&'a [i32]>)
        ensures
            match self { Column::Int(c) => r == Some(*c), _ => r is None },
    {
        match self { Column::Int(c) => Some(*c), _ => None }
    }

    /// The values of a `BigInt` column.
    pub fn as_bigint(&self) -> (r: Option<&'a [i64]>)
        ensures
            match self { Column::BigInt(c) => r == Some(*c), _ => r is None },
    {
        match self { Column::BigInt(c) => Some(*c), _ => None }
    }

    /// The values of an `Int128` column.
    pub fn as_int128(&self) -> (r: Option<&'a [i128]>)
        ensures
            match self { Column::Int128(c) => r == Some(*c), _ => r is None },
    {
        match self { Column::Int128(c) => Some(*c), _ => None }
    }

    /// The values of a `Scalar` column.
    pub fn as_scalar(&self) -> (r: Option<&'a [Scalar]>)
        ensures
            match self { Column::Scalar(c) => r == Some(*c), _ => r is None },
    {
        match self { Column::Scalar(c) => Some(*c), _ => None }
    }

    /// The values of a decimal column.
    pub fn as_decimal75(&self) -> (r: Option<&'a [Scalar]>)
        ensures
            match self { Column::Decimal75(_, _, c) => r == Some(*c), _ => r is None },
    {
        match self { Column::Decimal75(_, _, c) => Some(*c), _ => None }
    }

    /// The strings of a `VarChar` column.
    pub fn as_varchar(&self) -> (r: Option<(&'a [&'a str], &'a [Scalar])>)
        ensures
            match self { Column::VarChar(c) => r == Some(*c), _ => r is None },
    {
        match self { Column::VarChar(c) => Some(*c), _ => None }
    }

    /// The byte strings of a `VarBinary` column.
    pub fn as_varbinary(&self) -> (r: Option<(&'a [&'a [u8]], &'a [Scalar])>)
        ensures
            match self { Column::VarBinary(c) => r == Some(*c), _ => r is None },
    {
        match self { Column::VarBinary(c) => Some(*c), _ => None }
    }

    /// The counts of a timestamp column.
    pub fn as_timestamptz(&self) -> (r: Option<&'a [i64]>)
        ensures
            match self { Column::TimestampTZ(_, _, c) => r == Some(*c), _ => r is None },
    {
        match self { Column::TimestampTZ(_, _, c) => Some(*c), _ => None }
    }

    /// The field element the value at index `i` stands for: numbers by
    /// their residue, booleans as `0` and `1`, strings and byte strings by
    /// the scalars stored beside them.
    pub open spec fn spec_field_at(&self, i: int) -> nat {
        match self {
            Column::Boolean(c) => if c@[i] { 1 } else { 0 },
            Column::Uint8(c) => field_of(c@[i] as int),
            Column::TinyInt(c) => field_of(c@[i] as int),
            Column::SmallInt(c) => field_of(c@[i] as int),
            Column::Int(c) => field_of(c@[i] as int),
            Column::BigInt(c) => field_of(c@[i] as int),
            Column::Int128(c) => field_of(c@[i] as int),
            Column::Decimal75(_, _, c) => c@[i]@,
            Column::Scalar(c) => c@[i]@,
            Column::VarChar((_, h)) => h@[i]@,
            Column::TimestampTZ(_, _, c) => field_of(c@[i] as int),
            Column::VarBinary((_, h)) => h@[i]@,
        }
    }

    /// Whether a string or byte string column keeps one scalar per value.
    pub open spec fn hashes_aligned(&self) -> bool {
        match self {
            Column::VarChar((s, h)) => s@.len() == h@.len(),
            Column::VarBinary((s, h)) => s@.len() == h@.len(),
            _ => true,
        }
    }

    /// The field elements the values stand for.
    pub fn to_scalar(&self) -> (v: Vec<Scalar>)
        requires
            self.hashes_aligned(),
        ensures
            v@.len() == self.spec_len(),
            forall|i: int| 0 <= i < self.spec_len() ==> (#[trigger] v@[i])@ == self.spec_field_at(i),
    {
        match self {
            Column::Boolean(c) => {
                let mut out: Vec<Scalar> = Vec::new();
                let mut i: usize = 0;
                while i < c.len()
                    invariant
                        i <= c@.len(),
                        out@.len() == i,
                        forall|j: int| 0 <= j < i ==> (#[trigger] out@[j])@ == (if c@[j] { 1nat } else { 0nat }),
                    decreases c@.len() - i,
                {
                    out.push(Scalar::from_bool(c[i]));
                    i = i + 1;
                }
                out
            },
            Column::Uint8(c) => slice_to_scalars(c),
            Column::TinyInt(c) => slice_to_scalars(c),
            Column::SmallInt(c) => slice_to_scalars(c),
            Column::Int(c) => slice_to_scalars(c),
            Column::BigInt(c) => slice_to_scalars(c),
            Column::Int128(c) => slice_to_scalars(c),
            Column::Decimal75(_, _, c) => slice_to_scalars(c),
            Column::Scalar(c) => slice_to_scalars(c),
            Column::VarChar((_, h)) => slice_to_scalars(h),
            Column::TimestampTZ(_, _, c) => slice_to_scalars(c),
            Column::VarBinary((_, h)) => slice_to_scalars(h),
        }
    }

    /// Whether the column holds the literal `n` times over, with the type
    /// of the literal.
    pub open spec fn repeats_literal(&self, lit: LiteralValue, n: nat) -> bool {
        &&& self.spec_column_type() == lit.spec_column_type()
        &&& self.spec_len() == n
        &&& self.hashes_aligned()
        &&& forall|i: int| 0 <= i < n ==> #[trigger] self.spec_field_at(i) == lit.spec_field()
        &&& match (*self, lit) {
            (Column::Boolean(c), LiteralValue::Boolean(b)) => forall|i: int| 0 <= i < n ==> #[trigger] c@[i] == b,
            (Column::Uint8(c), LiteralValue::Uint8(b)) => forall|i: int| 0 <= i < n ==> #[trigger] c@[i] == b,
            (Column::TinyInt(c), LiteralValue::TinyInt(b)) => forall|i: int| 0 <= i < n ==> #[trigger] c@[i] == b,
            (Column::SmallInt(c), LiteralValue::SmallInt(b)) => forall|i: int| 0 <= i < n ==> #[trigger] c@[i] == b,
            (Column::Int(c), LiteralValue::Int(b)) => forall|i: int| 0 <= i < n ==> #[trigger] c@[i] == b,
            (Column::BigInt(c), LiteralValue::BigInt(b)) => forall|i: int| 0 <= i < n ==> #[trigger] c@[i] == b,
            (Column::Int128(c), LiteralValue::Int128(b)) => forall|i: int| 0 <= i < n ==> #[trigger] c@[i] == b,
            (Column::TimestampTZ(_, _, c), LiteralValue::TimeStampTZ(_, _, b)) =>
                forall|i: int| 0 <= i < n ==> #[trigger] c@[i] == b,
            (Column::VarChar((c, _)), LiteralValue::VarChar(b)) => forall|i: int| 0 <= i < n ==> #[trigger] c@[i]@ == b@,
            (Column::VarBinary((c, _)), LiteralValue::VarBinary(b)) =>
                forall|i: int| 0 <= i < n ==> #[trigger] c@[i]@ == b@,
            _ => true,
        }
    }

    /// The column `0, 1, ..., length - 1` of `Int128`s, allocated in the
    /// arena.
    pub fn rho(length: usize, alloc: &'a bumpalo::Bump) -> (c: Column<'a>)
        ensures
            c matches Column::Int128(v) && v@.len() == length
                && forall|i: int| 0 <= i < length ==> #[trigger] v@[i] == i,
    {
        let mut raw: Vec<i128> = Vec::new();
        let mut i: usize = 0;
        while i < length
            invariant
                i <= length,
                raw@.len() == i,
                forall|k: int| 0 <= k < i ==> #[trigger] raw@[k] == k,
            decreases length - i,
        {
            raw.push(i as i128);
            i = i + 1;
        }
        Column::Int128(alloc_slice_copy(alloc, raw.as_slice()))
    }

    /// A column of `length` copies of a literal, allocated in the arena.
    pub fn from_literal_with_length(literal: &LiteralValue, length: usize, alloc: &'a bumpalo::Bump) -> (c: Column<'a>)
        ensures
            c.repeats_literal(*literal, length as nat),
    {
        match literal {
            LiteralValue::Boolean(b) => Column::Boolean(alloc_slice_fill_copy(alloc, length, *b)),
            LiteralValue::Uint8(b) => Column::Uint8(alloc_slice_fill_copy(alloc, length, *b)),
            LiteralValue::TinyInt(b) => Column::TinyInt(alloc_slice_fill_copy(alloc, length, *b)),
            LiteralValue::SmallInt(b) => Column::SmallInt(alloc_slice_fill_copy(alloc, length, *b)),
            LiteralValue::Int(b) => Column::Int(alloc_slice_fill_copy(alloc, length, *b)),
            LiteralValue::BigInt(b) => Column::BigInt(alloc_slice_fill_copy(alloc, length, *b)),
            LiteralValue::Int128(b) => Column::Int128(alloc_slice_fill_copy(alloc, length, *b)),
            LiteralValue::TimeStampTZ(u, z, b) => Column::TimestampTZ(*u, *z, alloc_slice_fill_copy(alloc, length, *b)),
            LiteralValue::Decimal75(p, s, _) => {
                let v = literal.to_scalar();
                Column::Decimal75(*p, *s, alloc_slice_fill_copy(alloc, length, v))
            },
            LiteralValue::Scalar(_) => {
                let v = literal.to_scalar();
                Column::Scalar(alloc_slice_fill_copy(alloc, length, v))
            },
            LiteralValue::VarChar(s) => {
                let h = literal.to_scalar();
                let st: &'a str = alloc_str(alloc, s.as_str());
                Column::VarChar((alloc_slice_fill_copy(alloc, length, st), alloc_slice_fill_copy(alloc, length, h)))
            },
            LiteralValue::VarBinary(b) => {
                let h = literal.to_scalar();
                let bs: &'a [u8] = alloc_slice_copy(alloc, b.as_slice());
                Column::VarBinary((alloc_slice_fill_copy(alloc, length, bs), alloc_slice_fill_copy(alloc, length, h)))
            },
        }
    }

    /// Whether the column holds the values of an owned column, with its
    /// type; strings and byte strings by their contents.
    pub open spec fn same_values(&self, owned: OwnedColumn) -> bool {
        &&& self.spec_column_type() == owned.spec_column_type()
        &&& self.spec_len() == owned.spec_len()
        &&& match (*self, owned) {
            (Column::Boolean(c), OwnedColumn::Boolean(o)) => c@ == o@,
            (Column::Uint8(c), OwnedColumn::Uint8(o)) => c@ == o@,
            (Column::TinyInt(c), OwnedColumn::TinyInt(o)) => c@ == o@,
            (Column::SmallInt(c), OwnedColumn::SmallInt(o)) => c@ == o@,
            (Column::Int(c), OwnedColumn::Int(o)) => c@ == o@,
            (Column::BigInt(c), OwnedColumn::BigInt(o)) => c@ == o@,
            (Column::Int128(c), OwnedColumn::Int128(o)) => c@ == o@,
            (Column::Decimal75(_, _, c), OwnedColumn::Decimal75(_, _, o)) => c@ == o@,
            (Column::Scalar(c), OwnedColumn::Scalar(o)) => c@ == o@,
            (Column::TimestampTZ(_, _, c), OwnedColumn::TimestampTZ(_, _, o)) => c@ == o@,
            (Column::VarChar((c, _)), OwnedColumn::VarChar(o)) =>
                forall|i: int| 0 <= i < o@.len() ==> (#[trigger] c@[i])@ == o@[i]@,
            (Column::VarBinary((c, _)), OwnedColumn::VarBinary(o)) =>
                forall|i: int| 0 <= i < o@.len() ==> (#[trigger] c@[i])@ == o@[i]@,
            _ => false,
        }
    }

    /// Whether the column borrows an owned column: it holds its values,
    /// and each string or byte string has its hash beside it.
    pub open spec fn borrows(&self, owned: OwnedColumn) -> bool {
        &&& self.same_values(owned)
        &&& self.hashes_aligned()
        &&& match (*self, owned) {
            (Column::VarChar((_, h)), OwnedColumn::VarChar(o)) =>
                forall|i: int| 0 <= i < o@.len() ==> (#[trigger] h@[i])@ == hash_value(encode_utf8(o@[i]@)),
            (Column::VarBinary((_, h)), OwnedColumn::VarBinary(o)) =>
                forall|i: int| 0 <= i < o@.len() ==> (#[trigger] h@[i])@ == hash_value(o@[i]@),
            _ => true,
        }
    }

    /// Borrows an owned column: copies its values into the arena, with the
    /// hash of each string or byte string beside it.
    pub fn from_owned_column(owned: &OwnedColumn, alloc: &'a bumpalo::Bump) -> (c: Column<'a>)
        ensures
            c.borrows(*owned),
    {
        match owned {
            OwnedColumn::Boolean(v) => Column::Boolean(alloc_slice_copy(alloc, v.as_slice())),
            OwnedColumn::Uint8(v) => Column::Uint8(alloc_slice_copy(alloc, v.as_slice())),
            OwnedColumn::TinyInt(v) => Column::TinyInt(alloc_slice_copy(alloc, v.as_slice())),
            OwnedColumn::SmallInt(v) => Column::SmallInt(alloc_slice_copy(alloc, v.as_slice())),
            OwnedColumn::Int(v) => Column::Int(alloc_slice_copy(alloc, v.as_slice())),
            OwnedColumn::BigInt(v) => Column::BigInt(alloc_slice_copy(alloc, v.as_slice())),
            OwnedColumn::Int128(v) => Column::Int128(alloc_slice_copy(alloc, v.as_slice())),
            OwnedColumn::Decimal75(p, s, v) => Column::Decimal75(*p, *s, alloc_slice_copy(alloc, v.as_slice())),
            OwnedColumn::Scalar(v) => Column::Scalar(alloc_slice_copy(alloc, v.as_slice())),
            OwnedColumn::TimestampTZ(u, z, v) => Column::TimestampTZ(*u, *z, alloc_slice_copy(alloc, v.as_slice())),
            OwnedColumn::VarChar(v) => {
                let mut strs: Vec<&'a str> = Vec::new();
                let mut hashes: Vec<Scalar> = Vec::new();
                let mut i: usize = 0;
                while i < v.len()
                    invariant
                        i <= v@.len(),
                        strs@.len() == i,
                        hashes@.len() == i,
                        forall|j: int| 0 <= j < i ==> (#[trigger] strs@[j])@ == v@[j]@,
                        forall|j: int| 0 <= j < i ==> (#[trigger] hashes@[j])@ == hash_value(encode_utf8(v@[j]@)),
                    decreases v@.len() - i,
                {
                    strs.push(alloc_str(alloc, v[i].as_str()));
                    hashes.push(Scalar::from_str_via_hash(v[i].as_str()));
                    i = i + 1;
                }
                Column::VarChar((alloc_slice_copy(alloc, strs.as_slice()), alloc_slice_copy(alloc, hashes.as_slice())))
            },
            OwnedColumn::VarBinary(v) => {
                let mut bytes: Vec<&'a [u8]> = Vec::new();
                let mut hashes: Vec<Scalar> = Vec::new();
                let mut i: usize = 0;
                while i < v.len()
                    invariant
                        i <= v@.len(),
                        bytes@.len() == i,
                        hashes@.len() == i,
                        forall|j: int| 0 <= j < i ==> (#[trigger] bytes@[j])@ == v@[j]@,
                        forall|j: int| 0 <= j < i ==> (#[trigger] hashes@[j])@ == hash_value(v@[j]@),
                    decreases v@.len() - i,
                {
                    bytes.push(alloc_slice_copy(alloc, v[i].as_slice()));
                    let h = Scalar::from_byte_slice_via_hash(v[i].as_slice());
                    hashes.push(h);
                    i = i + 1;
                }
                Column::VarBinary((alloc_slice_copy(alloc, bytes.as_slice()), alloc_slice_copy(alloc, hashes.as_slice())))
            },
        }
    }
}

} // verus!

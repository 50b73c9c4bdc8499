//! Literal values of SQL expressions.
use vstd::prelude::*;
use vstd::utf8::encode_utf8;
use crate::column_type::ColumnType;
use crate::math::{I256, Precision};
use crate::posql_time::{PoSQLTimeUnit, PoSQLTimeZone};
use crate::scalar::{Scalar, field_of, hash_value, limbs_value};

verus! {

/// A literal value of one of the native SQL types.
#[derive(Debug, Eq, PartialEq, Clone)]
#[non_exhaustive]
pub enum LiteralValue {
    /// A boolean.
    Boolean(bool),
    /// A `u8`.
    Uint8(u8),
    /// An `i8`.
    TinyInt(i8),
    /// An `i16`.
    SmallInt(i16),
    /// An `i32`.
    Int(i32),
    /// An `i64`.
    BigInt(i64),
    /// A string; it stands for the hash of its UTF-8 bytes.
    VarChar(String),
    /// A byte string; it stands for the hash of its bytes.
    VarBinary(Vec<u8>),
    /// An `i128`.
    Int128(i128),
    /// A decimal: precision, scale and its digits as an integer.
    Decimal75(Precision, i8, I256),
    /// A field element, as the four little-endian limbs of its canonical form.
    Scalar([u64; 4]),
    /// A timestamp: unit, time zone and count of units since the Unix epoch.
    TimeStampTZ(PoSQLTimeUnit, PoSQLTimeZone, i64),
}

impl LiteralValue {
    /// The type of the value.
    pub open spec fn spec_column_type(&self) -> ColumnType {
        match self {
            LiteralValue::Boolean(_) => ColumnType::Boolean,
            LiteralValue::Uint8(_) => ColumnType::Uint8,
            LiteralValue::TinyInt(_) => ColumnType::TinyInt,
            LiteralValue::SmallInt(_) => ColumnType::SmallInt,
            LiteralValue::Int(_) => ColumnType::Int,
            LiteralValue::BigInt(_) => ColumnType::BigInt,
            LiteralValue::VarChar(_) => ColumnType::VarChar,
            LiteralValue::VarBinary(_) => ColumnType::VarBinary,
            LiteralValue::Int128(_) => ColumnType::Int128,
            LiteralValue::Scalar(_) => ColumnType::Scalar,
            LiteralValue::Decimal75(p, s, _) => ColumnType::Decimal75(*p, *s),
            LiteralValue::TimeStampTZ(u, z, _) => ColumnType::TimestampTZ(*u, *z),
        }
    }

    /// The field element the value stands for: numbers by their residue,
    /// booleans as `0` and `1`, strings and byte strings by their hash, and
    /// field elements by their limbs reduced modulo `L`.
    pub open spec fn spec_field(&self) -> nat {
        match self {
            LiteralValue::Boolean(b) => if *b { 1 } else { 0 },
            LiteralValue::Uint8(i) => field_of(*i as int),
            LiteralValue::TinyInt(i) => field_of(*i as int),
            LiteralValue::SmallInt(i) => field_of(*i as int),
            LiteralValue::Int(i) => field_of(*i as int),
            LiteralValue::BigInt(i) => field_of(*i as int),
            LiteralValue::VarChar(s) => hash_value(encode_utf8(s@)),
            LiteralValue::VarBinary(b) => hash_value(b@),
            LiteralValue::Decimal75(_, _, i) => field_of(i.spec_value()),
            LiteralValue::Int128(i) => field_of(*i as int),
            LiteralValue::Scalar(l) => field_of(limbs_value(*l) as int),
            LiteralValue::TimeStampTZ(_, _, t) => field_of(*t as int),
        }
    }

    /// The type of the value.
    pub fn column_type(&self) -> (t: ColumnType)
        ensures
            t == self.spec_column_type(),
    {
        match self {
            LiteralValue::Boolean(_) => ColumnType::Boolean,
            LiteralValue::Uint8(_) => ColumnType::Uint8,
            LiteralValue::TinyInt(_) => ColumnType::TinyInt,
            LiteralValue::SmallInt(_) => ColumnType::SmallInt,
            LiteralValue::Int(_) => ColumnType::Int,
            LiteralValue::BigInt(_) => ColumnType::BigInt,
            LiteralValue::VarChar(_) => ColumnType::VarChar,
            LiteralValue::VarBinary(_) => ColumnType::VarBinary,
            LiteralValue::Int128(_) => ColumnType::Int128,
            LiteralValue::Scalar(_) => ColumnType::Scalar,
            LiteralValue::Decimal75(p, s, _) => ColumnType::Decimal75(*p, *s),
            LiteralValue::TimeStampTZ(u, z, _) => ColumnType::TimestampTZ(*u, *z),
        }
    }

    /// The field element the value stands for.
    pub fn to_scalar(&self) -> (s: Scalar)
        ensures
            s@ == self.spec_field(),
    {
        match self {
            LiteralValue::Boolean(b) => Scalar::from_bool(*b),
            LiteralValue::Uint8(i) => Scalar::from_i128(*i as i128),
            LiteralValue::TinyInt(i) => Scalar::from_i128(*i as i128),
            LiteralValue::SmallInt(i) => Scalar::from_i128(*i as i128),
            LiteralValue::Int(i) => Scalar::from_i128(*i as i128),
            LiteralValue::BigInt(i) => Scalar::from_i128(*i as i128),
            LiteralValue::VarChar(s) => Scalar::from_str_via_hash(s.as_str()),
            LiteralValue::VarBinary(b) => {
                let s = Scalar::from_byte_slice_via_hash(b.as_slice());
                proof {
                    if b@.len() > 0 {
                        assert(s@ == hash_value(b@));
                    }
                }
                s
            },
            LiteralValue::Decimal75(_, _, i) => i.into_scalar(),
            LiteralValue::Int128(i) => Scalar::from_i128(*i),
            LiteralValue::Scalar(l) => Scalar::from_limbs(*l),
            LiteralValue::TimeStampTZ(_, _, t) => Scalar::from_i128(*t as i128),
        }
    }
}

} // verus!

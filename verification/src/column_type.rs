//! The types a column can have, and what each type's values look like.
use vstd::prelude::*;
use crate::math::{Precision, MAX_SUPPORTED_PRECISION};
use crate::posql_time::{PoSQLTimeUnit, PoSQLTimeZone};
use crate::text::{push, string_of, u64_to_string, i128_to_string, nat_digits, int_digits};

verus! {

/// The type of a column.
#[derive(Debug, Clone, Copy, PartialEq, Eq, Hash, Structural)]
pub enum ColumnType {
    /// `bool` values.
    Boolean,
    /// `u8` values.
    Uint8,
    /// `i8` values.
    TinyInt,
    /// `i16` values.
    SmallInt,
    /// `i32` values.
    Int,
    /// `i64` values.
    BigInt,
    /// `i128` values.
    Int128,
    /// Decimals with a precision and a scale, stored as scalars.
    Decimal75(Precision, i8),
    /// Strings.
    VarChar,
    /// Timestamps of a unit and a time zone, stored as `i64` counts of the unit.
    TimestampTZ(PoSQLTimeUnit, PoSQLTimeZone),
    /// Field elements.
    Scalar,
    /// Byte strings.
    VarBinary,
}

/// The width in bits of an integer type, when the type is one.
pub open spec fn spec_integer_bits(t: ColumnType) -> Option<nat> {
    match t {
        ColumnType::Uint8 | ColumnType::TinyInt => Some(8),
        ColumnType::SmallInt => Some(16),
        ColumnType::Int => Some(32),
        ColumnType::BigInt => Some(64),
        ColumnType::Int128 => Some(128),
        _ => None,
    }
}

/// The signed integer type of a width.
pub open spec fn spec_signed_of_bits(bits: nat) -> Option<ColumnType> {
    if bits == 8 {
        Some(ColumnType::TinyInt)
    } else if bits == 16 {
        Some(ColumnType::SmallInt)
    } else if bits == 32 {
        Some(ColumnType::Int)
    } else if bits == 64 {
        Some(ColumnType::BigInt)
    } else if bits == 128 {
        Some(ColumnType::Int128)
    } else {
        None
    }
}

/// The smallest and largest value of an integer type.
pub open spec fn spec_integer_range(t: ColumnType) -> (int, int) {
    match t {
        ColumnType::Uint8 => (0, 255),
        ColumnType::TinyInt => (-128, 127),
        ColumnType::SmallInt => (-32768, 32767),
        ColumnType::Int => (i32::MIN as int, i32::MAX as int),
        ColumnType::BigInt => (i64::MIN as int, i64::MAX as int),
        _ => (i128::MIN as int, i128::MAX as int),
    }
}

impl ColumnType {
    /// Integer, decimal and scalar types.
    pub open spec fn spec_is_numeric(self) -> bool {
        match self {
            ColumnType::Uint8 | ColumnType::TinyInt | ColumnType::SmallInt | ColumnType::Int
            | ColumnType::BigInt | ColumnType::Int128 | ColumnType::Scalar
            | ColumnType::Decimal75(_, _) => true,
            _ => false,
        }
    }

    /// The six integer types.
    pub open spec fn spec_is_integer(self) -> bool {
        spec_integer_bits(self) is Some
    }

    /// The signed integer types and timestamps.
    pub open spec fn spec_is_signed(self) -> bool {
        match self {
            ColumnType::TinyInt | ColumnType::SmallInt | ColumnType::Int | ColumnType::BigInt
            | ColumnType::Int128 | ColumnType::TimestampTZ(_, _) => true,
            _ => false,
        }
    }

    /// The number of decimal digits a value of the type may need.
    pub open spec fn spec_precision_value(self) -> Option<u8> {
        match self {
            ColumnType::Uint8 | ColumnType::TinyInt => Some(3),
            ColumnType::SmallInt => Some(5),
            ColumnType::Int => Some(10),
            ColumnType::BigInt | ColumnType::TimestampTZ(_, _) => Some(19),
            ColumnType::Int128 => Some(39),
            ColumnType::Decimal75(p, _) => Some(p.spec_value()),
            ColumnType::Scalar => Some(0),
            _ => None,
        }
    }

    /// The number of digits after the decimal point.
    pub open spec fn spec_scale(self) -> Option<i8> {
        match self {
            ColumnType::Decimal75(_, s) => Some(s),
            ColumnType::TimestampTZ(u, _) => Some(u.spec_precision()),
            ColumnType::Uint8 | ColumnType::TinyInt | ColumnType::SmallInt | ColumnType::Int
            | ColumnType::BigInt | ColumnType::Int128 | ColumnType::Scalar => Some(0),
            _ => None,
        }
    }

    /// The number of bytes a value of the type takes.
    pub open spec fn spec_byte_size(self) -> usize {
        match self {
            ColumnType::Boolean | ColumnType::Uint8 | ColumnType::TinyInt => 1,
            ColumnType::SmallInt => 2,
            ColumnType::Int => 4,
            ColumnType::BigInt | ColumnType::TimestampTZ(_, _) => 8,
            ColumnType::Int128 => 16,
            _ => 32,
        }
    }

    /// The larger of two integer types, as a signed type.
    pub open spec fn spec_max_integer_type(self, other: Self) -> Option<Self> {
        match (spec_integer_bits(self), spec_integer_bits(other)) {
            (Some(a), Some(b)) => spec_signed_of_bits(if a >= b { a } else { b }),
            _ => None,
        }
    }

    /// `Uint8` when both types are integer types of 8 bits.
    pub open spec fn spec_max_unsigned_integer_type(self, other: Self) -> Option<Self> {
        match (spec_integer_bits(self), spec_integer_bits(other)) {
            (Some(a), Some(b)) => if a == 8 && b == 8 { Some(ColumnType::Uint8) } else { None },
            _ => None,
        }
    }

    /// Whether the type is numeric: an integer, decimal or scalar type.
    pub fn is_numeric(&self) -> (b: bool)
        ensures
            b == self.spec_is_numeric(),
    {
        match self {
            ColumnType::Uint8 | ColumnType::TinyInt | ColumnType::SmallInt | ColumnType::Int
            | ColumnType::BigInt | ColumnType::Int128 | ColumnType::Scalar
            | ColumnType::Decimal75(_, _) => true,
            _ => false,
        }
    }

    /// Whether the type is one of the six integer types.
    pub fn is_integer(&self) -> (b: bool)
        ensures
            b == self.spec_is_integer(),
    {
        match self {
            ColumnType::Uint8 | ColumnType::TinyInt | ColumnType::SmallInt | ColumnType::Int
            | ColumnType::BigInt | ColumnType::Int128 => true,
            _ => false,
        }
    }

    /// Whether the type's values carry a sign.
    pub fn is_signed(&self) -> (b: bool)
        ensures
            b == self.spec_is_signed(),
    {
        match self {
            ColumnType::TinyInt | ColumnType::SmallInt | ColumnType::Int | ColumnType::BigInt
            | ColumnType::Int128 | ColumnType::TimestampTZ(_, _) => true,
            _ => false,
        }
    }

    /// The width in bits of an integer type.
    pub fn to_integer_bits(&self) -> (b: Option<usize>)
        ensures
            match b {
                Some(n) => spec_integer_bits(*self) == Some(n as nat),
                None => spec_integer_bits(*self) is None,
            },
    {
        match self {
            ColumnType::Uint8 | ColumnType::TinyInt => Some(8),
            ColumnType::SmallInt => Some(16),
            ColumnType::Int => Some(32),
            ColumnType::BigInt => Some(64),
            ColumnType::Int128 => Some(128),
            _ => None,
        }
    }

    /// The signed integer type of `bits` bits, if there is one.
    pub fn from_signed_integer_bits(bits: usize) -> (t: Option<ColumnType>)
        ensures
            t == spec_signed_of_bits(bits as nat),
    {
        if bits == 8 {
            Some(ColumnType::TinyInt)
        } else if bits == 16 {
            Some(ColumnType::SmallInt)
        } else if bits == 32 {
            Some(ColumnType::Int)
        } else if bits == 64 {
            Some(ColumnType::BigInt)
        } else if bits == 128 {
            Some(ColumnType::Int128)
        } else {
            None
        }
    }

    /// The unsigned integer type of `bits` bits, if there is one.
    pub fn from_unsigned_integer_bits(bits: usize) -> (t: Option<ColumnType>)
        ensures
            t == (if bits == 8 { Some(ColumnType::Uint8) } else { None }),
    {
        if bits == 8 {
            Some(ColumnType::Uint8)
        } else {
            None
        }
    }

    /// The signed integer type as wide as the wider of two integer types;
    /// `None` unless both are integer types.
    pub fn max_integer_type(&self, other: &Self) -> (t: Option<Self>)
        ensures
            t == self.spec_max_integer_type(*other),
    {
        match (self.to_integer_bits(), other.to_integer_bits()) {
            (Some(a), Some(b)) => Self::from_signed_integer_bits(if a >= b { a } else { b }),
            _ => None,
        }
    }

    /// `Uint8` when both types are 8-bit integer types; `None` otherwise.
    pub fn max_unsigned_integer_type(&self, other: &Self) -> (t: Option<Self>)
        ensures
            t == self.spec_max_unsigned_integer_type(*other),
    {
        match (self.to_integer_bits(), other.to_integer_bits()) {
            (Some(a), Some(b)) => Self::from_unsigned_integer_bits(if a >= b { a } else { b }),
            _ => None,
        }
    }

    /// The number of decimal digits a value of the type may need; `None` for
    /// booleans, strings and byte strings.
    pub fn precision_value(&self) -> (p: Option<u8>)
        ensures
            p == self.spec_precision_value(),
            p matches Some(v) ==> v <= MAX_SUPPORTED_PRECISION,
    {
        match self {
            ColumnType::Uint8 | ColumnType::TinyInt => Some(3),
            ColumnType::SmallInt => Some(5),
            ColumnType::Int => Some(10),
            ColumnType::BigInt | ColumnType::TimestampTZ(_, _) => Some(19),
            ColumnType::Int128 => Some(39),
            ColumnType::Decimal75(p, _) => Some(p.value()),
            ColumnType::Scalar => Some(0),
            _ => None,
        }
    }

    /// The number of digits after the decimal point; `None` for booleans,
    /// strings and byte strings.
    pub fn scale(&self) -> (s: Option<i8>)
        ensures
            s == self.spec_scale(),
    {
        match self {
            ColumnType::Decimal75(_, s) => Some(*s),
            ColumnType::TimestampTZ(u, _) => Some(u.precision()),
            ColumnType::Uint8 | ColumnType::TinyInt | ColumnType::SmallInt | ColumnType::Int
            | ColumnType::BigInt | ColumnType::Int128 | ColumnType::Scalar => Some(0),
            _ => None,
        }
    }

    /// The number of bytes a value of the type takes.
    pub fn byte_size(&self) -> (n: usize)
        ensures
            n == self.spec_byte_size(),
    {
        match self {
            ColumnType::Boolean | ColumnType::Uint8 | ColumnType::TinyInt => 1,
            ColumnType::SmallInt => 2,
            ColumnType::Int => 4,
            ColumnType::BigInt | ColumnType::TimestampTZ(_, _) => 8,
            ColumnType::Int128 => 16,
            _ => 32,
        }
    }

    /// The number of bits a value of the type takes: eight per byte.
    pub fn bit_size(&self) -> (n: u32)
        ensures
            n == 8 * self.spec_byte_size(),
    {
        let b = self.byte_size();
        (b as u32) * 8
    }

    /// The type as it is shown, e.g. `BIGINT` or
    /// `DECIMAL75(PRECISION: 38, SCALE: 10)`.
    pub open spec fn spec_display(self) -> Seq<char> {
        match self {
            ColumnType::Boolean => "BOOLEAN"@,
            ColumnType::Uint8 => "UINT8"@,
            ColumnType::TinyInt => "TINYINT"@,
            ColumnType::SmallInt => "SMALLINT"@,
            ColumnType::Int => "INT"@,
            ColumnType::BigInt => "BIGINT"@,
            ColumnType::Int128 => "DECIMAL"@,
            ColumnType::VarChar => "VARCHAR"@,
            ColumnType::VarBinary => "BINARY"@,
            ColumnType::Scalar => "SCALAR"@,
            ColumnType::Decimal75(p, s) => "DECIMAL75(PRECISION: "@ + nat_digits(p.spec_value() as nat)
                + ", SCALE: "@ + int_digits(s as int) + ")"@,
            ColumnType::TimestampTZ(u, z) => "TIMESTAMP(TIMEUNIT: "@ + u.spec_display()
                + ", TIMEZONE: "@ + z.spec_display() + ")"@,
        }
    }

    /// The type as it is shown, e.g. `BIGINT` or
    /// `DECIMAL75(PRECISION: 38, SCALE: 10)`.
    pub fn to_string(&self) -> (s: String)
        ensures
            s@ == self.spec_display(),
    {
        match self {
            ColumnType::Boolean => string_of("BOOLEAN"),
            ColumnType::Uint8 => string_of("UINT8"),
            ColumnType::TinyInt => string_of("TINYINT"),
            ColumnType::SmallInt => string_of("SMALLINT"),
            ColumnType::Int => string_of("INT"),
            ColumnType::BigInt => string_of("BIGINT"),
            ColumnType::Int128 => string_of("DECIMAL"),
            ColumnType::VarChar => string_of("VARCHAR"),
            ColumnType::VarBinary => string_of("BINARY"),
            ColumnType::Scalar => string_of("SCALAR"),
            ColumnType::Decimal75(p, sc) => {
                let mut s = string_of("DECIMAL75(PRECISION: ");
                let ps = u64_to_string(p.value() as u64);
                push(&mut s, ps.as_str());
                push(&mut s, ", SCALE: ");
                let ss = i128_to_string(*sc as i128);
                push(&mut s, ss.as_str());
                push(&mut s, ")");
                s
            },
            ColumnType::TimestampTZ(u, z) => {
                let mut s = string_of("TIMESTAMP(TIMEUNIT: ");
                let us = u.to_string();
                push(&mut s, us.as_str());
                push(&mut s, ", TIMEZONE: ");
                let zs = z.to_string();
                push(&mut s, zs.as_str());
                push(&mut s, ")");
                s
            },
        }
    }

    /// The type's variant name as `Debug` shows it, e.g. `BigInt`.
    pub open spec fn spec_debug_name(self) -> Seq<char> {
        match self {
            ColumnType::Boolean => "Boolean"@,
            ColumnType::Uint8 => "Uint8"@,
            ColumnType::TinyInt => "TinyInt"@,
            ColumnType::SmallInt => "SmallInt"@,
            ColumnType::Int => "Int"@,
            ColumnType::BigInt => "BigInt"@,
            ColumnType::Int128 => "Int128"@,
            ColumnType::VarChar => "VarChar"@,
            ColumnType::VarBinary => "VarBinary"@,
            ColumnType::Scalar => "Scalar"@,
            ColumnType::Decimal75(p, s) => "Decimal75(Precision("@ + nat_digits(p.spec_value() as nat)
                + "), "@ + int_digits(s as int) + ")"@,
            ColumnType::TimestampTZ(_, _) => "TimestampTZ"@,
        }
    }

    /// The type as `Debug` names it: the variant, with a decimal's precision
    /// and scale, e.g. `BigInt` or `Decimal75(Precision(10), 2)`.
    pub fn debug_name(&self) -> (s: String)
        ensures
            s@ == self.spec_debug_name(),
    {
        match self {
            ColumnType::Boolean => string_of("Boolean"),
            ColumnType::Uint8 => string_of("Uint8"),
            ColumnType::TinyInt => string_of("TinyInt"),
            ColumnType::SmallInt => string_of("SmallInt"),
            ColumnType::Int => string_of("Int"),
            ColumnType::BigInt => string_of("BigInt"),
            ColumnType::Int128 => string_of("Int128"),
            ColumnType::VarChar => string_of("VarChar"),
            ColumnType::VarBinary => string_of("VarBinary"),
            ColumnType::Scalar => string_of("Scalar"),
            ColumnType::Decimal75(p, sc) => {
                let mut s = string_of("Decimal75(Precision(");
                let ps = u64_to_string(p.value() as u64);
                push(&mut s, ps.as_str());
                push(&mut s, "), ");
                let ss = i128_to_string(*sc as i128);
                push(&mut s, ss.as_str());
                push(&mut s, ")");
                s
            },
            ColumnType::TimestampTZ(_, _) => string_of("TimestampTZ"),
        }
    }
}

} // verus!

use proof_of_sql_db::column_type::ColumnType;
use proof_of_sql_db::math::Precision;
use proof_of_sql_db::posql_time::{PoSQLTimeUnit, PoSQLTimeZone};

#[test]
fn test_column_type_is_numeric() {
    assert!(ColumnType::Uint8.is_numeric());
    assert!(ColumnType::TinyInt.is_numeric());
    assert!(!ColumnType::Boolean.is_numeric());
    assert!(!ColumnType::VarChar.is_numeric());
}

#[test]
fn test_column_type_is_integer() {
    assert!(ColumnType::TinyInt.is_integer());
    assert!(ColumnType::Int.is_integer());
    assert!(ColumnType::BigInt.is_integer());
    assert!(!ColumnType::VarChar.is_integer());
}

#[test]
fn is_numeric_returns_false_for_non_numeric_types() {
    assert!(!ColumnType::Boolean.is_numeric());
    assert!(!ColumnType::VarChar.is_numeric());
    assert!(!ColumnType::VarBinary.is_numeric());
    assert!(!ColumnType::TimestampTZ(PoSQLTimeUnit::Second, PoSQLTimeZone::utc()).is_numeric());
}

#[test]
fn is_integer_returns_true_for_integer_types() {
    assert!(ColumnType::Uint8.is_integer());
    assert!(ColumnType::TinyInt.is_integer());
    assert!(ColumnType::SmallInt.is_integer());
    assert!(ColumnType::Int.is_integer());
    assert!(ColumnType::BigInt.is_integer());
    assert!(ColumnType::Int128.is_integer());
}

#[test]
fn is_signed_returns_true_for_signed_types() {
    assert!(ColumnType::TinyInt.is_signed());
    assert!(ColumnType::SmallInt.is_signed());
    assert!(ColumnType::Int.is_signed());
    assert!(ColumnType::BigInt.is_signed());
    assert!(ColumnType::Int128.is_signed());
    assert!(ColumnType::TimestampTZ(PoSQLTimeUnit::Second, PoSQLTimeZone::utc()).is_signed());
}

#[test]
fn max_integer_type_returns_larger_of_two_integers() {
    assert_eq!(ColumnType::TinyInt.max_integer_type(&ColumnType::BigInt), Some(ColumnType::BigInt));
    assert_eq!(ColumnType::Int128.max_integer_type(&ColumnType::SmallInt), Some(ColumnType::Int128));
    assert_eq!(ColumnType::Int.max_integer_type(&ColumnType::Int), Some(ColumnType::Int));
    assert_eq!(ColumnType::Uint8.max_integer_type(&ColumnType::TinyInt), Some(ColumnType::TinyInt));
    assert_eq!(ColumnType::Uint8.max_integer_type(&ColumnType::BigInt), Some(ColumnType::BigInt));
}

#[test]
fn max_unsigned_integer_type_returns_uint8_only_for_8_bit_types() {
    assert_eq!(ColumnType::Uint8.max_unsigned_integer_type(&ColumnType::Uint8), Some(ColumnType::Uint8));
    assert_eq!(ColumnType::Uint8.max_unsigned_integer_type(&ColumnType::TinyInt), Some(ColumnType::Uint8));
    assert_eq!(ColumnType::TinyInt.max_unsigned_integer_type(&ColumnType::TinyInt), Some(ColumnType::Uint8));
}

#[test]
fn max_unsigned_integer_type_returns_none_for_larger_than_8_bits() {
    assert_eq!(ColumnType::Uint8.max_unsigned_integer_type(&ColumnType::SmallInt), None);
    assert_eq!(ColumnType::Int.max_unsigned_integer_type(&ColumnType::BigInt), None);
}

#[test]
fn max_unsigned_integer_type_returns_none_for_non_integer() {
    assert_eq!(ColumnType::VarChar.max_unsigned_integer_type(&ColumnType::Int), None);
    assert_eq!(ColumnType::Int.max_unsigned_integer_type(&ColumnType::Boolean), None);
}

#[test]
fn precision_value_returns_none_for_non_numeric_types() {
    assert_eq!(ColumnType::Boolean.precision_value(), None);
    assert_eq!(ColumnType::VarChar.precision_value(), None);
    assert_eq!(ColumnType::VarBinary.precision_value(), None);
}

#[test]
fn scale_returns_correct_values_for_timestamp_units() {
    assert_eq!(ColumnType::TimestampTZ(PoSQLTimeUnit::Second, PoSQLTimeZone::utc()).scale(), Some(0));
    assert_eq!(ColumnType::TimestampTZ(PoSQLTimeUnit::Millisecond, PoSQLTimeZone::utc()).scale(), Some(3));
    assert_eq!(ColumnType::TimestampTZ(PoSQLTimeUnit::Microsecond, PoSQLTimeZone::utc()).scale(), Some(6));
    assert_eq!(ColumnType::TimestampTZ(PoSQLTimeUnit::Nanosecond, PoSQLTimeZone::utc()).scale(), Some(9));
}

#[test]
fn scale_returns_none_for_non_numeric_types() {
    assert_eq!(ColumnType::Boolean.scale(), None);
    assert_eq!(ColumnType::VarChar.scale(), None);
    assert_eq!(ColumnType::VarBinary.scale(), None);
}

#[test]
fn precision_value_returns_correct_values() {
    assert_eq!(ColumnType::Uint8.precision_value(), Some(3));
    assert_eq!(ColumnType::SmallInt.precision_value(), Some(5));
    assert_eq!(ColumnType::Int.precision_value(), Some(10));
    assert_eq!(ColumnType::BigInt.precision_value(), Some(19));
    assert_eq!(ColumnType::Int128.precision_value(), Some(39));
    assert_eq!(ColumnType::Scalar.precision_value(), Some(0));
    assert_eq!(ColumnType::Decimal75(Precision::new(42).unwrap(), 7).precision_value(), Some(42));
}

#[test]
fn byte_size_returns_correct_sizes() {
    assert_eq!(ColumnType::Boolean.byte_size(), 1);
    assert_eq!(ColumnType::SmallInt.byte_size(), 2);
    assert_eq!(ColumnType::Int.byte_size(), 4);
    assert_eq!(ColumnType::BigInt.byte_size(), 8);
    assert_eq!(ColumnType::Int128.byte_size(), 16);
    assert_eq!(ColumnType::Scalar.byte_size(), 32);
    assert_eq!(ColumnType::Int128.bit_size(), 128);
}

#[test]
fn we_can_display_all_column_types() {
    assert_eq!(ColumnType::Boolean.to_string(), "BOOLEAN");
    assert_eq!(ColumnType::Uint8.to_string(), "UINT8");
    assert_eq!(ColumnType::BigInt.to_string(), "BIGINT");
    assert_eq!(ColumnType::VarBinary.to_string(), "BINARY");
    let decimal = ColumnType::Decimal75(Precision::new(38).unwrap(), 10);
    assert_eq!(decimal.to_string(), "DECIMAL75(PRECISION: 38, SCALE: 10)");
    let timestamp_ms = ColumnType::TimestampTZ(PoSQLTimeUnit::Millisecond, PoSQLTimeZone::new(3600));
    assert_eq!(
        timestamp_ms.to_string(),
        "TIMESTAMP(TIMEUNIT: milliseconds (precision: 3), TIMEZONE: +01:00)"
    );
}

#[test]
fn precision_refuses_zero_and_values_above_seventy_five() {
    assert!(Precision::new(0).is_err());
    assert!(Precision::new(76).is_err());
    assert_eq!(Precision::new(75).unwrap().value(), 75);
    assert_eq!(Precision::new(1).unwrap().value(), 1);
}

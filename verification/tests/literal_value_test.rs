use proof_of_sql_db::column::Column;
use proof_of_sql_db::column_type::ColumnType;
use proof_of_sql_db::columnar_value::{ColumnarValue, ColumnarValueError};
use proof_of_sql_db::literal_value::LiteralValue;
use proof_of_sql_db::math::{I256, Precision};
use proof_of_sql_db::posql_time::{PoSQLTimeUnit, PoSQLTimeZone};
use proof_of_sql_db::scalar::Scalar;

#[test]
fn test_boolean_literal_value() {
    let true_val = LiteralValue::Boolean(true);
    let false_val = LiteralValue::Boolean(false);
    assert_eq!(true_val.column_type(), ColumnType::Boolean);
    assert_eq!(false_val.column_type(), ColumnType::Boolean);
    let true_scalar = true_val.to_scalar();
    let false_scalar = false_val.to_scalar();
    assert_ne!(true_scalar, false_scalar);
}

#[test]
fn test_varchar_literal_value() {
    let varchar_val = LiteralValue::VarChar("test string".to_string());
    assert_eq!(varchar_val.column_type(), ColumnType::VarChar);
    let varchar_scalar = varchar_val.to_scalar();
    let varchar_scalar2 = LiteralValue::VarChar("test string".to_string()).to_scalar();
    let different_varchar_scalar = LiteralValue::VarChar("different string".to_string()).to_scalar();
    assert_eq!(varchar_scalar, varchar_scalar2);
    assert_ne!(varchar_scalar, different_varchar_scalar);
}

#[test]
fn test_varbinary_literal_value() {
    let varbinary_val = LiteralValue::VarBinary(vec![1, 2, 3, 4, 5]);
    assert_eq!(varbinary_val.column_type(), ColumnType::VarBinary);
    let varbinary_scalar = varbinary_val.to_scalar();
    let varbinary_scalar2 = LiteralValue::VarBinary(vec![1, 2, 3, 4, 5]).to_scalar();
    let different_varbinary_scalar = LiteralValue::VarBinary(vec![5, 4, 3, 2, 1]).to_scalar();
    assert_eq!(varbinary_scalar, varbinary_scalar2);
    assert_ne!(varbinary_scalar, different_varbinary_scalar);
}

#[test]
fn test_scalar_literal_value() {
    let limbs = [1, 2, 3, 4];
    let scalar_val = LiteralValue::Scalar(limbs);
    assert_eq!(scalar_val.column_type(), ColumnType::Scalar);
    let scalar_result = scalar_val.to_scalar();
    let scalar_result2 = LiteralValue::Scalar(limbs).to_scalar();
    assert_eq!(scalar_result, scalar_result2);
}

#[test]
fn test_timestamp_literal_value() {
    let unit = PoSQLTimeUnit::Millisecond;
    let timezone = PoSQLTimeZone::utc();
    let timestamp = 1_234_567_890_123;
    let timestamp_val = LiteralValue::TimeStampTZ(unit, timezone, timestamp);
    assert_eq!(timestamp_val.column_type(), ColumnType::TimestampTZ(unit, timezone));
    let timestamp_scalar = timestamp_val.to_scalar();
    let timestamp_scalar2 = LiteralValue::TimeStampTZ(unit, timezone, timestamp).to_scalar();
    assert_eq!(timestamp_scalar, timestamp_scalar2);
}

#[test]
fn test_literal_value_equality() {
    let val1 = LiteralValue::Int(42);
    let val2 = LiteralValue::Int(42);
    let val3 = LiteralValue::Int(43);
    assert_eq!(val1, val2);
    assert_ne!(val1, val3);
    let val4 = LiteralValue::VarChar("hello".to_string());
    let val5 = LiteralValue::VarChar("hello".to_string());
    let val6 = LiteralValue::VarChar("world".to_string());
    assert_eq!(val4, val5);
    assert_ne!(val4, val6);
}

#[test]
fn test_literal_value_debug() {
    let value = LiteralValue::Int(42);
    let debug_str = format!("{value:?}");
    assert!(debug_str.contains("Int"));
    assert!(debug_str.contains("42"));
}

#[test]
fn test_edge_case_values() {
    let values = [
        LiteralValue::Uint8(u8::MAX),
        LiteralValue::TinyInt(i8::MIN),
        LiteralValue::TinyInt(i8::MAX),
        LiteralValue::SmallInt(i16::MIN),
        LiteralValue::SmallInt(i16::MAX),
        LiteralValue::Int(i32::MIN),
        LiteralValue::Int(i32::MAX),
        LiteralValue::BigInt(i64::MIN),
        LiteralValue::BigInt(i64::MAX),
    ];
    for v in values {
        let _ = v.to_scalar();
    }
}

#[test]
fn to_scalar_boolean_false() {
    let lit = LiteralValue::Boolean(false);
    assert_eq!(lit.to_scalar(), Scalar::zero());
}

#[test]
fn to_scalar_boolean_true() {
    let lit = LiteralValue::Boolean(true);
    assert_eq!(lit.to_scalar(), Scalar::one());
}

#[test]
fn to_scalar_varbinary_empty() {
    let lit = LiteralValue::VarBinary(vec![]);
    assert_eq!(lit.to_scalar(), Scalar::from_byte_slice_via_hash(&[]));
}

#[test]
fn to_scalar_of_integers_is_their_residue() {
    assert_eq!(LiteralValue::TinyInt(-42).to_scalar(), Scalar::from_i128(-42));
    assert_eq!(LiteralValue::Int128(i128::MIN).to_scalar(), Scalar::from_i128(i128::MIN));
    assert_eq!(LiteralValue::Scalar([5, 0, 0, 0]).to_scalar(), Scalar::from_u128(5));
    assert_eq!(
        LiteralValue::Decimal75(Precision::new(10).unwrap(), 2, I256::from_i128(-12345)).to_scalar(),
        Scalar::from_i128(-12345)
    );
}

#[test]
fn to_scalar_of_varchar_is_the_hash_of_its_bytes() {
    assert_eq!(LiteralValue::VarChar("hello".to_string()).to_scalar(), Scalar::from_str_via_hash("hello"));
    assert_eq!(LiteralValue::VarChar(String::new()).to_scalar(), Scalar::zero());
}

#[test]
fn we_can_get_column_type_of_columnar_values() {
    let column = ColumnarValue::Column(Column::Int(&[1, 2, 3]));
    assert_eq!(column.column_type(), ColumnType::Int);
    let column = ColumnarValue::Literal(LiteralValue::Boolean(true));
    assert_eq!(column.column_type(), ColumnType::Boolean);
}

#[test]
fn we_can_transform_columnar_values_into_columns() {
    let bump = bumpalo::Bump::new();
    let columnar_value = ColumnarValue::Column(Column::Int(&[1, 2, 3]));
    assert_eq!(columnar_value.into_column(3, &bump).unwrap(), Column::Int(&[1, 2, 3]));
    let columnar_value = ColumnarValue::Literal(LiteralValue::Boolean(false));
    assert_eq!(columnar_value.into_column(5, &bump).unwrap(), Column::Boolean(&[false; 5]));
    let columnar_value = ColumnarValue::Literal(LiteralValue::TinyInt(2));
    assert_eq!(columnar_value.into_column(0, &bump).unwrap(), Column::TinyInt(&[]));
    let columnar_value = ColumnarValue::Column(Column::Int(&[1, 2, 3]));
    assert_eq!(
        columnar_value.into_column(2, &bump),
        Err(ColumnarValueError::ColumnLengthMismatch { columnar_value_length: 3, attempt_to_convert_length: 2 })
    );
}

#[test]
fn columnar_value_error_display_messages() {
    let err = ColumnarValueError::ColumnLengthMismatch { columnar_value_length: 10, attempt_to_convert_length: 5 };
    assert!(err.to_string().contains("10") && err.to_string().contains("5"));
}

#[test]
fn columnar_value_error_debug_formatting() {
    let err = ColumnarValueError::ColumnLengthMismatch { columnar_value_length: 8, attempt_to_convert_length: 3 };
    assert!(format!("{:?}", err).contains("ColumnLengthMismatch"));
}

#[test]
fn columnar_value_error_equality() {
    let err1 = ColumnarValueError::ColumnLengthMismatch { columnar_value_length: 5, attempt_to_convert_length: 5 };
    let err2 = ColumnarValueError::ColumnLengthMismatch { columnar_value_length: 5, attempt_to_convert_length: 5 };
    let err3 = ColumnarValueError::ColumnLengthMismatch { columnar_value_length: 10, attempt_to_convert_length: 5 };
    assert_eq!(err1, err2);
    assert_ne!(err1, err3);
}
#[test]
fn to_scalar_uint8() {
    let lit = LiteralValue::Uint8(255);
    let s: Scalar = lit.to_scalar();
    assert_eq!(s, Scalar::from_i128((255u8) as i128));
}

#[test]
fn to_scalar_tinyint() {
    let lit = LiteralValue::TinyInt(-42);
    let s: Scalar = lit.to_scalar();
    assert_eq!(s, Scalar::from_i128((-42i8) as i128));
}

#[test]
fn to_scalar_smallint() {
    let lit = LiteralValue::SmallInt(1000);
    let s: Scalar = lit.to_scalar();
    assert_eq!(s, Scalar::from_i128((1000i16) as i128));
}

#[test]
fn to_scalar_int() {
    let lit = LiteralValue::Int(-999_999);
    let s: Scalar = lit.to_scalar();
    assert_eq!(s, Scalar::from_i128((-999_999i32) as i128));
}

#[test]
fn to_scalar_bigint() {
    let lit = LiteralValue::BigInt(i64::MAX);
    let s: Scalar = lit.to_scalar();
    assert_eq!(s, Scalar::from_i128((i64::MAX) as i128));
}

#[test]
fn to_scalar_int128() {
    let lit = LiteralValue::Int128(i128::MIN);
    let s: Scalar = lit.to_scalar();
    assert_eq!(s, Scalar::from_i128((i128::MIN) as i128));
}

#[test]
fn to_scalar_varchar() {
    let lit = LiteralValue::VarChar("hello".to_string());
    let s: Scalar = lit.to_scalar();
    assert_eq!(s, Scalar::from_str_via_hash("hello"));
}

#[test]
fn to_scalar_varchar_empty() {
    let lit = LiteralValue::VarChar(String::new());
    let s: Scalar = lit.to_scalar();
    assert_eq!(s, Scalar::from_str_via_hash(""));
}

#[test]
fn to_scalar_decimal75() {
    let value = I256::from_i128(12345);
    let lit = LiteralValue::Decimal75(Precision::new(10).unwrap(), 2, value);
    let s: Scalar = lit.to_scalar();
    assert_eq!(s, value.into_scalar());
}

#[test]
fn to_scalar_timestamp_tz() {
    let lit = LiteralValue::TimeStampTZ(PoSQLTimeUnit::Second, PoSQLTimeZone::utc(), 1_000_000);
    let s: Scalar = lit.to_scalar();
    assert_eq!(s, Scalar::from_i128((1_000_000i64) as i128));
}

#[test]
fn to_scalar_scalar() {
    let limbs: [u64; 4] = [1, 2, 3, 4];
    let lit = LiteralValue::Scalar(limbs);
    let s: Scalar = lit.to_scalar();
    assert_eq!(s, Scalar::from_limbs(limbs));
}

#[test]
fn to_scalar_varbinary() {
    let data = vec![0xDE, 0xAD, 0xBE, 0xEF];
    let lit = LiteralValue::VarBinary(data.clone());
    let s: Scalar = lit.to_scalar();
    assert_eq!(s, Scalar::from_byte_slice_via_hash(&data));
}

#[test]
fn column_type_matches_for_all_variants() {

    assert_eq!(LiteralValue::Boolean(true).column_type(), ColumnType::Boolean);
    assert_eq!(LiteralValue::Uint8(0).column_type(), ColumnType::Uint8);
    assert_eq!(LiteralValue::TinyInt(0).column_type(), ColumnType::TinyInt);
    assert_eq!(LiteralValue::SmallInt(0).column_type(), ColumnType::SmallInt);
    assert_eq!(LiteralValue::Int(0).column_type(), ColumnType::Int);
    assert_eq!(LiteralValue::BigInt(0).column_type(), ColumnType::BigInt);
    assert_eq!(LiteralValue::Int128(0).column_type(), ColumnType::Int128);
    assert_eq!(
        LiteralValue::VarChar("x".to_string()).column_type(),
        ColumnType::VarChar
    );
    assert_eq!(
        LiteralValue::VarBinary(vec![1]).column_type(),
        ColumnType::VarBinary
    );
    assert_eq!(LiteralValue::Scalar([0; 4]).column_type(), ColumnType::Scalar);

    let p = Precision::new(20).unwrap();
    assert_eq!(
        LiteralValue::Decimal75(p, 5, I256::from_i128(0)).column_type(),
        ColumnType::Decimal75(p, 5)
    );

    assert_eq!(
        LiteralValue::TimeStampTZ(PoSQLTimeUnit::Nanosecond, PoSQLTimeZone::utc(), 0)
            .column_type(),
        ColumnType::TimestampTZ(PoSQLTimeUnit::Nanosecond, PoSQLTimeZone::utc())
    );
}

#[test]
fn test_integer_literal_values() {
    let uint8_val = LiteralValue::Uint8(255);
    let tinyint_val = LiteralValue::TinyInt(-128);
    let smallint_val = LiteralValue::SmallInt(-32768);
    let int_val = LiteralValue::Int(-2_147_483_648);
    let bigint_val = LiteralValue::BigInt(-9_223_372_036_854_775_808);
    let int128_val = LiteralValue::Int128(-170_141_183_460_469_231_731_687_303_715_884_105_728);

    assert_eq!(uint8_val.column_type(), ColumnType::Uint8);
    assert_eq!(tinyint_val.column_type(), ColumnType::TinyInt);
    assert_eq!(smallint_val.column_type(), ColumnType::SmallInt);
    assert_eq!(int_val.column_type(), ColumnType::Int);
    assert_eq!(bigint_val.column_type(), ColumnType::BigInt);
    assert_eq!(int128_val.column_type(), ColumnType::Int128);

    // Test scalar conversion and verify values
    let uint8_scalar: Scalar = uint8_val.to_scalar();
    let tinyint_scalar: Scalar = tinyint_val.to_scalar();
    let smallint_scalar: Scalar = smallint_val.to_scalar();
    let int_scalar: Scalar = int_val.to_scalar();
    let bigint_scalar: Scalar = bigint_val.to_scalar();
    let int128_scalar: Scalar = int128_val.to_scalar();

    // Verify the scalar values match the original values
    assert_eq!(uint8_scalar, Scalar::from_i128((255u8) as i128));
    assert_eq!(tinyint_scalar, Scalar::from_i128((-128i8) as i128));
    assert_eq!(smallint_scalar, Scalar::from_i128((-32768i16) as i128));
    assert_eq!(int_scalar, Scalar::from_i128((-2_147_483_648i32) as i128));
    assert_eq!(bigint_scalar, Scalar::from_i128((-9_223_372_036_854_775_808i64) as i128));
    assert_eq!(int128_scalar, Scalar::from_i128((-170_141_183_460_469_231_731_687_303_715_884_105_728i128) as i128));
}

#[test]
fn test_decimal75_literal_value() {
    let precision = Precision::new(10).unwrap();
    let scale = 2;
    let value = I256::from_i128(12345);
    let decimal_val = LiteralValue::Decimal75(precision, scale, value);

    assert_eq!(
        decimal_val.column_type(),
        ColumnType::Decimal75(precision, scale)
    );

    let decimal_scalar: Scalar = decimal_val.to_scalar();
    let decimal_scalar2: Scalar =
        LiteralValue::Decimal75(precision, scale, value).to_scalar();

    assert_eq!(decimal_scalar, decimal_scalar2);
}

#[test]
fn test_literal_value_clone() {
    let original = LiteralValue::VarChar("clone test".to_string());
    let cloned = original.clone();

    assert_eq!(original, cloned);
}

#[test]
fn test_empty_string_and_binary() {
    let empty_string = LiteralValue::VarChar(String::new());
    let empty_binary = LiteralValue::VarBinary(Vec::new());

    assert_eq!(empty_string.column_type(), ColumnType::VarChar);
    assert_eq!(empty_binary.column_type(), ColumnType::VarBinary);

    // Ensure empty values can be converted to scalar
    let _: Scalar = empty_string.to_scalar();
    let _: Scalar = empty_binary.to_scalar();
}

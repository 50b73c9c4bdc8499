use core::cmp::Ordering;
use proof_of_sql_db::column::Column;
use proof_of_sql_db::column_type::ColumnType;
use proof_of_sql_db::math::Precision;
use proof_of_sql_db::order_by_util::{compare_indexes_by_columns, compare_single_row_of_tables};
use proof_of_sql_db::scalar::Scalar;
use proof_of_sql_db::posql_time::{PoSQLTimeUnit, PoSQLTimeZone};
use proof_of_sql_db::table_operation_error::TableOperationError;

#[test]
fn compare_bigint_equal() {
    let col = Column::BigInt(&[10, 20, 30]);
    assert_eq!(compare_indexes_by_columns(&[col], 0, 0), Ordering::Equal);
}

#[test]
fn compare_bigint_less() {
    let col = Column::BigInt(&[10, 20, 30]);
    assert_eq!(compare_indexes_by_columns(&[col], 0, 1), Ordering::Less);
}

#[test]
fn compare_bigint_greater() {
    let col = Column::BigInt(&[10, 20, 30]);
    assert_eq!(compare_indexes_by_columns(&[col], 1, 0), Ordering::Greater);
}

#[test]
fn compare_boolean() {
    let col = Column::Boolean(&[false, true]);
    assert_eq!(compare_indexes_by_columns(&[col], 0, 1), Ordering::Less);
    assert_eq!(compare_indexes_by_columns(&[col], 1, 0), Ordering::Greater);
}

#[test]
fn compare_int() {
    let col = Column::Int(&[5, 3, 8]);
    assert_eq!(compare_indexes_by_columns(&[col], 0, 1), Ordering::Greater);
    assert_eq!(compare_indexes_by_columns(&[col], 1, 0), Ordering::Less);
}

#[test]
fn compare_varchar() {
    let scalars: Vec<Scalar> = vec![];
    let col = Column::VarChar((&["apple", "banana"], &scalars));
    assert_eq!(compare_indexes_by_columns(&[col], 0, 1), Ordering::Less);
}

#[test]
fn compare_multi_column_first_determines() {
    let col1 = Column::BigInt(&[10, 20, 10]);
    let col2 = Column::BigInt(&[100, 200, 200]);
    assert_eq!(compare_indexes_by_columns(&[col1, col2], 0, 1), Ordering::Less);
}

#[test]
fn compare_multi_column_second_tiebreaks() {
    let col1 = Column::BigInt(&[10, 10, 20]);
    let col2 = Column::BigInt(&[100, 200, 300]);
    assert_eq!(compare_indexes_by_columns(&[col1, col2], 0, 1), Ordering::Less);
}

#[test]
fn compare_multi_column_all_equal() {
    let col1 = Column::BigInt(&[10, 10]);
    let col2 = Column::BigInt(&[100, 100]);
    assert_eq!(compare_indexes_by_columns(&[col1, col2], 0, 1), Ordering::Equal);
}

#[test]
fn compare_empty_columns_is_equal() {
    let cols: Vec<Column> = vec![];
    assert_eq!(compare_indexes_by_columns(&cols, 0, 0), Ordering::Equal);
}

#[test]
fn compare_single_row_of_tables_bigint() {
    let left = [Column::BigInt(&[10, 20])];
    let right = [Column::BigInt(&[10, 30])];
    assert_eq!(compare_single_row_of_tables(&left, &right, 0, 0).unwrap(), Ordering::Equal);
    assert_eq!(compare_single_row_of_tables(&left, &right, 0, 1).unwrap(), Ordering::Less);
    assert_eq!(compare_single_row_of_tables(&left, &right, 1, 0).unwrap(), Ordering::Greater);
}

#[test]
fn compare_single_row_of_tables_boolean() {
    let left = [Column::Boolean(&[false, true])];
    let right = [Column::Boolean(&[true, false])];
    assert_eq!(compare_single_row_of_tables(&left, &right, 0, 0).unwrap(), Ordering::Less);
    assert_eq!(compare_single_row_of_tables(&left, &right, 1, 1).unwrap(), Ordering::Greater);
}

#[test]
fn compare_single_row_of_tables_incompatible_types() {
    let left = [Column::BigInt(&[10])];
    let right = [Column::Boolean(&[true])];
    assert!(compare_single_row_of_tables(&left, &right, 0, 0).is_err());
}

#[test]
fn we_can_compare_indexes_by_columns_with_no_columns() {
    let columns: &[Column; 0] = &[];
    assert_eq!(compare_indexes_by_columns(columns, 0, 1), Ordering::Equal);
    assert_eq!(compare_indexes_by_columns(columns, 1, 2), Ordering::Equal);
    assert_eq!(compare_indexes_by_columns(columns, 3, 2), Ordering::Equal);
}

#[test]
fn we_can_compare_indexes_by_columns_for_bigint_columns() {
    let slice_a = &[55, 44, 66, 66, 66, 77, 66, 66, 66, 66];
    let slice_b = &[22, 44, 11, 44, 33, 22, 22, 11, 22, 22];
    let slice_c = &[11, 55, 11, 44, 77, 11, 22, 55, 11, 22];
    let column_a = Column::BigInt(slice_a);
    let column_b = Column::BigInt(slice_b);
    let column_c = Column::BigInt(slice_c);

    let columns = &[column_a];
    assert_eq!(compare_indexes_by_columns(columns, 0, 1), Ordering::Greater);
    assert_eq!(compare_indexes_by_columns(columns, 1, 2), Ordering::Less);
    assert_eq!(compare_indexes_by_columns(columns, 2, 3), Ordering::Equal);
    assert_eq!(compare_indexes_by_columns(columns, 2, 1), Ordering::Greater);
    assert_eq!(compare_indexes_by_columns(columns, 1, 0), Ordering::Less);
    let columns = &[column_a, column_b];
    assert_eq!(compare_indexes_by_columns(columns, 0, 1), Ordering::Greater);
    assert_eq!(compare_indexes_by_columns(columns, 1, 2), Ordering::Less);
    assert_eq!(compare_indexes_by_columns(columns, 2, 3), Ordering::Less);
    assert_eq!(compare_indexes_by_columns(columns, 3, 4), Ordering::Greater);
    assert_eq!(compare_indexes_by_columns(columns, 2, 7), Ordering::Equal);
    let columns = &[column_a, column_b, column_c];
    assert_eq!(compare_indexes_by_columns(columns, 0, 1), Ordering::Greater);
    assert_eq!(compare_indexes_by_columns(columns, 1, 2), Ordering::Less);
    assert_eq!(compare_indexes_by_columns(columns, 2, 3), Ordering::Less);
    assert_eq!(compare_indexes_by_columns(columns, 3, 4), Ordering::Greater);
    assert_eq!(compare_indexes_by_columns(columns, 2, 7), Ordering::Less);
    assert_eq!(compare_indexes_by_columns(columns, 6, 9), Ordering::Equal);
}

#[test]
fn we_can_compare_indexes_by_columns_for_mixed_columns() {
    let slice_a = &["55", "44", "66", "66", "66", "77", "66", "66", "66", "66"];
    let slice_b = &[22, 44, 11, 44, 33, 22, 22, 11, 22, 22];
    let slice_c = &[11, 55, 11, 44, 77, 11, 22, 55, 11, 22];
    let scals_a: Vec<Scalar> = slice_a.iter().map(|s| Scalar::from_str_via_hash(s)).collect();
    let column_a = Column::VarChar((slice_a, &scals_a));
    let column_b = Column::Int128(slice_b);
    let column_c = Column::BigInt(slice_c);

    let columns = &[column_a];
    assert_eq!(compare_indexes_by_columns(columns, 0, 1), Ordering::Greater);
    assert_eq!(compare_indexes_by_columns(columns, 1, 2), Ordering::Less);
    assert_eq!(compare_indexes_by_columns(columns, 2, 3), Ordering::Equal);
    assert_eq!(compare_indexes_by_columns(columns, 2, 1), Ordering::Greater);
    assert_eq!(compare_indexes_by_columns(columns, 1, 0), Ordering::Less);
    let columns = &[column_a, column_b];
    assert_eq!(compare_indexes_by_columns(columns, 0, 1), Ordering::Greater);
    assert_eq!(compare_indexes_by_columns(columns, 1, 2), Ordering::Less);
    assert_eq!(compare_indexes_by_columns(columns, 2, 3), Ordering::Less);
    assert_eq!(compare_indexes_by_columns(columns, 3, 4), Ordering::Greater);
    assert_eq!(compare_indexes_by_columns(columns, 2, 7), Ordering::Equal);
    let columns = &[column_a, column_b, column_c];
    assert_eq!(compare_indexes_by_columns(columns, 0, 1), Ordering::Greater);
    assert_eq!(compare_indexes_by_columns(columns, 1, 2), Ordering::Less);
    assert_eq!(compare_indexes_by_columns(columns, 2, 3), Ordering::Less);
    assert_eq!(compare_indexes_by_columns(columns, 3, 4), Ordering::Greater);
    assert_eq!(compare_indexes_by_columns(columns, 2, 7), Ordering::Less);
    assert_eq!(compare_indexes_by_columns(columns, 6, 9), Ordering::Equal);
}

#[test]
fn we_can_compare_single_row_of_tables() {
    let left_slice_a = &[55, 44, 44, 66, 66, 77, 66, 66, 66, 66];
    let left_slice_b = &[22, 44, 55, 44, 33, 22, 22, 11, 22, 22];
    let left_slice_c = &[11, 55, 11, 44, 77, 11, 22, 55, 11, 22];
    let left = &[Column::BigInt(left_slice_a), Column::BigInt(left_slice_b), Column::BigInt(left_slice_c)];
    let right_slice_a = &[77, 44, 66, 44, 77, 77, 66, 66, 55, 66];
    let right_slice_b = &[22, 55, 11, 77, 33, 33, 22, 22, 22, 11];
    let right_slice_c = &[11, 55, 22, 0, 77, 11, 33, 55, 11, 22];
    let right = &[Column::BigInt(right_slice_a), Column::BigInt(right_slice_b), Column::BigInt(right_slice_c)];

    assert_eq!(compare_single_row_of_tables(left, right, 0, 1).unwrap(), Ordering::Greater);
    assert_eq!(compare_single_row_of_tables(left, right, 1, 2).unwrap(), Ordering::Less);
    assert_eq!(compare_single_row_of_tables(left, right, 2, 3).unwrap(), Ordering::Less);
    assert_eq!(compare_single_row_of_tables(left, right, 2, 1).unwrap(), Ordering::Less);
    assert_eq!(compare_single_row_of_tables(left, right, 5, 0).unwrap(), Ordering::Equal);
}

#[test]
fn we_cannot_compare_single_row_of_tables_if_type_mismatch() {
    let left_slice = &[55, 44, 66, 66, 66, 77, 66, 66, 66, 66];
    let right_slice = &[true, false, true, true, false, true, false, true, false, true];
    let left = &[Column::BigInt(left_slice)];
    let right = &[Column::Boolean(right_slice)];
    assert_eq!(
        compare_single_row_of_tables(left, right, 0, 1),
        Err(TableOperationError::JoinIncompatibleTypes { left_type: ColumnType::BigInt, right_type: ColumnType::Boolean })
    );
}

#[test]
fn we_can_compare_indexes_by_columns_for_scalar_columns() {
    let slice_a: &[i128] = &[55, 44, 66, 66, 66, 77, 66, 66, 66, 66];
    let slice_b = &[22, 44, 11, 44, 33, 22, 22, 11, 22, 22];
    let slice_c = &[11, 55, 11, 44, 77, 11, 22, 55, 11, 22];
    let scals_a: Vec<Scalar> = slice_a.iter().map(|v| Scalar::from_i128(*v)).collect();
    let column_a = Column::Scalar(&scals_a);
    let column_b = Column::Int128(slice_b);
    let column_c = Column::BigInt(slice_c);

    let columns = &[column_a];
    assert_eq!(compare_indexes_by_columns(columns, 0, 1), Ordering::Greater);
    assert_eq!(compare_indexes_by_columns(columns, 1, 2), Ordering::Less);
    assert_eq!(compare_indexes_by_columns(columns, 2, 3), Ordering::Equal);
    assert_eq!(compare_indexes_by_columns(columns, 2, 1), Ordering::Greater);
    assert_eq!(compare_indexes_by_columns(columns, 1, 0), Ordering::Less);
    let columns = &[column_a, column_b];
    assert_eq!(compare_indexes_by_columns(columns, 0, 1), Ordering::Greater);
    assert_eq!(compare_indexes_by_columns(columns, 1, 2), Ordering::Less);
    assert_eq!(compare_indexes_by_columns(columns, 2, 3), Ordering::Less);
    assert_eq!(compare_indexes_by_columns(columns, 3, 4), Ordering::Greater);
    assert_eq!(compare_indexes_by_columns(columns, 2, 7), Ordering::Equal);
    let columns = &[column_a, column_b, column_c];
    assert_eq!(compare_indexes_by_columns(columns, 0, 1), Ordering::Greater);
    assert_eq!(compare_indexes_by_columns(columns, 1, 2), Ordering::Less);
    assert_eq!(compare_indexes_by_columns(columns, 2, 3), Ordering::Less);
    assert_eq!(compare_indexes_by_columns(columns, 3, 4), Ordering::Greater);
    assert_eq!(compare_indexes_by_columns(columns, 2, 7), Ordering::Less);
    assert_eq!(compare_indexes_by_columns(columns, 6, 9), Ordering::Equal);
}

#[test]
fn we_can_compare_indexes_by_columns_for_varbinary_columns() {
    let raw_bytes = [b"foo".as_ref(), b"bar".as_ref(), b"baz".as_ref(), b"baz".as_ref(), b"bar".as_ref()];
    let scalars: Vec<Scalar> = raw_bytes.iter().map(|b| Scalar::from_le_bytes_mod_order(b)).collect();
    let col_varbinary = Column::VarBinary((raw_bytes.as_slice(), scalars.as_slice()));
    let columns = &[col_varbinary];
    assert_eq!(compare_indexes_by_columns(columns, 0, 1), Ordering::Greater);
    assert_eq!(compare_indexes_by_columns(columns, 1, 2), Ordering::Less);
    assert_eq!(compare_indexes_by_columns(columns, 2, 3), Ordering::Equal);
    assert_eq!(compare_indexes_by_columns(columns, 3, 4), Ordering::Greater);
    assert_eq!(compare_indexes_by_columns(columns, 1, 4), Ordering::Equal);
}

#[test]
fn decimals_compare_by_their_signed_values() {
    let p = Precision::new(10).unwrap();
    let values = [Scalar::from_i128(-5), Scalar::from_i128(3), Scalar::from_i128(-5)];
    let col = Column::Decimal75(p, 2, &values);
    assert_eq!(compare_indexes_by_columns(&[col], 0, 1), Ordering::Less);
    assert_eq!(compare_indexes_by_columns(&[col], 1, 0), Ordering::Greater);
    assert_eq!(compare_indexes_by_columns(&[col], 0, 2), Ordering::Equal);
    // as a plain scalar column, -5 is a large residue and comes after 3
    let col = Column::Scalar(&values);
    assert_eq!(compare_indexes_by_columns(&[col], 0, 1), Ordering::Greater);
}

#[test]
fn swapping_rows_flips_the_order() {
    let col = Column::VarChar((&["b", "ab", "b"], &[Scalar::zero(), Scalar::zero(), Scalar::zero()]));
    for i in 0..3 {
        for j in 0..3 {
            assert_eq!(
                compare_indexes_by_columns(&[col], i, j),
                compare_indexes_by_columns(&[col], j, i).reverse()
            );
        }
    }
}
#[test]
fn we_can_compare_indexes_by_columns_for_more_column_types() {
    let bools = &[false, true, true];
    let uint8s = &[3_u8, 1, 1];
    let tinyints = &[3_i8, 1, 1];
    let smallints = &[3_i16, 1, 1];
    let ints = &[3_i32, 1, 1];
    let decimals: Vec<Scalar> = [3, 1, 1].iter().map(|v| Scalar::from_i128(*v)).collect();

    assert_eq!(
        compare_indexes_by_columns(&[Column::Boolean(bools)], 0, 1),
        Ordering::Less
    );
    assert_eq!(
        compare_indexes_by_columns(&[Column::Uint8(uint8s)], 0, 1),
        Ordering::Greater
    );
    assert_eq!(
        compare_indexes_by_columns(&[Column::TinyInt(tinyints)], 1, 0),
        Ordering::Less
    );
    assert_eq!(
        compare_indexes_by_columns(&[Column::SmallInt(smallints)], 1, 2),
        Ordering::Equal
    );
    assert_eq!(
        compare_indexes_by_columns(&[Column::Int(ints)], 0, 1),
        Ordering::Greater
    );
    assert_eq!(
        compare_indexes_by_columns(
            &[Column::Decimal75(Precision::new(10).unwrap(), 2, &decimals)],
            0,
            1
        ),
        Ordering::Greater
    );
}

#[test]
fn we_can_compare_single_row_of_tables_for_more_column_types() {
    let left_bools = &[false];
    let right_bools = &[true];
    assert_eq!(
        compare_single_row_of_tables(
            &[Column::Boolean(left_bools)],
            &[Column::Boolean(right_bools)],
            0,
            0
        )
        .unwrap(),
        Ordering::Less
    );

    let left_uint8s = &[1_u8];
    let right_uint8s = &[2_u8];
    assert_eq!(
        compare_single_row_of_tables(
            &[Column::Uint8(left_uint8s)],
            &[Column::Uint8(right_uint8s)],
            0,
            0
        )
        .unwrap(),
        Ordering::Less
    );

    let left_tinyints = &[3_i8];
    let right_tinyints = &[2_i8];
    assert_eq!(
        compare_single_row_of_tables(
            &[Column::TinyInt(left_tinyints)],
            &[Column::TinyInt(right_tinyints)],
            0,
            0
        )
        .unwrap(),
        Ordering::Greater
    );

    let left_smallints = &[4_i16];
    let right_smallints = &[4_i16];
    assert_eq!(
        compare_single_row_of_tables(
            &[Column::SmallInt(left_smallints)],
            &[Column::SmallInt(right_smallints)],
            0,
            0
        )
        .unwrap(),
        Ordering::Equal
    );

    let left_ints = &[5_i32];
    let right_ints = &[4_i32];
    assert_eq!(
        compare_single_row_of_tables(
            &[Column::Int(left_ints)],
            &[Column::Int(right_ints)],
            0,
            0
        )
        .unwrap(),
        Ordering::Greater
    );

    let left_timestamps = &[5_i64];
    let right_timestamps = &[6_i64];
    assert_eq!(
        compare_single_row_of_tables(
            &[Column::TimestampTZ(
                PoSQLTimeUnit::Second,
                PoSQLTimeZone::utc(),
                left_timestamps
            )],
            &[Column::TimestampTZ(
                PoSQLTimeUnit::Second,
                PoSQLTimeZone::utc(),
                right_timestamps
            )],
            0,
            0
        )
        .unwrap(),
        Ordering::Less
    );

    let left_int128s = &[7_i128];
    let right_int128s = &[6_i128];
    assert_eq!(
        compare_single_row_of_tables(
            &[Column::Int128(left_int128s)],
            &[Column::Int128(right_int128s)],
            0,
            0
        )
        .unwrap(),
        Ordering::Greater
    );

    let left_decimals: Vec<Scalar> = [8].iter().map(|v| Scalar::from_i128(*v)).collect();
    let right_decimals: Vec<Scalar> = [8].iter().map(|v| Scalar::from_i128(*v)).collect();
    assert_eq!(
        compare_single_row_of_tables(
            &[Column::Decimal75(
                Precision::new(10).unwrap(),
                2,
                &left_decimals
            )],
            &[Column::Decimal75(
                Precision::new(10).unwrap(),
                2,
                &right_decimals
            )],
            0,
            0
        )
        .unwrap(),
        Ordering::Equal
    );

    let left_scalars: Vec<Scalar> = [9].iter().map(|v| Scalar::from_i128(*v)).collect();
    let right_scalars: Vec<Scalar> = [10].iter().map(|v| Scalar::from_i128(*v)).collect();
    assert_eq!(
        compare_single_row_of_tables(
            &[Column::Scalar(left_scalars.as_slice())],
            &[Column::Scalar(right_scalars.as_slice())],
            0,
            0
        )
        .unwrap(),
        Ordering::Less
    );

    let left_strings = &["apple"];
    let right_strings = &["banana"];
    let left_string_scalars: Vec<Scalar> =
        left_strings.iter().map(|s| Scalar::from_str_via_hash(s)).collect();
    let right_string_scalars: Vec<Scalar> = right_strings.iter().map(|s| Scalar::from_str_via_hash(s)).collect();
    assert_eq!(
        compare_single_row_of_tables(
            &[Column::VarChar((left_strings, &left_string_scalars))],
            &[Column::VarChar((right_strings, &right_string_scalars))],
            0,
            0
        )
        .unwrap(),
        Ordering::Less
    );
}
#[test]
fn compare_single_row_of_tables_varbinary_orders_bytewise() {
    let a: [&[u8]; 2] = [b"a", b"ab"];
    let b: [&[u8]; 2] = [b"b", b"ab"];
    let ha = [Scalar::from_i128(1), Scalar::from_i128(3)];
    let hb = [Scalar::from_i128(2), Scalar::from_i128(3)];
    let left = [Column::VarBinary((&a, &ha))];
    let right = [Column::VarBinary((&b, &hb))];
    assert_eq!(compare_single_row_of_tables(&left, &right, 0, 0).unwrap(), Ordering::Less);
    assert_eq!(compare_single_row_of_tables(&left, &right, 1, 1).unwrap(), Ordering::Equal);
    assert_eq!(compare_single_row_of_tables(&right, &left, 0, 1).unwrap(), Ordering::Greater);
}

use proof_of_sql_db::column_type::ColumnType;
use proof_of_sql_db::nullable_owned_column::NullableOwnedColumn;
use proof_of_sql_db::owned_column::OwnedColumn;
use proof_of_sql_db::permutation::Permutation;
use proof_of_sql_db::scalar::Scalar;

#[test]
fn nullable_owned_column_converts_option_scalars() {
    let option_scalars = [Some(1), None, Some(3)]
        .iter()
        .map(|value| value.map(|v: i128| Scalar::from_i128(v)))
        .collect::<Vec<_>>();

    let column =
        NullableOwnedColumn::try_from_option_scalars(&option_scalars, ColumnType::BigInt)
            .unwrap();

    assert_eq!(column.values(), &OwnedColumn::BigInt(vec![1, 0, 3]));
    assert_eq!(column.presence(), Some([true, false, true].as_slice()));
}

#[test]
fn nullable_owned_column_without_nulls_omits_presence_mask() {
    let option_scalars = [Some(1), Some(2), Some(3)]
        .iter()
        .map(|value| value.map(|v: i128| Scalar::from_i128(v)))
        .collect::<Vec<_>>();

    let column =
        NullableOwnedColumn::try_from_option_scalars(&option_scalars, ColumnType::BigInt)
            .unwrap();

    assert_eq!(column.values(), &OwnedColumn::BigInt(vec![1, 2, 3]));
    assert_eq!(column.presence(), None);
}

#[test]
fn nullable_slice_and_permute_keep_values_and_presence_aligned() {
    let column = NullableOwnedColumn::try_new(
        OwnedColumn::BigInt(vec![5, 0, 9, 2]),
        Some(vec![true, false, true, true]),
    )
    .unwrap();

    let sliced = column.slice(1, 4);
    assert_eq!(sliced.values(), &OwnedColumn::BigInt(vec![0, 9, 2]));
    assert_eq!(sliced.presence(), Some([false, true, true].as_slice()));

    let permutation = Permutation::try_new(vec![2, 0, 1]).unwrap();
    let permuted = sliced.try_permute(&permutation).unwrap();
    assert_eq!(permuted.values(), &OwnedColumn::BigInt(vec![2, 0, 9]));
    assert_eq!(permuted.presence(), Some([true, false, true].as_slice()));
}

#[test]
fn we_propagate_presence_from_nullable_lhs() {
    let lhs = NullableOwnedColumn::try_new(
        OwnedColumn::BigInt(vec![10, 20, 30]),
        Some(vec![true, false, true]),
    )
    .unwrap();
    let rhs =
        NullableOwnedColumn::new_nonnullable(OwnedColumn::BigInt(vec![1, 2, 3]));

    let result = lhs.element_wise_add(&rhs).unwrap();

    assert_eq!(
        result,
        NullableOwnedColumn::try_new(
            OwnedColumn::BigInt(vec![11, 22, 33]),
            Some(vec![true, false, true])
        )
        .unwrap()
    );
}

#[test]
fn we_propagate_presence_from_nullable_rhs() {
    let lhs = NullableOwnedColumn::new_nonnullable(OwnedColumn::BigInt(vec![
        10, 20, 30,
    ]));
    let rhs = NullableOwnedColumn::try_new(
        OwnedColumn::BigInt(vec![1, 2, 3]),
        Some(vec![true, false, true]),
    )
    .unwrap();

    let result = lhs.element_wise_add(&rhs).unwrap();

    assert_eq!(
        result,
        NullableOwnedColumn::try_new(
            OwnedColumn::BigInt(vec![11, 22, 33]),
            Some(vec![true, false, true])
        )
        .unwrap()
    );
}

#[test]
fn we_and_presence_for_two_nullable_columns() {
    let lhs = NullableOwnedColumn::try_new(
        OwnedColumn::BigInt(vec![10, 20, 30]),
        Some(vec![true, false, true]),
    )
    .unwrap();
    let rhs = NullableOwnedColumn::try_new(
        OwnedColumn::BigInt(vec![1, 2, 3]),
        Some(vec![false, true, true]),
    )
    .unwrap();

    let result = lhs.element_wise_add(&rhs).unwrap();

    assert_eq!(
        result,
        NullableOwnedColumn::try_new(
            OwnedColumn::BigInt(vec![11, 22, 33]),
            Some(vec![false, false, true])
        )
        .unwrap()
    );
}

#[test]
fn we_keep_nonnullable_result_when_inputs_are_nonnullable() {
    let lhs = NullableOwnedColumn::new_nonnullable(OwnedColumn::BigInt(vec![
        10, 20, 30,
    ]));
    let rhs =
        NullableOwnedColumn::new_nonnullable(OwnedColumn::BigInt(vec![1, 2, 3]));

    let result = lhs.element_wise_add(&rhs).unwrap();

    assert_eq!(
        result,
        NullableOwnedColumn::new_nonnullable(OwnedColumn::BigInt(vec![
            11, 22, 33
        ]))
    );
}

#[test]
fn we_propagate_presence_for_comparison_results() {
    let lhs = NullableOwnedColumn::try_new(
        OwnedColumn::BigInt(vec![10, 20, 30]),
        Some(vec![true, false, true]),
    )
    .unwrap();
    let rhs = NullableOwnedColumn::new_nonnullable(OwnedColumn::BigInt(vec![
        10, 2, 30,
    ]));

    let result = lhs.element_wise_eq(&rhs).unwrap();

    assert_eq!(
        result,
        NullableOwnedColumn::try_new(
            OwnedColumn::Boolean(vec![true, false, true]),
            Some(vec![true, false, true])
        )
        .unwrap()
    );
}

#[test]
fn nullable_owned_column_null_checks_reflect_presence() {
    let column = NullableOwnedColumn::try_new(
        OwnedColumn::BigInt(vec![10, 20, 30]),
        Some(vec![true, false, true]),
    )
    .unwrap();

    assert_eq!(
        column.is_null(),
        OwnedColumn::Boolean(vec![false, true, false])
    );
    assert_eq!(
        column.is_not_null(),
        OwnedColumn::Boolean(vec![true, false, true])
    );
}

#[test]
fn nonnullable_owned_column_null_checks_are_constant() {
    let column = NullableOwnedColumn::new_nonnullable(OwnedColumn::BigInt(vec![
        10, 20, 30,
    ]));

    assert_eq!(
        column.is_null(),
        OwnedColumn::Boolean(vec![false, false, false])
    );
    assert_eq!(
        column.is_not_null(),
        OwnedColumn::Boolean(vec![true, true, true])
    );
}

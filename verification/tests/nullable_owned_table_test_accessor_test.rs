use proof_of_sql_db::column::Column;
use proof_of_sql_db::column_field::ColumnField;
use proof_of_sql_db::column_type::ColumnType;
use proof_of_sql_db::nullable_owned_column::NullableOwnedColumn;
use proof_of_sql_db::nullable_owned_table::NullableOwnedTable;
use proof_of_sql_db::nullable_owned_table_test_accessor::NullableOwnedTableTestAccessor;
use proof_of_sql_db::owned_column::OwnedColumn;
use proof_of_sql_db::table_ref::TableRef;
use sqlparser::ast::Ident;

fn nullable_table() -> NullableOwnedTable {
    NullableOwnedTable::try_new(vec![
        (
            Ident::new("id"),
            NullableOwnedColumn::new_nonnullable(OwnedColumn::BigInt(vec![1, 2, 3])),
        ),
        (
            Ident::new("amount"),
            NullableOwnedColumn::try_new(
                OwnedColumn::BigInt(vec![10, 0, 30]),
                Some(vec![true, false, true]),
            )
            .unwrap(),
        ),
    ])
    .unwrap()
}

fn presence_id(name: &str) -> Ident {
    NullableOwnedTable::presence_column_name(&Ident::new(name))
}

#[test]
fn nullable_accessor_returns_values_and_presence() {
    let table_ref = TableRef::new("sxt", "nullable");
    let accessor =
        NullableOwnedTableTestAccessor::new_from_table(table_ref.clone(), nullable_table(), 0, ());

    let nullable_column = accessor.get_nullable_column(&table_ref, &Ident::new("amount"));

    assert_eq!(nullable_column.values(), Column::BigInt(&[10, 0, 30]));
    assert_eq!(nullable_column.presence(), Some(&[true, false, true][..]));
    assert_eq!(
        accessor.get_column(&table_ref, &Ident::new("amount")),
        Column::BigInt(&[10, 0, 30])
    );
    assert_eq!(
        accessor.get_column(&table_ref, &presence_id("amount")),
        Column::Boolean(&[true, false, true])
    );
}

#[test]
fn nullable_accessor_builds_nullable_tables_from_column_ids() {
    let table_ref = TableRef::new("sxt", "nullable");
    let accessor =
        NullableOwnedTableTestAccessor::new_from_table(table_ref.clone(), nullable_table(), 0, ());
    let column_ids = vec![Ident::new("id"), Ident::new("amount")];

    let table = accessor.get_nullable_table(&table_ref, &column_ids);
    let amount = table.column(1).unwrap();

    assert_eq!(table.num_rows(), 3);
    assert_eq!(table.column_names()[1], Ident::new("amount"));
    assert_eq!(amount.values(), Column::BigInt(&[10, 0, 30]));
    assert_eq!(amount.presence(), Some(&[true, false, true][..]));
}

#[test]
fn nullable_accessor_preserves_nullable_schema_fields() {
    let table_ref = TableRef::new("sxt", "nullable");
    let accessor =
        NullableOwnedTableTestAccessor::new_from_table(table_ref.clone(), nullable_table(), 0, ());

    let amount_field = accessor.lookup_column_field(&table_ref, &Ident::new("amount")).unwrap();
    let fields = accessor.lookup_column_fields(&table_ref);

    assert_eq!(amount_field.name(), Ident::new("amount"));
    assert_eq!(amount_field.data_type(), ColumnType::BigInt);
    assert!(amount_field.is_nullable());
    assert!(!fields[0].is_nullable());
    assert!(fields[1].is_nullable());
    assert_eq!(
        accessor.lookup_schema(&table_ref),
        vec![(Ident::new("id"), ColumnType::BigInt), (Ident::new("amount"), ColumnType::BigInt)]
    );

    let presence_field = accessor.lookup_column_field(&table_ref, &presence_id("amount")).unwrap();
    assert_eq!(presence_field, ColumnField::new(presence_id("amount"), ColumnType::Boolean));
}

#[test]
fn nullable_accessor_gives_all_present_rows_for_columns_without_mask() {
    let table_ref = TableRef::new("sxt", "nullable");
    let mut accessor = NullableOwnedTableTestAccessor::<()>::new_empty();
    accessor.add_table(table_ref.clone(), nullable_table(), 2);
    assert_eq!(
        accessor.get_column(&table_ref, &presence_id("id")),
        Column::Boolean(&[true, true, true])
    );
    assert_eq!(accessor.lookup_column(&table_ref, &presence_id("id")), Some(ColumnType::Boolean));
    assert_eq!(accessor.lookup_column(&table_ref, &Ident::new("missing")), None);
    assert_eq!(accessor.lookup_column(&TableRef::new("sxt", "other"), &Ident::new("id")), None);
    assert_eq!(accessor.lookup_column_field(&table_ref, &Ident::new("missing")), None);
    assert_eq!(accessor.get_length(&table_ref), 3);
    assert_eq!(accessor.get_offset(&table_ref), 2);
    accessor.update_offset(&table_ref, 7);
    assert_eq!(accessor.get_offset(&table_ref), 7);
    assert_eq!(accessor.get_column_names(&table_ref), vec!["id", "amount"]);
}

#[test]
fn nullable_accessor_builds_empty_table_of_stored_length() {
    let table_ref = TableRef::new("sxt", "nullable");
    let accessor =
        NullableOwnedTableTestAccessor::new_from_table(table_ref.clone(), nullable_table(), 0, ());
    let table = accessor.get_nullable_table(&table_ref, &[]);
    assert_eq!(table.num_rows(), 3);
    assert_eq!(table.num_columns(), 0);
}

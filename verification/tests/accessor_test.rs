use proof_of_sql_db::accessor::SchemaAccessorImpl;
use proof_of_sql_db::column_type::ColumnType;
use proof_of_sql_db::table_ref::TableRef;
use sqlparser::ast::Ident;

fn sample_schema_accessor() -> SchemaAccessorImpl {
    let table1 = TableRef::new("schema", "table1");
    let table2 = TableRef::new("schema", "table2");
    SchemaAccessorImpl::new(vec![
        (table1, vec![("col1".into(), ColumnType::BigInt), ("col2".into(), ColumnType::VarChar)]),
        (table2, vec![("col1".into(), ColumnType::BigInt)]),
    ])
}

#[test]
fn test_lookup_column() {
    let accessor = sample_schema_accessor();
    let table1 = TableRef::new("schema", "table1");
    let table2 = TableRef::new("schema", "table2");
    assert_eq!(accessor.lookup_column(&table1, &"col1".into()), Some(ColumnType::BigInt));
    assert_eq!(accessor.lookup_column(&table1, &"col2".into()), Some(ColumnType::VarChar));
    assert_eq!(accessor.lookup_column(&table1, &"not_a_col".into()), None);
    assert_eq!(accessor.lookup_column(&table2, &"col1".into()), Some(ColumnType::BigInt));
    assert_eq!(accessor.lookup_column(&table2, &"col2".into()), None);
}

#[test]
fn test_lookup_non_existent_column_on_existing_table() {
    let accessor = sample_schema_accessor();
    let table1 = TableRef::new("schema", "table1");
    assert_eq!(accessor.lookup_column(&table1, &"col3".into()), None);
}

#[test]
fn test_lookup_schema() {
    let accessor = sample_schema_accessor();
    let table1 = TableRef::new("schema", "table1");
    let table2 = TableRef::new("schema", "table2");
    assert_eq!(
        accessor.lookup_schema(&table1),
        vec![("col1".into(), ColumnType::BigInt), ("col2".into(), ColumnType::VarChar),]
    );
    assert_eq!(accessor.lookup_schema(&table2), vec![("col1".into(), ColumnType::BigInt),]);
}

#[test]
fn table_refs_keep_their_names() {
    let with_schema = TableRef::new("sxt", "orders");
    assert_eq!(with_schema.schema_id(), Some(&Ident::new("sxt")));
    assert_eq!(with_schema.table_id(), &Ident::new("orders"));
    let without_schema = TableRef::new("", "orders");
    assert_eq!(without_schema.schema_id(), None);
    assert!(with_schema.equals(&TableRef::new("sxt", "orders")));
    assert!(!with_schema.equals(&without_schema));
}

use proof_of_sql_db::column_ref::{ColumnId, ColumnRef};
use proof_of_sql_db::column_type::ColumnType;
use proof_of_sql_db::table_ref::TableRef;
use sqlparser::ast::Ident;

#[test]
fn we_can_create_column_ref_and_access_fields() {
    let table_ref = TableRef::new("sxt", "users");
    let column_id = Ident::new("email");
    let column_type = ColumnType::VarChar;
    let col_ref = ColumnRef::new(table_ref.clone(), column_id.clone(), column_type);
    assert_eq!(col_ref.table_ref(), table_ref);
    assert_eq!(col_ref.column_id(), column_id);
    assert_eq!(*col_ref.column_type(), column_type);
}

#[test]
fn column_ref_works_with_numeric_types() {
    for col_type in [
        ColumnType::Boolean,
        ColumnType::Uint8,
        ColumnType::TinyInt,
        ColumnType::SmallInt,
        ColumnType::Int,
        ColumnType::BigInt,
    ] {
        let col_ref = ColumnRef::new(TableRef::new("", "t"), Ident::new("c"), col_type);
        assert_eq!(*col_ref.column_type(), col_type);
    }
}

#[test]
fn column_ref_works_without_schema() {
    let col_ref = ColumnRef::new(TableRef::new("", "products"), Ident::new("price"), ColumnType::BigInt);
    assert_eq!(col_ref.table_ref().to_string(), "products");
}

#[test]
fn new_preserves_table_column_and_type() {
    let table_ref = TableRef::new("sxt", "orders");
    let column_ref = ColumnRef::new(table_ref.clone(), Ident::new("amount".to_string()), ColumnType::Int128);

    assert_eq!(column_ref.table_ref(), table_ref);
    assert_eq!(column_ref.column_id().value, "amount");
    assert_eq!(column_ref.column_type(), &ColumnType::Int128);
}

#[test]
fn column_ids_keep_their_name_and_table() {
    let id = ColumnId::new(Ident::new("a"), Some(TableRef::new("s", "t")));
    assert_eq!(id.name(), &Ident::new("a"));
    let plain: ColumnId = Ident::new("b").into();
    assert_eq!(plain, ColumnId::new(Ident::new("b"), None));
    assert_eq!(ColumnId::from_name("b"), plain);
    assert_eq!(TableRef::new("sxt", "orders").to_string(), "sxt.orders");
}

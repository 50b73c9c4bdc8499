use proof_of_sql_db::column_field::ColumnField;
use proof_of_sql_db::column_type::ColumnType;
use sqlparser::ast::Ident;
use std::hash::{Hash, Hasher};

#[test]
fn column_field_preserves_name_and_type() {
    let name: Ident = Ident::new("revenue_cents");
    let field = ColumnField::new(name.clone(), ColumnType::BigInt);

    assert_eq!(field.name(), name);
    assert_eq!(field.data_type(), ColumnType::BigInt);

    let renamed = field.name();
    assert_eq!(renamed.value, "revenue_cents");
    assert_eq!(field.name().value, "revenue_cents");
}

#[test]
fn test_column_field_new() {
    let field = ColumnField::new(Ident::new("col1"), ColumnType::BigInt);
    assert_eq!(field.name().to_string(), "col1");
    assert_eq!(field.data_type(), ColumnType::BigInt);
}

#[test]
fn test_column_field_clone() {
    let field = ColumnField::new(Ident::new("col"), ColumnType::Int);
    let cloned = field.clone();
    assert_eq!(field, cloned);
}

#[test]
fn test_column_field_debug() {
    let field = ColumnField::new(Ident::new("test"), ColumnType::Boolean);
    let debug_str = format!("{:?}", field);
    assert!(!debug_str.is_empty());
}

#[test]
fn test_column_field_partial_eq() {
    let field1 = ColumnField::new(Ident::new("col"), ColumnType::BigInt);
    let field2 = ColumnField::new(Ident::new("col"), ColumnType::BigInt);
    let field3 = ColumnField::new(Ident::new("col"), ColumnType::Int);
    assert_eq!(field1, field2);
    assert_ne!(field1, field3);
}

#[test]
fn test_column_field_hash() {
    let field1 = ColumnField::new(Ident::new("col"), ColumnType::BigInt);
    let field2 = ColumnField::new(Ident::new("col"), ColumnType::BigInt);
    let mut h1 = std::collections::hash_map::DefaultHasher::new();
    let mut h2 = std::collections::hash_map::DefaultHasher::new();
    field1.hash(&mut h1);
    field2.hash(&mut h2);
    assert_eq!(h1.finish(), h2.finish());
}

#[test]
fn test_column_field_with_different_types() {
    let types = vec![
        ColumnType::BigInt,
        ColumnType::Int,
        ColumnType::SmallInt,
        ColumnType::TinyInt,
        ColumnType::Uint8,
        ColumnType::Boolean,
        ColumnType::VarChar,
        ColumnType::Scalar,
    ];
    for ty in types {
        let field = ColumnField::new(Ident::new("col"), ty);
        assert_eq!(field.data_type(), ty);
    }
}

#[test]
fn nullable_schema_fields_preserve_nullability() {
    let field = ColumnField::new_nullable(Ident::new("score"), ColumnType::BigInt);

    assert_eq!(field.name().value, "score");
    assert_eq!(field.data_type(), ColumnType::BigInt);
    assert!(field.is_nullable());

    let field = field.with_nullable(false);
    assert!(!field.is_nullable());
}

#[test]
fn nonnullable_schema_fields_remain_the_default() {
    let field = ColumnField::new(Ident::new("score"), ColumnType::BigInt);

    assert!(!field.is_nullable());
}

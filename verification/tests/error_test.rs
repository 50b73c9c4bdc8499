use proof_of_sql_db::column_operation_error::ColumnOperationError;
use proof_of_sql_db::column_type::ColumnType;
use proof_of_sql_db::error::ParseError;
use proof_of_sql_db::owned_column_error::{ColumnCoercionError, OwnedColumnError};
use proof_of_sql_db::table_operation_error::TableOperationError;
use proof_of_sql_db::column_field::ColumnField;
use sqlparser::ast::Ident;

#[test]
fn parse_error_displays_invalid_table_reference() {
    assert_eq!(
        ParseError::InvalidTableReference { table_reference: "schema.table.extra".to_string() }.to_string(),
        "Invalid table reference: schema.table.extra"
    );
}

#[test]
fn parse_error_display_messages() {
    let err = ParseError::InvalidTableReference { table_reference: "users".to_string() };
    assert_eq!(err.to_string(), "Invalid table reference: users");
    let err2 = ParseError::InvalidTableReference { table_reference: "orders".to_string() };
    assert_eq!(err2.to_string(), "Invalid table reference: orders");
}

#[test]
fn parse_error_debug_formatting() {
    let err = ParseError::InvalidTableReference { table_reference: "test".to_string() };
    assert_eq!(format!("{:?}", err), "InvalidTableReference { table_reference: \"test\" }");
}

#[test]
fn parse_error_equality() {
    let err1 = ParseError::InvalidTableReference { table_reference: "foo".to_string() };
    let err2 = ParseError::InvalidTableReference { table_reference: "foo".to_string() };
    let err3 = ParseError::InvalidTableReference { table_reference: "bar".to_string() };
    assert_eq!(err1, err2);
    assert_ne!(err1, err3);
}

#[test]
fn displays_owned_column_errors() {
    assert_eq!(
        OwnedColumnError::TypeCastError { from_type: ColumnType::VarChar, to_type: ColumnType::BigInt }.to_string(),
        "Can not perform type casting from VarChar to BigInt"
    );
    assert_eq!(
        OwnedColumnError::ScalarConversionError { error: "bad scalar".to_string() }.to_string(),
        "Error in converting scalars to a given column type: bad scalar"
    );
    assert_eq!(
        OwnedColumnError::Unsupported { error: "windowed varbinary".to_string() }.to_string(),
        "Unsupported operation: windowed varbinary"
    );
}

#[test]
fn displays_column_coercion_errors() {
    assert_eq!(ColumnCoercionError::Overflow.to_string(), "Overflow when coercing a column");
    assert_eq!(ColumnCoercionError::InvalidTypeCoercion.to_string(), "Invalid type coercion");
}

#[test]
fn column_coercion_error_messages_are_formatted_as_expected() {
    assert_eq!(ColumnCoercionError::Overflow.to_string(), "Overflow when coercing a column");
    assert_eq!(ColumnCoercionError::InvalidTypeCoercion.to_string(), "Invalid type coercion");
}

#[test]
fn owned_column_error_messages_are_formatted_as_expected() {
    let cast = OwnedColumnError::TypeCastError { from_type: ColumnType::Boolean, to_type: ColumnType::BigInt };
    assert_eq!(cast.to_string(), "Can not perform type casting from Boolean to BigInt");
    let scalar = OwnedColumnError::ScalarConversionError { error: String::from("overflow") };
    assert_eq!(scalar.to_string(), "Error in converting scalars to a given column type: overflow");
    let unsupported = OwnedColumnError::Unsupported { error: String::from("nope") };
    assert_eq!(unsupported.to_string(), "Unsupported operation: nope");
}

#[test]
fn union_not_enough_tables_error() {
    let err = TableOperationError::UnionNotEnoughTables;
    assert!(!err.to_string().is_empty());
}

#[test]
fn join_with_different_number_of_columns_error() {
    let err = TableOperationError::JoinWithDifferentNumberOfColumns { left_num_columns: 3, right_num_columns: 5 };
    let msg = err.to_string();
    assert!(msg.contains("3"));
    assert!(msg.contains("5"));
}

#[test]
fn join_incompatible_types_error() {
    let err = TableOperationError::JoinIncompatibleTypes { left_type: ColumnType::Boolean, right_type: ColumnType::VarChar };
    let msg = err.to_string();
    assert!(msg.contains("Boolean"));
    assert!(msg.contains("VarChar"));
}

#[test]
fn duplicate_column_error() {
    let err = TableOperationError::DuplicateColumn;
    assert!(matches!(err, TableOperationError::DuplicateColumn));
}

#[test]
fn column_index_out_of_bounds_error() {
    let err = TableOperationError::ColumnIndexOutOfBounds { column_index: 99 };
    let msg = err.to_string();
    assert!(msg.contains("99"));
}

#[test]
fn table_operation_error_from_column_operation_error() {
    let col_err = ColumnOperationError::DivisionByZero;
    let table_err = TableOperationError::ColumnOperationError { source: col_err };
    assert!(matches!(table_err, TableOperationError::ColumnOperationError { .. }));
    assert_eq!(table_err.to_string(), "Division by zero");
}

#[test]
fn column_does_not_exist_error() {
    let err = TableOperationError::ColumnDoesNotExist { column_ident: sqlparser::ast::Ident::new("missing_col") };
    let msg = err.to_string();
    assert!(msg.contains("missing_col"));
}

#[test]
fn owned_column_error_equality_depends_on_fields() {
    let a = OwnedColumnError::TypeCastError {
        from_type: ColumnType::Boolean,
        to_type: ColumnType::BigInt,
    };
    let same = OwnedColumnError::TypeCastError {
        from_type: ColumnType::Boolean,
        to_type: ColumnType::BigInt,
    };
    let different = OwnedColumnError::TypeCastError {
        from_type: ColumnType::Boolean,
        to_type: ColumnType::Int,
    };
    assert_eq!(a, same);
    assert_ne!(a, different);
    assert_ne!(
        a,
        OwnedColumnError::Unsupported {
            error: String::from("x")
        }
    );
}

#[test]
fn union_incompatible_schemas_error() {
    let schema1 = vec![ColumnField::new(Ident::new("a"), ColumnType::BigInt)];
    let schema2 = vec![ColumnField::new(Ident::new("a"), ColumnType::Int)];
    let err = TableOperationError::UnionIncompatibleSchemas {
        correct_schema: schema1.clone(),
        actual_schema: schema2.clone(),
    };
    let msg = err.to_string();
    assert!(!msg.is_empty());
}

#[test]
fn test_module_re_exports() {
    assert!(true);
}

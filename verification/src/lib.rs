//! Column types, columns and the element-wise operations of a SQL database
//! layer whose results feed a proof system, with their contracts.
pub mod math;
pub mod permutation;
pub mod text;
pub mod posql_time;
pub mod column_type;
pub mod scalar;
pub mod column_operation_error;
pub mod column;
pub mod owned_column;
pub mod slice_operation;
pub mod column_operation;
pub mod column_arithmetic_operation;
pub mod column_comparison_operation;
pub mod nullable_column;
pub mod literal_value;
pub mod columnar_value;
pub mod error;
pub mod owned_column_error;
pub mod column_field;
pub mod table_operation_error;
pub mod order_by_util;
pub mod column_type_operation;
pub mod owned_column_operation;
pub mod column_repetition_operation;
pub mod column_index_operation;
pub mod filter_util;
pub mod column_select_operation;
pub mod nullable_owned_column;
pub mod nullable_schema;
pub mod nullable_owned_table;
pub mod table;
pub mod nullable_table;
pub mod table_ref;
pub mod accessor;
pub mod column_ref;
pub mod owned_table;
pub mod owned_table_utility;
pub mod table_coercion;
pub mod owned_table_test_accessor;
pub mod nullable_owned_table_test_accessor;

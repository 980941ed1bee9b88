use ddb::column_kind::column_type_of_upper;
use ddb::{to_generic_column_type, GenericColumnType, SqlError};

#[test]
fn type_names_map_to_column_kinds() {
    assert_eq!(to_generic_column_type("INT"), Ok(GenericColumnType::Int4));
    assert_eq!(to_generic_column_type("  int\t"), Ok(GenericColumnType::Int4));
    assert_eq!(to_generic_column_type("varchar(max)"), Ok(GenericColumnType::BigVarChar));
    assert_eq!(to_generic_column_type("DateTime2"), Ok(GenericColumnType::Datetime2));
    assert_eq!(to_generic_column_type("uniqueidentifier"), Ok(GenericColumnType::Guid));
    assert_eq!(to_generic_column_type("\u{3000}text\u{a0}"), Ok(GenericColumnType::NVarchar));
}

#[test]
fn unknown_type_names_are_errors() {
    assert_eq!(
        to_generic_column_type(" money "),
        Err(SqlError::UnknownColumnType(" money ".to_string()))
    );
    assert_eq!(to_generic_column_type(""), Err(SqlError::UnknownColumnType(String::new())));
}

#[test]
fn upper_case_names_only() {
    assert_eq!(column_type_of_upper("XML"), Some(GenericColumnType::Xml));
    assert_eq!(column_type_of_upper("xml"), None);
    assert_eq!(column_type_of_upper("BOOLEAN"), Some(GenericColumnType::Bit));
}

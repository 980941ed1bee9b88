use ddb::tables::ColumnType;
use ddb::{BatchFault, SqlError, SqlMultipleParameters, SqlSingleParameters, SqlValue, ToSqlValue};

#[test]
fn test_mult_parameters() {
    let mut a = SqlMultipleParameters::new();

    for i in 0..5 {
        a.add_line(vec![
            (ColumnType::COL_SQL_TYPE, SqlValue::Str(format!("TEST {i}"))),
            (ColumnType::COL_VIEW_TYPE, SqlValue::Str("TEST".to_string())),
        ])
        .unwrap();
    }

    assert_eq!(a.len(), 2);
    assert_eq!(a.hight(), 5);
}

#[test]
fn check_mult_to_single_conversion() {
    let mut mult = SqlMultipleParameters::new();
    mult.add_line(vec![("A", 1.to_sql_value()), ("B", 2.to_sql_value()), ("C", 3.to_sql_value())]).unwrap();
    mult.add_line(vec![("A", 4.to_sql_value()), ("B", 5.to_sql_value()), ("C", 6.to_sql_value())]).unwrap();
    mult.add_line(vec![("A", 7.to_sql_value()), ("B", 8.to_sql_value()), ("C", 9.to_sql_value())]).unwrap();

    let single = mult.to_single();

    assert_eq!(single.len(), 9);
    assert_eq!(single.get("A_0"), Some(&SqlValue::Int(1)));
    assert_eq!(single.get("B_1"), Some(&SqlValue::Int(5)));
    assert_eq!(single.get("C_2"), Some(&SqlValue::Int(9)));
    assert_eq!(single.get("C_3"), None);
}

#[test]
fn first_row_sets_the_columns() {
    let mut mult = SqlMultipleParameters::new();
    mult.add_line(vec![("X", SqlValue::Int(1)), ("Y", SqlValue::Int(2))]).unwrap();
    assert_eq!(mult.header(), vec!["X".to_string(), "Y".to_string()]);
    mult.add_line(vec![("Y", SqlValue::Int(4)), ("X", SqlValue::Int(3))]).unwrap();
    assert_eq!(mult.get_value("X", 1), Ok(&SqlValue::Int(3)));
    assert_eq!(mult.get_value("Y", 1), Ok(&SqlValue::Int(4)));
}

#[test]
fn row_missing_a_column_changes_nothing() {
    let mut mult = SqlMultipleParameters::new();
    mult.add_line(vec![("X", SqlValue::Int(1)), ("Y", SqlValue::Int(2))]).unwrap();
    let r = mult.add_line(vec![("X", SqlValue::Int(3))]);
    assert_eq!(r, Err(SqlError::MalformedBatch(BatchFault::WrongWidth { expected: 2, got: 1 })));
    let r = mult.add_line(vec![("X", SqlValue::Int(3)), ("Z", SqlValue::Int(4))]);
    assert_eq!(r, Err(SqlError::MalformedBatch(BatchFault::MissingColumn("Y".to_string()))));
    assert_eq!(mult.hight(), 1);
    assert_eq!(mult.len(), 2);
    assert_eq!(mult.get_value("X", 0), Ok(&SqlValue::Int(1)));
    assert_eq!(mult.get_value("X", 1), Err(SqlError::MalformedBatch(BatchFault::NoSuchRow(1))));
}

#[test]
fn duplicate_column_in_a_row_is_refused() {
    let mut mult = SqlMultipleParameters::new();
    let r = mult.add_line(vec![("X", SqlValue::Int(1)), ("X", SqlValue::Int(2))]);
    assert_eq!(r, Err(SqlError::MalformedBatch(BatchFault::DuplicateColumn("X".to_string()))));
    assert_eq!(mult.len(), 0);
    mult.add_line(vec![("X", SqlValue::Int(1)), ("Y", SqlValue::Int(2))]).unwrap();
    let r = mult.add_line(vec![("Y", SqlValue::Int(1)), ("Y", SqlValue::Int(2))]);
    assert_eq!(r, Err(SqlError::MalformedBatch(BatchFault::DuplicateColumn("Y".to_string()))));
    assert_eq!(mult.hight(), 1);
}

#[test]
fn constant_column_fills_every_row() {
    let mut mult = SqlMultipleParameters::new();
    mult.add_line(vec![("X", SqlValue::Int(1))]).unwrap();
    mult.add_line(vec![("X", SqlValue::Int(2))]).unwrap();
    mult.add_const_column(SqlValue::Int(42), "Fk").unwrap();
    assert_eq!(mult.get_value("Fk", 0), Ok(&SqlValue::Int(42)));
    assert_eq!(mult.get_value("Fk", 1), Ok(&SqlValue::Int(42)));
    let r = mult.add_const_column(SqlValue::Int(1), "X");
    assert_eq!(r, Err(SqlError::MalformedBatch(BatchFault::DuplicateColumn("X".to_string()))));
    assert_eq!(mult.get_value("Q", 0), Err(SqlError::MalformedBatch(BatchFault::UnknownColumn("Q".to_string()))));
    mult.clear();
    assert_eq!(mult.len(), 0);
    assert_eq!(mult.hight(), 0);
}

#[test]
fn single_map_keeps_one_value_per_name() {
    let mut p = SqlSingleParameters::new();
    assert!(p.is_empty());
    p.insert("a".to_string(), SqlValue::Int(1));
    p.insert("b".to_string(), SqlValue::Int(2));
    p.insert("a".to_string(), SqlValue::Int(3));
    assert_eq!(p.len(), 2);
    assert_eq!(p.get("a"), Some(&SqlValue::Int(3)));
    assert_eq!(p.name_at(0), "a");
    assert!(p.contains_key("b"));
    assert!(!p.contains_key("c"));
}

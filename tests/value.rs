use ddb::{SqlDate, SqlDateTime, SqlError, SqlTime, SqlValue, ToSqlValue};

fn date(y: i32, m: u32, d: u32) -> SqlDate {
    SqlDate::new(y, m, d).unwrap()
}

#[test]
fn literals_of_scalars() {
    assert_eq!(SqlValue::Int(2).to_string(), "2");
    assert_eq!(SqlValue::Int8(-9_000_000_000).to_string(), "-9000000000");
    assert_eq!(SqlValue::Int2(i16::MIN).to_string(), "-32768");
    assert_eq!(SqlValue::Int1(255).to_string(), "255");
    assert_eq!(SqlValue::Bool(true).to_string(), "1");
    assert_eq!(SqlValue::Bool(false).to_string(), "0");
    assert_eq!(SqlValue::Float(2.5f64.to_string()).to_string(), "2.5");
    assert_eq!(SqlValue::Null.to_string(), "NULL");
    assert_eq!(SqlValue::Bin(vec![1, 2]).to_string(), "@BIN");
}

#[test]
fn statement_text_of_values() {
    assert_eq!(SqlValue::Int(2).to_sql(), "2");
    assert_eq!(SqlValue::Float(2.5f64.to_string()).to_sql(), "2.5");
    assert_eq!(SqlValue::Bool(true).to_sql(), "1");
    assert_eq!(SqlValue::StrL("OLOKO".to_string()).to_sql(), "'OLOKO'");
    assert_eq!(SqlValue::Str(";-;".to_string()).to_sql(), "'-'");
    assert_eq!(SqlValue::Date(date(2025, 12, 21)).to_sql(), "'2025-12-21'");
    let t = SqlTime::new(10, 30, 0, 0).unwrap();
    assert_eq!(SqlValue::DateTime(SqlDateTime::new(date(2025, 12, 21), t)).to_sql(), "'2025-12-21 10:30:00'");
    assert_eq!(SqlValue::IntList(vec![1, 2, 3]).to_sql(), "(1, 2, 3)");
    let floats = vec![1.5f64.to_string(), 2.5f64.to_string(), 3.5f64.to_string()];
    assert_eq!(SqlValue::FloatList(floats).to_sql(), "(1.5, 2.5, 3.5)");
    let strs = vec!["1".to_string(), "2".to_string(), "3".to_string()];
    assert_eq!(SqlValue::StrList(strs).to_sql(), "('1', '2', '3')");
    let strs = vec!["ON".to_string(), "O'FF".to_string()];
    assert_eq!(SqlValue::StrList(strs).to_sql(), "('ON', 'O''FF')");
    assert_eq!(SqlValue::IntList(vec![]).to_sql(), "()");
    assert_eq!(SqlValue::Null.to_sql(), "NULL");
}

#[test]
fn tags_follow_the_binding_mode() {
    assert_eq!(SqlValue::Int(1).tag("id"), "@_id");
    assert_eq!(SqlValue::Bin(vec![0]).tag("file"), "@file");
}

#[test]
fn where_comparisons() {
    assert_eq!(SqlValue::Int(2).tag_sql_where("Int"), "= @_Int");
    assert_eq!(SqlValue::StrL("x".to_string()).tag_sql_where("S"), "LIKE @_S");
    assert_eq!(SqlValue::IntList(vec![1]).tag_sql_where("L"), "IN @_L");
    assert_eq!(SqlValue::Bin(vec![1]).tag_sql_where("B"), "= @B");
}

#[test]
fn only_binary_values_bind() {
    assert_eq!(SqlValue::Bin(vec![7, 8]).bind_value(), Ok(&vec![7u8, 8]));
    assert!(matches!(SqlValue::Int(1).bind_value(), Err(SqlError::BindingRejected(_))));
}

#[test]
fn dates_and_times_as_text() {
    assert_eq!(date(2025, 12, 21).to_text(), "2025-12-21");
    assert_eq!(date(7, 1, 2).to_text(), "0007-01-02");
    assert_eq!(date(12345, 6, 7).to_text(), "+12345-06-07");
    assert_eq!(date(-44, 3, 15).to_text(), "-0044-03-15");
    assert_eq!(SqlTime::new(10, 30, 0, 0).unwrap().to_text(), "10:30:00");
    assert_eq!(SqlTime::new(1, 2, 3, 500_000_000).unwrap().to_text(), "01:02:03.500");
    assert_eq!(SqlTime::new(1, 2, 3, 1_000).unwrap().to_text(), "01:02:03.000001");
    assert_eq!(SqlTime::new(1, 2, 3, 7).unwrap().to_text(), "01:02:03.000000007");
    assert_eq!(SqlTime::new(23, 59, 59, 1_000_000_000).unwrap().to_text(), "23:59:60");
}

#[test]
fn impossible_dates_and_times_are_refused() {
    assert!(SqlDate::new(2025, 2, 29).is_none());
    assert!(SqlDate::new(2024, 2, 29).is_some());
    assert!(SqlDate::new(1900, 2, 29).is_none());
    assert!(SqlDate::new(2000, 2, 29).is_some());
    assert!(SqlDate::new(2025, 13, 1).is_none());
    assert!(SqlDate::new(2025, 4, 31).is_none());
    assert!(SqlDate::new(400000, 1, 1).is_none());
    assert!(SqlTime::new(24, 0, 0, 0).is_none());
    assert!(SqlTime::new(0, 0, 58, 1_000_000_000).is_none());
}

#[test]
fn duplicates_are_equal() {
    let v = SqlValue::StrList(vec!["a".to_string()]);
    assert_eq!(v.duplicate(), v);
    let b = SqlValue::Bin(vec![1, 2, 3]);
    assert_eq!(b.duplicate(), b);
}

#[test]
fn rust_values_convert() {
    assert_eq!(7u8.to_sql_value(), SqlValue::Int1(7));
    assert_eq!(7i64.to_sql_value(), SqlValue::Int8(7));
    assert_eq!("a".to_string().to_sql_value(), SqlValue::Str("a".to_string()));
    assert_eq!(vec![1u8].to_sql_value(), SqlValue::Bin(vec![1]));
    assert_eq!(Some(true).to_sql_value(), SqlValue::Bool(true));
    assert_eq!(None::<i32>.to_sql_value(), SqlValue::Null);
}

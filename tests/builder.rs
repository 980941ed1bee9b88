use ddb::tables::ColumnType;
use ddb::{
    build_delete_clause, build_generic_select_clause, build_insert_clause, build_known_select_clause,
    build_update_clause, build_where_clause, BatchFault, SqlDate, SqlDateTime, SqlError,
    SqlMultipleParameters, SqlSingleParameters, SqlTime, SqlValue,
};

fn one(name: &str, value: SqlValue) -> SqlSingleParameters {
    let mut a = SqlSingleParameters::new();
    a.insert(name.to_string(), value);
    a
}

#[test]
fn check_build_where() {
    let where_c = build_where_clause(one("Int", SqlValue::Int(2)));
    assert_eq!(where_c, "WHERE [Int] = @_Int");

    let where_c = build_where_clause(one("Float", SqlValue::Float(2.5f64.to_string())));
    assert_eq!(where_c, "WHERE [Float] = @_Float");

    let where_c = build_where_clause(one("Bool", SqlValue::Bool(true)));
    assert_eq!(where_c, "WHERE [Bool] = @_Bool");

    let where_c = build_where_clause(one("StringL", SqlValue::StrL("OLOKO".to_string())));
    assert_eq!(where_c, "WHERE [StringL] LIKE @_StringL");

    let where_c = build_where_clause(one("StringN", SqlValue::Str(";-;".to_string())));
    assert_eq!(where_c, "WHERE [StringN] = @_StringN");

    let date = SqlDate::new(2025, 12, 21).unwrap();
    let where_c = build_where_clause(one("Date", SqlValue::Date(date)));
    assert_eq!(where_c, "WHERE [Date] = @_Date");

    let time = SqlTime::new(10, 30, 0, 0).unwrap();
    let where_c = build_where_clause(one("DateTime", SqlValue::DateTime(SqlDateTime::new(date, time))));
    assert_eq!(where_c, "WHERE [DateTime] = @_DateTime");

    let where_c = build_where_clause(one("IntVec", SqlValue::IntList(vec![1, 2, 3])));
    assert_eq!(where_c, "WHERE [IntVec] IN @_IntVec");

    let floats = vec![1.5f64.to_string(), 2.5f64.to_string(), 3.5f64.to_string()];
    let where_c = build_where_clause(one("FloatVec", SqlValue::FloatList(floats)));
    assert_eq!(where_c, "WHERE [FloatVec] IN @_FloatVec");

    let strs = vec!["1".to_string(), "2".to_string(), "3".to_string()];
    let where_c = build_where_clause(one("StrVec", SqlValue::StrList(strs)));
    assert_eq!(where_c, "WHERE [StrVec] IN @_StrVec");
}

#[test]
fn where_joins_comparisons_with_and() {
    let mut a = one("A", SqlValue::Int(1));
    a.insert("B".to_string(), SqlValue::StrL("x*".to_string()));
    assert_eq!(build_where_clause(a), "WHERE [A] = @_A AND [B] LIKE @_B");
    assert_eq!(build_where_clause(SqlSingleParameters::new()), "");
}

#[test]
fn check_build_select() {
    let build = build_known_select_clause::<ColumnType>(None, None, None);
    assert_eq!(build, "SELECT  * FROM uploader.[COLUMN_TYPE] ");

    let build = build_known_select_clause::<ColumnType>(None, None, Some(10));
    assert_eq!(build, "SELECT TOP 10 * FROM uploader.[COLUMN_TYPE] ");

    let build = build_known_select_clause::<ColumnType>(Some(one("Int", SqlValue::Int(2))), None, None);
    assert_eq!(build, "SELECT  * FROM uploader.[COLUMN_TYPE] WHERE [Int] = @_Int");

    let build = build_known_select_clause::<ColumnType>(Some(one("Int", SqlValue::Int(2))), None, Some(10));
    assert_eq!(build, "SELECT TOP 10 * FROM uploader.[COLUMN_TYPE] WHERE [Int] = @_Int");
}

#[test]
fn select_with_columns() {
    let build = build_generic_select_clause("T", None, Some(vec!["a", "b"]), Some(255));
    assert_eq!(build, "SELECT TOP 255 a, b FROM uploader.[T] ");
}

fn batch() -> SqlMultipleParameters {
    let mut mult = SqlMultipleParameters::new();
    mult.add_line(vec![("A", SqlValue::Int(1)), ("B", SqlValue::Bin(vec![9]))]).unwrap();
    mult.add_line(vec![("B", SqlValue::Bin(vec![8])), ("A", SqlValue::Int(2))]).unwrap();
    mult
}

#[test]
fn insert_tags_every_cell() {
    let sql = build_insert_clause("T", &batch()).unwrap();
    assert_eq!(sql, "INSERT INTO uploader.[T] (A, B) VALUES (@_A_0, @B_0), (@_A_1, @B_1);");
}

#[test]
fn insert_needs_columns_and_rows() {
    let empty = SqlMultipleParameters::new();
    assert_eq!(build_insert_clause("T", &empty), Err(SqlError::MalformedBatch(BatchFault::NoColumns)));
    let mut no_rows = SqlMultipleParameters::new();
    no_rows.add_const_column(SqlValue::Int(1), "A").unwrap();
    assert_eq!(build_insert_clause("T", &no_rows), Err(SqlError::MalformedBatch(BatchFault::NoRows)));
}

#[test]
fn update_sets_and_filters() {
    let mut set = one("Name", SqlValue::Str("x".to_string()));
    set.insert("Active".to_string(), SqlValue::Bool(false));
    let sql = build_update_clause("T", set, Some(one("pk", SqlValue::Int(3)))).unwrap();
    assert_eq!(sql, "UPDATE uploader.[T] SET [Name] = @_Name, [Active] = @_Active WHERE [pk] = @_pk");
    let sql = build_update_clause("T", one("a", SqlValue::Int(1)), None).unwrap();
    assert_eq!(sql, "UPDATE uploader.[T] SET [a] = @_a");
}

#[test]
fn update_must_set_a_column() {
    let r = build_update_clause("T", SqlSingleParameters::new(), None);
    assert_eq!(r, Err(SqlError::MalformedBatch(BatchFault::EmptySet)));
}

#[test]
fn delete_with_and_without_filter() {
    assert_eq!(build_delete_clause("T", None), "DELETE FROM uploader.[T]");
    assert_eq!(build_delete_clause("T", Some(SqlSingleParameters::new())), "DELETE FROM uploader.[T]");
    let sql = build_delete_clause("T", Some(one("pk", SqlValue::IntList(vec![1, 2]))));
    assert_eq!(sql, "DELETE FROM uploader.[T] WHERE [pk] IN @_pk");
}

#[test]
fn list_where_clause_resolves_to_one_parenthesised_list() {
    let where_c = build_where_clause(one("IntList", SqlValue::IntList(vec![1, 2, 3])));
    assert_eq!(where_c, "WHERE [IntList] IN @_IntList");
    let map = one("IntList", SqlValue::IntList(vec![1, 2, 3]));
    let q = ddb::parse_sql(&where_c, Some(&map)).unwrap();
    assert_eq!(q.text, "WHERE [IntList] IN (1, 2, 3)");
}

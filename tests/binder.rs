use ddb::{
    build_insert_clause, parse_sql, SqlError, SqlMultipleParameters, SqlSingleParameters, SqlValue,
};

#[test]
fn check_parse_sql() {
    let sql = "SELECT * FROM users /* aaa */ WHERE id = @user_id AND status IN @status";
    let mut sql_parameters = SqlSingleParameters::new();
    sql_parameters.insert("@user_id".to_string(), SqlValue::Int(123456));
    sql_parameters.insert("@status".to_string(), SqlValue::StrList(vec!["ON".to_string(), "OFF".to_string()]));

    // keys are names without their tag prefix, so neither tag finds a value
    let r = parse_sql(sql, Some(&sql_parameters));
    assert!(matches!(r, Err(SqlError::MissingParameter(t)) if t == "@user_id"));
}

#[test]
fn inline_tags_are_substituted() {
    let sql = "SELECT * FROM users /* aaa */ WHERE id = @_user_id AND status IN @_status";
    let mut p = SqlSingleParameters::new();
    p.insert("user_id".to_string(), SqlValue::Int(123456));
    p.insert("status".to_string(), SqlValue::StrList(vec!["ON".to_string(), "OFF".to_string()]));
    let q = parse_sql(sql, Some(&p)).unwrap();
    assert_eq!(q.text, "SELECT * FROM users  WHERE id = 123456 AND status IN ('ON', 'OFF')");
    assert!(q.bound.is_empty());
}

#[test]
fn similar_tags_are_not_confused() {
    let mut p = SqlSingleParameters::new();
    p.insert("a_1".to_string(), SqlValue::Int(1));
    p.insert("a_10".to_string(), SqlValue::Int(10));
    let q = parse_sql("VALUES (@_a_1, @_a_10, @_a_1)", Some(&p)).unwrap();
    assert_eq!(q.text, "VALUES (1, 10, 1)");
}

#[test]
fn bound_tags_become_positional_markers() {
    let mut p = SqlSingleParameters::new();
    p.insert("f".to_string(), SqlValue::Bin(vec![1, 2]));
    p.insert("g".to_string(), SqlValue::Bin(vec![3]));
    p.insert("n".to_string(), SqlValue::Str("it's".to_string()));
    let q = parse_sql("INSERT INTO t VALUES (@g, @_n, @f, @g)", Some(&p)).unwrap();
    assert_eq!(q.text, "INSERT INTO t VALUES (@P1, 'it''s', @P2, @P1)");
    assert_eq!(q.bound, vec![SqlValue::Bin(vec![3]), SqlValue::Bin(vec![1, 2])]);
}

#[test]
fn binding_mode_must_fit_the_value() {
    let mut p = SqlSingleParameters::new();
    p.insert("f".to_string(), SqlValue::Bin(vec![1]));
    p.insert("n".to_string(), SqlValue::Int(1));
    let r = parse_sql("SELECT @_f", Some(&p));
    assert!(matches!(r, Err(SqlError::BindingRejected(t)) if t == "@_f"));
    let r = parse_sql("SELECT @n", Some(&p));
    assert!(matches!(r, Err(SqlError::BindingRejected(t)) if t == "@n"));
}

#[test]
fn missing_parameter_names_the_tag() {
    let p = SqlSingleParameters::new();
    let r = parse_sql("SELECT 1 -- @_gone\nWHERE x = @_here", Some(&p));
    assert!(matches!(r, Err(SqlError::MissingParameter(t)) if t == "@_here"));
}

#[test]
fn without_a_map_only_comments_go() {
    let q = parse_sql("SELECT @_x /* c */", None).unwrap();
    assert_eq!(q.text, "SELECT @_x ");
    assert!(q.bound.is_empty());
}

#[test]
fn insert_of_a_batch_resolves_against_its_flat_map() {
    let mut mult = SqlMultipleParameters::new();
    for i in 0..12 {
        mult.add_line(vec![("Name", SqlValue::Str(format!("n{i}"))), ("File", SqlValue::Bin(vec![i as u8]))])
            .unwrap();
    }
    let sql = build_insert_clause("DOC", &mult).unwrap();
    let single = mult.to_single();
    let q = parse_sql(&sql, Some(&single)).unwrap();
    assert!(q.text.starts_with("INSERT INTO uploader.[DOC] (Name, File) VALUES ('n0', @P1), ('n1', @P2)"));
    assert!(q.text.ends_with("('n10', @P11), ('n11', @P12);"));
    assert_eq!(q.bound.len(), 12);
    assert_eq!(q.bound[11], SqlValue::Bin(vec![11]));
}

#[test]
fn underscore_column_names_resolve_unless_binary() {
    let mut mult = SqlMultipleParameters::new();
    mult.add_line(vec![("_note", SqlValue::Str("a".to_string()))]).unwrap();
    let sql = build_insert_clause("T", &mult).unwrap();
    let q = parse_sql(&sql, Some(&mult.to_single())).unwrap();
    assert_eq!(q.text, "INSERT INTO uploader.[T] (_note) VALUES ('a');");

    let mut bin = SqlMultipleParameters::new();
    bin.add_line(vec![("_file", SqlValue::Bin(vec![1]))]).unwrap();
    let sql = build_insert_clause("T", &bin).unwrap();
    let r = parse_sql(&sql, Some(&bin.to_single()));
    assert!(matches!(r, Err(SqlError::MissingParameter(t)) if t == "@_file_0"));
}
